//! What can go wrong between a list of paths and a device's answer.

use crate::command::Command;
use vstd::prelude::*;

verus! {

/// A failure of the pipeline. Each is handed to the caller; nothing is retried.
#[derive(Debug)]
pub enum Error {
    /// The device answered the command with the response held here, which starts with `!`.
    ErrorResponse(Command, String),
    /// A path with fewer than two points was to become a stroke.
    ConversionError(String),
    /// No path of two points or more was given.
    InvalidPathError(String),
}

} // verus!
