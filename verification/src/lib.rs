//! Path-to-motion pipeline and device protocol layer for two-axis pen plotters.

pub mod command;
pub mod drawing;
pub mod error;
pub mod orchestration;
pub mod path;
pub mod plot;
pub mod point;
pub mod preview;
pub mod roland_dxy;
pub mod stroke;
pub mod text;
pub mod transport;

pub use crate::command::{convert_to_series_of_commands, Command};
pub use crate::error::Error;
pub use crate::path::{get_boundaries, Path, Paths};
pub use crate::plot::Plot;
pub use crate::stroke::{Stroke, Strokes};
