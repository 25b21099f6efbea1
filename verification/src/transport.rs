//! One command and its answer on the serial line.
//!
//! A request is the command's text followed by a carriage return. The answer is read byte by
//! byte until it ends with a carriage return and a line feed; an answer that starts with `!`
//! reports an error of the device. Answers closed by a line feed alone are not recognised.

use crate::command::Command;
use crate::error::Error;
use vstd::prelude::*;
use vstd::string::StrSliceExecFns;
use vstd::utf8::encode_utf8;

verus! {

/// The characters of an answer, one for each byte received.
pub open spec fn response_text(received: Seq<u8>) -> Seq<char> {
    Seq::new(received.len(), |i: int| received[i] as char)
}

/// The answer is complete: its last two bytes are a carriage return and a line feed.
pub open spec fn terminated(received: Seq<u8>) -> bool {
    &&& received.len() >= 2
    &&& received[received.len() - 2] == 13
    &&& received[received.len() - 1] == 10
}

/// The answer reports an error of the device: it starts with `!`.
pub open spec fn reports_error(response: Seq<char>) -> bool {
    response.len() > 0 && response[0] == '!'
}

/// The bytes to write for `command`: its text and a carriage return.
pub fn request(command: &Command) -> (bytes: Vec<u8>)
    ensures
        bytes@ == encode_utf8(command@.text().push('\r')),
{
    let mut line = command.to_string();
    line.push('\r');
    line.as_str().as_bytes_vec()
}

/// Judges the answer to `command`: a device-reported error if it starts with `!`, success
/// otherwise, whatever else the answer holds.
pub fn check_response(command: Command, response: String) -> (res: Result<(), Error>)
    ensures
        reports_error(response@) ==> res == Err::<(), Error>(
            Error::ErrorResponse(command, response),
        ),
        !reports_error(response@) ==> res is Ok,
{
    if !response.as_str().is_empty() && response.as_str().get_char(0) == '!' {
        return Err(Error::ErrorResponse(command, response));
    }
    Ok(())
}

/// A command in flight: what was asked, and the bytes of the answer so far.
pub struct Exchange {
    pub command: Command,
    pub received: Vec<u8>,
}

impl Exchange {
    /// The exchange for `command`, before any byte of the answer.
    pub fn new(command: Command) -> (exchange: Self)
        ensures
            exchange.command == command,
            exchange.received@ == Seq::<u8>::empty(),
    {
        Exchange { command, received: Vec::new() }
    }

    /// Takes the next byte of the answer, and tells whether the answer is now complete.
    pub fn accept(&mut self, byte: u8) -> (done: bool)
        ensures
            final(self).command == old(self).command,
            final(self).received@ == old(self).received@.push(byte),
            done == terminated(final(self).received@),
    {
        self.received.push(byte);
        let n = self.received.len();
        n >= 2 && self.received[n - 2] == 13 && self.received[n - 1] == 10
    }

    /// The outcome of the exchange, from the bytes taken so far.
    pub fn finish(self) -> (res: Result<(), Error>)
        ensures
            reports_error(response_text(self.received@)) ==> (res matches Err(
                Error::ErrorResponse(command, response),
            ) && command == self.command && response@ == response_text(self.received@)),
            !reports_error(response_text(self.received@)) ==> res is Ok,
    {
        let mut response = String::new();
        let mut i: usize = 0;
        while i < self.received.len()
            invariant
                i <= self.received.len(),
                response@ == response_text(self.received@.take(i as int)),
            decreases self.received.len() - i,
        {
            response.push(self.received[i] as char);
            assert(response@ =~= response_text(self.received@.take(i + 1)));
            i += 1;
        }
        assert(self.received@.take(i as int) == self.received@);
        check_response(self.command, response)
    }
}

} // verus!
