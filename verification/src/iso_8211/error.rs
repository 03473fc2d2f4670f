use vstd::prelude::*;

verus! {

/// A typed failure of the chart-record reader.
#[derive(Debug, Clone, Copy, PartialEq, Eq, Structural)]
pub enum Iso8211Error {
    /// A record or leader does not have its fixed length.
    IncorrectLength,
    /// An integer field did not parse.
    InvalidNumber,
    /// A byte did not hold its expected value; carries the expected byte.
    UnexpectedByte(u8),
    /// A text field was not valid UTF-8.
    NonUtf8,
    /// The record ended before a read was complete.
    UnexpectedEof,
}

} // verus!
