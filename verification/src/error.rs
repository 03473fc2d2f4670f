use vstd::prelude::*;

verus! {

/// A typed decode failure. Every decoder returns one of these instead of
/// panicking: a malformed sentence never aborts the session.
#[derive(Debug, Clone, Copy, PartialEq, Eq)]
pub enum ParseError {
    /// The line does not start with the `$` prefix.
    MissingPrefix,
    /// The line is too short to hold a frame.
    IncorrectLength,
    /// The stated checksum does not match the computed one.
    InvalidChecksum,
    /// An integer field did not parse.
    InvalidNumber,
    /// A decimal field did not parse.
    InvalidFloat,
    /// The 3-letter sentence-type code is not one of the supported types;
    /// carries the raw code bytes.
    UnknownType([u8; 3]),
    /// A byte sequence was not valid UTF-8.
    NonUtf8,
    /// A single-character field did not hold an accepted character.
    UnexpectedChar(char),
    /// A sentence decoder finished with input left over.
    RemainingData,
    /// The input ended before a field was complete.
    Incomplete,
}

} // verus!
