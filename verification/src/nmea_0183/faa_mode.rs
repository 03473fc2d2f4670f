use vstd::prelude::*;

use crate::error::ParseError;
use crate::misc::parser::{spec_skip_sep, Parser};

verus! {

/// The single-character FAA fix-quality indicator a sentence carries.
#[derive(Debug, Clone, Copy, PartialEq, Eq, Structural)]
pub enum FaaMode {
    Autonomous,
    Caution,
    Differential,
    Estimated,
    RtkFloat,
    ManualInput,
    DataNotValid,
    Precise,
    RtkInteger,
    Simulated,
    Unsafe,
}

/// The character-to-mode table of the FAA mode field.
pub open spec fn spec_faa_from_char(c: char) -> Option<FaaMode> {
    match c {
        'A' => Some(FaaMode::Autonomous),
        'C' => Some(FaaMode::Caution),
        'D' => Some(FaaMode::Differential),
        'E' => Some(FaaMode::Estimated),
        'F' => Some(FaaMode::RtkFloat),
        'M' => Some(FaaMode::ManualInput),
        'N' => Some(FaaMode::DataNotValid),
        'P' => Some(FaaMode::Precise),
        'R' => Some(FaaMode::RtkInteger),
        'S' => Some(FaaMode::Simulated),
        'U' => Some(FaaMode::Unsafe),
        _ => None,
    }
}

/// The outcome and final position of decoding an FAA mode field at `i`: one
/// character is consumed and mapped, then the separator step follows.
pub open spec fn spec_faa_field(s: Seq<u8>, i: int, has_sep: bool) -> (Result<
    FaaMode,
    ParseError,
>, int) {
    if i >= s.len() {
        (Err(ParseError::Incomplete), i)
    } else {
        let c = s[i] as char;
        let ni = spec_skip_sep(s, i + 1, has_sep);
        match spec_faa_from_char(c) {
            Some(m) => (Ok(m), ni),
            None => (Err(ParseError::UnexpectedChar(c)), ni),
        }
    }
}

impl FaaMode {
    /// Maps the fix-quality character to its mode, if it is one of the
    /// accepted characters.
    pub fn from_char(chr: char) -> (r: Option<FaaMode>)
        ensures
            r == spec_faa_from_char(chr),
    {
        match chr {
            'A' => Some(FaaMode::Autonomous),
            'C' => Some(FaaMode::Caution),
            'D' => Some(FaaMode::Differential),
            'E' => Some(FaaMode::Estimated),
            'F' => Some(FaaMode::RtkFloat),
            'M' => Some(FaaMode::ManualInput),
            'N' => Some(FaaMode::DataNotValid),
            'P' => Some(FaaMode::Precise),
            'R' => Some(FaaMode::RtkInteger),
            'S' => Some(FaaMode::Simulated),
            'U' => Some(FaaMode::Unsafe),
            _ => None,
        }
    }

    /// Decodes an FAA mode field.
    pub fn parse(parser: &mut Parser) -> (r: Result<FaaMode, ParseError>)
        requires
            old(parser).wf(),
        ensures
            final(parser).wf(),
            final(parser).same_stream(*old(parser)),
            ({
                let (res, ni) = spec_faa_field(
                    old(parser).bytes(),
                    old(parser).pos(),
                    old(parser).sep() is Some,
                );
                r == res && final(parser).pos() == ni
            }),
    {
        let out = match parser.next() {
            Ok(b) => {
                match FaaMode::from_char(b as char) {
                    Some(m) => Ok(m),
                    None => Err(ParseError::UnexpectedChar(b as char)),
                }
            },
            Err(e) => Err(e),
        };
        parser.consume_sep();
        out
    }
}

} // verus!
