use vstd::prelude::*;

use crate::error::ParseError;
use crate::misc::decimal::{parse_decimal_text, spec_decimal_text, Decimal};
use crate::misc::parser::{ne_pred, parse_uint_text, span_end, spec_skip_sep, spec_uint_text, Parser};

verus! {

/// A time of day in UTC, as the `hhmmss.ss` field layout carries it.
#[derive(Debug, Clone, Copy, PartialEq, Eq, Structural)]
pub struct Time {
    pub hour: u8,
    pub min: u8,
    pub sec: Decimal,
}

impl Time {
    /// The default time before any sentence has set one.
    pub open spec fn spec_default() -> Time {
        Time { hour: 0, min: 0, sec: Decimal::spec_zero() }
    }

    pub fn new() -> (r: Time)
        ensures
            r == Time::spec_default(),
    {
        Time { hour: 0, min: 0, sec: Decimal::zero() }
    }
}

/// The outcome and final position of decoding a time field at `i`: two bytes
/// of hours, two bytes of minutes, then everything up to the next separator
/// as seconds with a fraction, then the separator step.
pub open spec fn spec_time_field(s: Seq<u8>, i: int, has_sep: bool) -> (Result<
    Time,
    ParseError,
>, int) {
    if i + 2 > s.len() {
        (Err(ParseError::Incomplete), spec_skip_sep(s, i, has_sep))
    } else if i + 4 > s.len() {
        (Err(ParseError::Incomplete), spec_skip_sep(s, i + 2, has_sep))
    } else {
        let hcap = s.subrange(i, i + 2);
        let mcap = s.subrange(i + 2, i + 4);
        let j = span_end(s, i + 4, ne_pred(0x2C));
        let scap = s.subrange(i + 4, j);
        let ni = spec_skip_sep(s, j, has_sep);
        match spec_uint_text(hcap, 255) {
            Err(e) => (Err(e), ni),
            Ok(hour) => match spec_uint_text(mcap, 255) {
                Err(e) => (Err(e), ni),
                Ok(min) => match spec_decimal_text(scap) {
                    Err(e) => (Err(e), ni),
                    Ok(sec) => (Ok(Time { hour: hour as u8, min: min as u8, sec }), ni),
                },
            },
        }
    }
}

impl Time {
    /// Decodes a time field from the fixed `hhmmss.ss` layout.
    pub fn parse(parser: &mut Parser) -> (r: Result<Time, ParseError>)
        requires
            old(parser).wf(),
        ensures
            final(parser).wf(),
            final(parser).same_stream(*old(parser)),
            ({
                let (res, ni) = spec_time_field(
                    old(parser).bytes(),
                    old(parser).pos(),
                    old(parser).sep() is Some,
                );
                r == res && final(parser).pos() == ni
            }),
    {
        let hcap = match parser.next_n(2) {
            Ok(c) => c,
            Err(e) => {
                parser.consume_sep();
                return Err(e);
            },
        };
        let mcap = match parser.next_n(2) {
            Ok(c) => c,
            Err(e) => {
                parser.consume_sep();
                return Err(e);
            },
        };
        let scap = parser.take_until_or_end(0x2C);
        parser.consume_sep();
        let hour = match parse_uint_text(hcap, 255) {
            Ok(v) => v,
            Err(e) => {
                return Err(e);
            },
        };
        let min = match parse_uint_text(mcap, 255) {
            Ok(v) => v,
            Err(e) => {
                return Err(e);
            },
        };
        let sec = match parse_decimal_text(scap) {
            Ok(v) => v,
            Err(e) => {
                return Err(e);
            },
        };
        Ok(Time { hour: hour as u8, min: min as u8, sec })
    }
}

} // verus!
