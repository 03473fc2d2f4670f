use vstd::prelude::*;

use crate::error::ParseError;
use crate::misc::decimal::{parse_decimal_text, spec_decimal_text, Decimal};
use crate::misc::parser::{eq_pred, ne_pred, span_end, spec_skip_sep, Parser};

verus! {

/// A geographic coordinate, as the `ddmm.mm,d` field layout carries it:
/// whole degrees, decimal minutes, and whether the direction letter was
/// `S` or `W`. Positive is North and East.
#[derive(Debug, Clone, Copy, PartialEq, Eq, Structural)]
pub struct Coordinate {
    /// The direction letter was `S` or `W`: the whole coordinate is negated.
    pub negative: bool,
    /// The whole degrees: every digit before the last two digits of the
    /// value's integer part, so a three-digit longitude keeps all three.
    pub degrees: Decimal,
    /// The decimal minutes of arc, one sixtieth of a degree each: the last
    /// two integer digits of the value together with its fraction.
    pub minutes: Decimal,
}

impl Coordinate {
    /// The zero coordinate an empty field decodes to.
    pub open spec fn spec_zero() -> Coordinate {
        Coordinate { negative: false, degrees: Decimal::spec_zero(), minutes: Decimal::spec_zero() }
    }

    pub fn new() -> (r: Coordinate)
        ensures
            r == Coordinate::spec_zero(),
    {
        Coordinate { negative: false, degrees: Decimal::zero(), minutes: Decimal::zero() }
    }
}

/// Where a coordinate value text splits into degrees and minutes: two
/// digits before its decimal point (or its end, when it has no point), and
/// never before its start.
pub open spec fn spec_degree_split(v: Seq<u8>) -> int {
    let dot = span_end(v, 0, ne_pred(0x2E));
    if dot >= 2 {
        dot - 2
    } else {
        0
    }
}

/// The outcome and final position of decoding a coordinate field at `i`.
/// An empty field (a separator or the end of input) decodes to the zero
/// coordinate. Otherwise the zero padding is stripped and the value text
/// runs up to the separator: everything up to two digits before its
/// decimal point is the whole degrees (empty for a short value, standing
/// for zero), the rest is the minutes, and a direction letter of `N`, `S`,
/// `E` or `W` follows; then the separator step.
pub open spec fn spec_coordinate_field(s: Seq<u8>, i: int, has_sep: bool) -> (Result<
    Coordinate,
    ParseError,
>, int) {
    if i >= s.len() || s[i] == 0x2C {
        let j = if i < s.len() && s[i] == 0x2C {
            i + 1
        } else {
            i
        };
        (Ok(Coordinate::spec_zero()), spec_skip_sep(s, j, has_sep))
    } else {
        let z = span_end(s, i, eq_pred(0x30));
        let m = span_end(s, z, ne_pred(0x2C));
        if m >= s.len() {
            (Err(ParseError::Incomplete), spec_skip_sep(s, s.len() as int, has_sep))
        } else {
            let v = s.subrange(z, m);
            if m + 1 >= s.len() {
                (Err(ParseError::Incomplete), spec_skip_sep(s, m + 1, has_sep))
            } else {
                let dir = s[m + 1];
                let ni = spec_skip_sep(s, m + 2, has_sep);
                if dir != 0x4E && dir != 0x53 && dir != 0x45 && dir != 0x57 {
                    (Err(ParseError::UnexpectedChar(dir as char)), ni)
                } else {
                    let split = spec_degree_split(v);
                    let deg_r = if split == 0 {
                        Ok(Decimal::spec_zero())
                    } else {
                        spec_decimal_text(v.subrange(0, split))
                    };
                    match deg_r {
                        Err(e) => (Err(e), ni),
                        Ok(degrees) => match spec_decimal_text(v.subrange(split, v.len() as int)) {
                            Err(e) => (Err(e), ni),
                            Ok(minutes) => (
                                Ok(
                                    Coordinate {
                                        negative: dir == 0x53 || dir == 0x57,
                                        degrees,
                                        minutes,
                                    },
                                ),
                                ni,
                            ),
                        },
                    }
                }
            }
        }
    }
}

impl Coordinate {
    /// Decodes a coordinate field from the `ddmm.mm,d` layout.
    pub fn parse(parser: &mut Parser) -> (r: Result<Coordinate, ParseError>)
        requires
            old(parser).wf(),
        ensures
            final(parser).wf(),
            final(parser).same_stream(*old(parser)),
            ({
                let (res, ni) = spec_coordinate_field(
                    old(parser).bytes(),
                    old(parser).pos(),
                    old(parser).sep() is Some,
                );
                r == res && final(parser).pos() == ni
            }),
    {
        let empty = match parser.peek() {
            Some(b) => b == 0x2C,
            None => true,
        };
        if empty {
            parser.skip_if(0x2C);
            parser.consume_sep();
            return Ok(Coordinate::new());
        }

        parser.skip_while(0x30);
        let vcap = match parser.take_until(0x2C) {
            Ok(c) => c,
            Err(e) => {
                parser.consume_sep();
                return Err(e);
            },
        };
        let dir = match parser.next() {
            Ok(b) => b,
            Err(e) => {
                parser.consume_sep();
                return Err(e);
            },
        };
        parser.consume_sep();

        if dir != 0x4E && dir != 0x53 && dir != 0x45 && dir != 0x57 {
            return Err(ParseError::UnexpectedChar(dir as char));
        }

        // Find the decimal point of the value, or its end.
        let mut dot: usize = 0;
        while dot < vcap.len() && vcap[dot] != 0x2E
            invariant
                0 <= dot <= vcap@.len(),
                forall|j: int| 0 <= j < dot ==> #[trigger] vcap@[j] != 0x2E,
            decreases vcap@.len() - dot,
        {
            dot = dot + 1;
        }
        proof {
            crate::misc::parser::lemma_span_end_is(vcap@, 0, dot as int, ne_pred(0x2E));
        }
        let split: usize = if dot >= 2 {
            dot - 2
        } else {
            0
        };

        let degrees = if split == 0 {
            Decimal::zero()
        } else {
            match parse_decimal_text(vstd::slice::slice_subrange(vcap, 0, split)) {
                Ok(v) => v,
                Err(e) => {
                    return Err(e);
                },
            }
        };
        let minutes = match parse_decimal_text(
            vstd::slice::slice_subrange(vcap, split, vcap.len()),
        ) {
            Ok(v) => v,
            Err(e) => {
                return Err(e);
            },
        };
        Ok(Coordinate { negative: dir == 0x53 || dir == 0x57, degrees, minutes })
    }
}

} // verus!
