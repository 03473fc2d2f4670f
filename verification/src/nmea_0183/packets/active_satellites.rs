use vstd::prelude::*;

use crate::error::ParseError;
use crate::misc::decimal::{spec_decimal_field, Decimal};
use crate::misc::parser::{is_digit, is_digit_byte, spec_skip_sep, spec_u8_field, Parser};

verus! {

/// An active-satellite and dilution-of-precision report.
#[derive(Debug, Clone, PartialEq, Eq)]
pub struct ActiveSatellites {
    /// Current selection mode.
    pub selection: SelectionMode,
    /// Current fix mode.
    pub fix: Fix,
    /// IDs of the satellites used for the fix, up to twelve.
    pub satellites: Vec<SatelliteId>,
    /// Position (3D) dilution of precision.
    pub pdop: Decimal,
    /// Horizontal dilution of precision.
    pub hdop: Decimal,
    /// Vertical dilution of precision.
    pub vdop: Decimal,
}

/// The id of one satellite used for a fix.
#[derive(Debug, Clone, Copy, PartialEq, Eq, Structural)]
pub struct SatelliteId(pub u8);

/// How the receiver chooses between fix modes.
#[derive(Debug, Clone, Copy, PartialEq, Eq, Structural)]
pub enum SelectionMode {
    /// Forced to operate in 2D or 3D mode.
    Manual,
    /// Allowed to automatically switch 2D/3D.
    Automatic,
}

/// The kind of fix the receiver holds.
#[derive(Debug, Clone, Copy, PartialEq, Eq, Structural)]
pub enum Fix {
    /// No fix available.
    NoFix,
    /// 2D fix.
    Fix2D,
    /// 3D fix.
    Fix3D,
}

/// The character-to-mode table of the selection mode field.
pub open spec fn spec_selection_from_char(c: char) -> Option<SelectionMode> {
    match c {
        'A' => Some(SelectionMode::Automatic),
        'M' => Some(SelectionMode::Manual),
        _ => None,
    }
}

/// The outcome and final position of decoding a selection mode field at
/// `i`.
pub open spec fn spec_selection_field(s: Seq<u8>, i: int, has_sep: bool) -> (Result<
    SelectionMode,
    ParseError,
>, int) {
    if i >= s.len() {
        (Err(ParseError::Incomplete), i)
    } else {
        let c = s[i] as char;
        let ni = spec_skip_sep(s, i + 1, has_sep);
        match spec_selection_from_char(c) {
            Some(m) => (Ok(m), ni),
            None => (Err(ParseError::UnexpectedChar(c)), ni),
        }
    }
}

/// The character-to-mode table of the fix mode field.
pub open spec fn spec_fix_from_char(c: char) -> Option<Fix> {
    match c {
        '1' => Some(Fix::NoFix),
        '2' => Some(Fix::Fix2D),
        '3' => Some(Fix::Fix3D),
        _ => None,
    }
}

/// The outcome and final position of decoding a fix mode field at `i`.
pub open spec fn spec_fix_field(s: Seq<u8>, i: int, has_sep: bool) -> (Result<Fix, ParseError>, int) {
    if i >= s.len() {
        (Err(ParseError::Incomplete), i)
    } else {
        let c = s[i] as char;
        let ni = spec_skip_sep(s, i + 1, has_sep);
        match spec_fix_from_char(c) {
            Some(m) => (Ok(m), ni),
            None => (Err(ParseError::UnexpectedChar(c)), ni),
        }
    }
}

/// The outcome and final position of walking `k` further satellite-id
/// slots at `i`: a slot that opens with a digit is decoded as an id, any
/// other slot must hold a bare separator and stands for a blank slot.
pub open spec fn spec_gsa_slots(s: Seq<u8>, i: int, k: nat) -> (Result<
    Seq<SatelliteId>,
    ParseError,
>, int)
    decreases k,
{
    if k == 0 {
        (Ok(Seq::<SatelliteId>::empty()), i)
    } else if i < s.len() && is_digit(s[i]) {
        let (id_r, i1) = spec_u8_field(s, i, true);
        match id_r {
            Err(e) => (Err(e), i1),
            Ok(id) => {
                let (rest_r, i2) = spec_gsa_slots(s, i1, (k - 1) as nat);
                match rest_r {
                    Err(e) => (Err(e), i2),
                    Ok(rest) => (Ok(seq![SatelliteId(id)] + rest), i2),
                }
            },
        }
    } else {
        if i >= s.len() {
            (Err(ParseError::Incomplete), i)
        } else if s[i] == 0x2C {
            spec_gsa_slots(s, i + 1, (k - 1) as nat)
        } else {
            (Err(ParseError::UnexpectedChar(0x2C as char)), i + 1)
        }
    }
}

/// The result of decoding the field list of an active-satellite sentence:
/// the selection and fix modes, twelve satellite-id slots of which any may
/// be blank, and the three dilution-of-precision figures, with nothing
/// allowed to remain.
pub open spec fn spec_parse_active_satellites(s: Seq<u8>) -> Result<
    (SelectionMode, Fix, Seq<SatelliteId>, Decimal, Decimal, Decimal),
    ParseError,
> {
    let (sel_r, i1) = spec_selection_field(s, 0, true);
    match sel_r {
        Err(e) => Err(e),
        Ok(selection) => {
            let (fix_r, i2) = spec_fix_field(s, i1, true);
            match fix_r {
                Err(e) => Err(e),
                Ok(fix) => {
                    let (ids_r, i3) = spec_gsa_slots(s, i2, 12);
                    match ids_r {
                        Err(e) => Err(e),
                        Ok(satellites) => {
                            let (pdop_r, i4) = spec_decimal_field(s, i3, true);
                            match pdop_r {
                                Err(e) => Err(e),
                                Ok(pdop) => {
                                    let (hdop_r, i5) = spec_decimal_field(s, i4, true);
                                    match hdop_r {
                                        Err(e) => Err(e),
                                        Ok(hdop) => {
                                            let (vdop_r, i6) = spec_decimal_field(s, i5, true);
                                            match vdop_r {
                                                Err(e) => Err(e),
                                                Ok(vdop) => {
                                                    if i6 == s.len() {
                                                        Ok(
                                                            (
                                                                selection,
                                                                fix,
                                                                satellites,
                                                                pdop,
                                                                hdop,
                                                                vdop,
                                                            ),
                                                        )
                                                    } else {
                                                        Err(ParseError::RemainingData)
                                                    }
                                                },
                                            }
                                        },
                                    }
                                },
                            }
                        },
                    }
                },
            }
        },
    }
}

impl SelectionMode {
    /// Decodes a selection mode field.
    pub fn parse(parser: &mut Parser) -> (r: Result<SelectionMode, ParseError>)
        requires
            old(parser).wf(),
        ensures
            final(parser).wf(),
            final(parser).same_stream(*old(parser)),
            ({
                let (res, ni) = spec_selection_field(
                    old(parser).bytes(),
                    old(parser).pos(),
                    old(parser).sep() is Some,
                );
                r == res && final(parser).pos() == ni
            }),
    {
        let out = match parser.next() {
            Ok(b) => {
                match b as char {
                    'A' => Ok(SelectionMode::Automatic),
                    'M' => Ok(SelectionMode::Manual),
                    _ => Err(ParseError::UnexpectedChar(b as char)),
                }
            },
            Err(e) => Err(e),
        };
        parser.consume_sep();
        out
    }
}

impl Fix {
    /// Decodes a fix mode field.
    pub fn parse(parser: &mut Parser) -> (r: Result<Fix, ParseError>)
        requires
            old(parser).wf(),
        ensures
            final(parser).wf(),
            final(parser).same_stream(*old(parser)),
            ({
                let (res, ni) = spec_fix_field(
                    old(parser).bytes(),
                    old(parser).pos(),
                    old(parser).sep() is Some,
                );
                r == res && final(parser).pos() == ni
            }),
    {
        let out = match parser.next() {
            Ok(b) => {
                match b as char {
                    '1' => Ok(Fix::NoFix),
                    '2' => Ok(Fix::Fix2D),
                    '3' => Ok(Fix::Fix3D),
                    _ => Err(ParseError::UnexpectedChar(b as char)),
                }
            },
            Err(e) => Err(e),
        };
        parser.consume_sep();
        out
    }
}

impl ActiveSatellites {
    /// Decodes the field list of an active-satellite sentence.
    pub fn parse(sentence: &[u8]) -> (r: Result<ActiveSatellites, ParseError>)
        ensures
            match (r, spec_parse_active_satellites(sentence@)) {
                (Ok(v), Ok(sv)) => v.selection == sv.0 && v.fix == sv.1 && v.satellites@ == sv.2
                    && v.pdop == sv.3 && v.hdop == sv.4 && v.vdop == sv.5,
                (Err(e), Err(se)) => e == se,
                _ => false,
            },
    {
        let ghost s = sentence@;
        let mut parser = Parser::new(sentence).take_on_parse(0x2C);

        let selection = match SelectionMode::parse(&mut parser) {
            Ok(v) => v,
            Err(e) => {
                return Err(e);
            },
        };
        let fix = match Fix::parse(&mut parser) {
            Ok(v) => v,
            Err(e) => {
                return Err(e);
            },
        };

        let ghost i2 = parser.pos();
        let mut satellites: Vec<SatelliteId> = Vec::new();
        let mut k: usize = 0;
        while k < 12
            invariant
                0 <= k <= 12,
                parser.wf(),
                parser.bytes() == s,
                parser.sep() == Some(0x2Cu8),
                ({
                    let (whole_r, whole_i) = spec_gsa_slots(s, i2, 12);
                    let (rest_r, rest_i) = spec_gsa_slots(s, parser.pos(), (12 - k) as nat);
                    match rest_r {
                        Ok(rest) => whole_r == Ok::<Seq<SatelliteId>, ParseError>(
                            satellites@ + rest,
                        ) && whole_i == rest_i,
                        Err(e) => whole_r == Err::<Seq<SatelliteId>, ParseError>(e) && whole_i
                            == rest_i,
                    }
                }),
            decreases 12 - k,
        {
            let ghost pre_pos = parser.pos();
            let ghost pre_sats = satellites@;
            let ghost n = (12 - k) as nat;
            let open_digit = match parser.peek() {
                Some(b) => is_digit_byte(b),
                None => false,
            };
            if open_digit {
                match parser.parse_u8() {
                    Ok(id) => {
                        satellites.push(SatelliteId(id));
                        proof {
                            let (id_r, i1) = spec_u8_field(s, pre_pos, true);
                            assert(id_r == Ok::<u8, ParseError>(id));
                            assert(i1 == parser.pos());
                            let (rest_r, rest_i) = spec_gsa_slots(s, i1, (n - 1) as nat);
                            assert(n != 0);
                            assert(pre_pos < s.len() && is_digit(s[pre_pos]));
                            assert(spec_gsa_slots(s, pre_pos, n) == (match rest_r {
                                Ok(rest) => (
                                    Ok::<Seq<SatelliteId>, ParseError>(
                                        seq![SatelliteId(id)] + rest,
                                    ),
                                    rest_i,
                                ),
                                Err(e) => (Err::<Seq<SatelliteId>, ParseError>(e), rest_i),
                            }));
                            assert((n - 1) as nat == (12 - (k + 1)) as nat);
                            if rest_r is Ok {
                                assert(satellites@ + rest_r->Ok_0 =~= pre_sats + (seq![
                                    SatelliteId(id),
                                ] + rest_r->Ok_0));
                            }
                        }
                    },
                    Err(e) => {
                        return Err(e);
                    },
                }
            } else {
                match parser.expect(0x2C) {
                    Ok(_) => {},
                    Err(e) => {
                        return Err(e);
                    },
                }
            }
            k = k + 1;
        }
        proof {
            assert(satellites@ + Seq::<SatelliteId>::empty() =~= satellites@);
        }

        let pdop = match parser.parse_decimal() {
            Ok(v) => v,
            Err(e) => {
                return Err(e);
            },
        };
        let hdop = match parser.parse_decimal() {
            Ok(v) => v,
            Err(e) => {
                return Err(e);
            },
        };
        let vdop = match parser.parse_decimal() {
            Ok(v) => v,
            Err(e) => {
                return Err(e);
            },
        };
        match parser.assert_empty() {
            Ok(_) => {},
            Err(e) => {
                return Err(e);
            },
        }

        Ok(ActiveSatellites { selection, fix, satellites, pdop, hdop, vdop })
    }
}

} // verus!
