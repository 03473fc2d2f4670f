use vstd::prelude::*;

use crate::error::ParseError;
use crate::misc::decimal::{spec_decimal_field, Decimal};
use crate::misc::parser::Parser;
use crate::nmea_0183::faa_mode::{spec_faa_field, FaaMode};

verus! {

/// A track-made-good and ground-speed report. A field left empty decodes to
/// nothing, which is distinct from a field holding zero.
#[derive(Debug, Clone, Copy, PartialEq, Eq, Structural)]
pub struct GroundSpeed {
    /// Course over ground, true.
    pub course_true: Option<Decimal>,
    /// Course over ground, magnetic.
    pub course_magnetic: Option<Decimal>,
    /// Speed over ground, knots.
    pub speed_knots: Option<Decimal>,
    /// Speed over ground, kilometers per hour.
    pub speed_kph: Option<Decimal>,
    /// FAA mode.
    pub faa_mode: FaaMode,
}

/// The step after an optional numeric field of a ground-speed sentence: its
/// unit letter is consumed when present, and a separator byte must follow.
/// Yields the position after the separator, or the error of the original
/// cursor walk.
pub open spec fn spec_unit_step(s: Seq<u8>, i: int, unit: u8) -> (Result<(), ParseError>, int) {
    let j = if i < s.len() && s[i] == unit {
        i + 1
    } else {
        i
    };
    if j >= s.len() {
        (Err(ParseError::Incomplete), j)
    } else if s[j] == 0x2C {
        (Ok(()), j + 1)
    } else {
        (Err(ParseError::UnexpectedChar(0x2C as char)), j + 1)
    }
}

/// The result of decoding the field list of a ground-speed sentence: four
/// optional decimal fields, each with its unit letter and separator, then
/// the FAA mode, with nothing allowed to remain.
pub open spec fn spec_parse_ground_speed(s: Seq<u8>) -> Result<GroundSpeed, ParseError> {
    let (ct_r, i1) = spec_decimal_field(s, 0, true);
    let (u1_r, i2) = spec_unit_step(s, i1, 0x54);
    match u1_r {
        Err(e) => Err(e),
        Ok(_) => {
            let (cm_r, i3) = spec_decimal_field(s, i2, true);
            let (u2_r, i4) = spec_unit_step(s, i3, 0x4D);
            match u2_r {
                Err(e) => Err(e),
                Ok(_) => {
                    let (kn_r, i5) = spec_decimal_field(s, i4, true);
                    let (u3_r, i6) = spec_unit_step(s, i5, 0x4E);
                    match u3_r {
                        Err(e) => Err(e),
                        Ok(_) => {
                            let (kph_r, i7) = spec_decimal_field(s, i6, true);
                            let (u4_r, i8) = spec_unit_step(s, i7, 0x4B);
                            match u4_r {
                                Err(e) => Err(e),
                                Ok(_) => {
                                    let (mode_r, i9) = spec_faa_field(s, i8, true);
                                    match mode_r {
                                        Err(e) => Err(e),
                                        Ok(faa_mode) => {
                                            if i9 == s.len() {
                                                Ok(
                                                    GroundSpeed {
                                                        course_true: spec_ok_of(ct_r),
                                                        course_magnetic: spec_ok_of(cm_r),
                                                        speed_knots: spec_ok_of(kn_r),
                                                        speed_kph: spec_ok_of(kph_r),
                                                        faa_mode,
                                                    },
                                                )
                                            } else {
                                                Err(ParseError::RemainingData)
                                            }
                                        },
                                    }
                                },
                            }
                        },
                    }
                },
            }
        },
    }
}

/// The optional value of a field decode: an error stands for an empty or
/// unreadable field.
pub open spec fn spec_ok_of(r: Result<Decimal, ParseError>) -> Option<Decimal> {
    match r {
        Ok(v) => Some(v),
        Err(_) => None,
    }
}

impl GroundSpeed {
    /// Decodes the field list of a ground-speed sentence.
    pub fn parse(sentence: &[u8]) -> (r: Result<GroundSpeed, ParseError>)
        ensures
            r == spec_parse_ground_speed(sentence@),
    {
        let mut parser = Parser::new(sentence).take_on_parse(0x2C);

        let course_true = parser.parse_decimal().ok();
        parser.skip_if(0x54);
        match parser.expect(0x2C) {
            Ok(_) => {},
            Err(e) => {
                return Err(e);
            },
        }
        let course_magnetic = parser.parse_decimal().ok();
        parser.skip_if(0x4D);
        match parser.expect(0x2C) {
            Ok(_) => {},
            Err(e) => {
                return Err(e);
            },
        }
        let speed_knots = parser.parse_decimal().ok();
        parser.skip_if(0x4E);
        match parser.expect(0x2C) {
            Ok(_) => {},
            Err(e) => {
                return Err(e);
            },
        }
        let speed_kph = parser.parse_decimal().ok();
        parser.skip_if(0x4B);
        match parser.expect(0x2C) {
            Ok(_) => {},
            Err(e) => {
                return Err(e);
            },
        }
        let faa_mode = match FaaMode::parse(&mut parser) {
            Ok(v) => v,
            Err(e) => {
                return Err(e);
            },
        };
        match parser.assert_empty() {
            Ok(_) => {},
            Err(e) => {
                return Err(e);
            },
        }

        Ok(GroundSpeed { course_true, course_magnetic, speed_knots, speed_kph, faa_mode })
    }
}

} // verus!
