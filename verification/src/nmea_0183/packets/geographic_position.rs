use vstd::prelude::*;

use crate::error::ParseError;
use crate::misc::parser::{spec_skip_sep, Parser};
use crate::nmea_0183::coordinate::{spec_coordinate_field, Coordinate};
use crate::nmea_0183::faa_mode::{spec_faa_field, FaaMode};
use crate::nmea_0183::time::{spec_time_field, Time};

verus! {

/// A position-fix report: the `ddmm.mm,a,dddmm.mm,a,hhmmss.ss,a,m` field
/// layout.
#[derive(Debug, Clone, Copy, PartialEq, Eq, Structural)]
pub struct GeographicPosition {
    pub latitude: Coordinate,
    pub longitude: Coordinate,
    pub time: Time,
    pub status: Status,
    pub mode: FaaMode,
}

/// Whether the receiver holds the reported data for valid.
#[derive(Debug, Clone, Copy, PartialEq, Eq, Structural)]
pub enum Status {
    DataValid,
    DataInvalid,
}

/// The character-to-status table of the status field.
pub open spec fn spec_status_from_char(c: char) -> Option<Status> {
    match c {
        'A' => Some(Status::DataValid),
        'V' => Some(Status::DataInvalid),
        _ => None,
    }
}

/// The outcome and final position of decoding a status field at `i`.
pub open spec fn spec_status_field(s: Seq<u8>, i: int, has_sep: bool) -> (Result<
    Status,
    ParseError,
>, int) {
    if i >= s.len() {
        (Err(ParseError::Incomplete), i)
    } else {
        let c = s[i] as char;
        let ni = spec_skip_sep(s, i + 1, has_sep);
        match spec_status_from_char(c) {
            Some(m) => (Ok(m), ni),
            None => (Err(ParseError::UnexpectedChar(c)), ni),
        }
    }
}

impl Status {
    /// Decodes a status field.
    pub fn parse(parser: &mut Parser) -> (r: Result<Status, ParseError>)
        requires
            old(parser).wf(),
        ensures
            final(parser).wf(),
            final(parser).same_stream(*old(parser)),
            ({
                let (res, ni) = spec_status_field(
                    old(parser).bytes(),
                    old(parser).pos(),
                    old(parser).sep() is Some,
                );
                r == res && final(parser).pos() == ni
            }),
    {
        let out = match parser.next() {
            Ok(b) => {
                match b as char {
                    'A' => Ok(Status::DataValid),
                    'V' => Ok(Status::DataInvalid),
                    _ => Err(ParseError::UnexpectedChar(b as char)),
                }
            },
            Err(e) => Err(e),
        };
        parser.consume_sep();
        out
    }
}

/// The result of decoding the field list of a position-fix sentence:
/// latitude, longitude, time, status and FAA mode in turn, with nothing
/// allowed to remain.
pub open spec fn spec_parse_geographic_position(s: Seq<u8>) -> Result<
    GeographicPosition,
    ParseError,
> {
    let (lat_r, i1) = spec_coordinate_field(s, 0, true);
    match lat_r {
        Err(e) => Err(e),
        Ok(latitude) => {
            let (lon_r, i2) = spec_coordinate_field(s, i1, true);
            match lon_r {
                Err(e) => Err(e),
                Ok(longitude) => {
                    let (time_r, i3) = spec_time_field(s, i2, true);
                    match time_r {
                        Err(e) => Err(e),
                        Ok(time) => {
                            let (status_r, i4) = spec_status_field(s, i3, true);
                            match status_r {
                                Err(e) => Err(e),
                                Ok(status) => {
                                    let (mode_r, i5) = spec_faa_field(s, i4, true);
                                    match mode_r {
                                        Err(e) => Err(e),
                                        Ok(mode) => {
                                            if i5 == s.len() {
                                                Ok(
                                                    GeographicPosition {
                                                        latitude,
                                                        longitude,
                                                        time,
                                                        status,
                                                        mode,
                                                    },
                                                )
                                            } else {
                                                Err(ParseError::RemainingData)
                                            }
                                        },
                                    }
                                },
                            }
                        },
                    }
                },
            }
        },
    }
}

impl GeographicPosition {
    /// Decodes the field list of a position-fix sentence.
    pub fn parse(sentence: &[u8]) -> (r: Result<GeographicPosition, ParseError>)
        ensures
            r == spec_parse_geographic_position(sentence@),
    {
        let mut parser = Parser::new(sentence).take_on_parse(0x2C);
        let latitude = match Coordinate::parse(&mut parser) {
            Ok(v) => v,
            Err(e) => {
                return Err(e);
            },
        };
        let longitude = match Coordinate::parse(&mut parser) {
            Ok(v) => v,
            Err(e) => {
                return Err(e);
            },
        };
        let time = match Time::parse(&mut parser) {
            Ok(v) => v,
            Err(e) => {
                return Err(e);
            },
        };
        let status = match Status::parse(&mut parser) {
            Ok(v) => v,
            Err(e) => {
                return Err(e);
            },
        };
        let mode = match FaaMode::parse(&mut parser) {
            Ok(v) => v,
            Err(e) => {
                return Err(e);
            },
        };
        match parser.assert_empty() {
            Ok(_) => {},
            Err(e) => {
                return Err(e);
            },
        }

        Ok(GeographicPosition { latitude, longitude, time, status, mode })
    }
}

} // verus!
