use vstd::prelude::*;

pub mod location;
pub mod satellites;

use crate::error::ParseError;
use crate::nmea_0183::stores::location::Location;
use crate::nmea_0183::stores::satellites::{spec_gsv_step, Satellites};
use crate::nmea_0183::{
    spec_code_is, spec_frame_body, spec_frame_code, spec_frame_error, Message, Sentence,
};
use crate::nmea_0183::packets::active_satellites::spec_parse_active_satellites;
use crate::nmea_0183::packets::geographic_position::spec_parse_geographic_position;
use crate::nmea_0183::packets::ground_speed::spec_parse_ground_speed;
use crate::nmea_0183::packets::satellites_in_view::spec_parse_satellites_in_view;
use crate::nmea_0183::packets::text::spec_parse_text;

verus! {

/// The aggregates a decoding session keeps: every successfully decoded
/// sentence is folded into them, in arrival order.
#[derive(Debug, Clone, PartialEq, Eq)]
pub struct Store {
    pub satellites: Satellites,
    pub location: Location,
}

impl Store {
    pub fn new() -> (r: Store)
        ensures
            r.location == Location::spec_initial(),
            r.satellites.in_view == 0,
            r.satellites.satellites@ == Seq::<
                crate::nmea_0183::packets::satellites_in_view::Satellite,
            >::empty(),
            r.satellites.avg_sdr_history@ == Seq::<
                crate::nmea_0183::stores::satellites::SnrAverage,
            >::empty(),
            r.satellites.pending() == Seq::<
                crate::nmea_0183::packets::satellites_in_view::Satellite,
            >::empty(),
            r.satellites.last_seen_number == 0,
    {
        Store { satellites: Satellites::new(), location: Location::new() }
    }

    /// Folds one decoded sentence into both aggregates.
    pub fn handle(&mut self, sentence: Sentence)
        ensures
            match sentence {
                Sentence::Gsv(v) => spec_gsv_step(
                    old(self).satellites,
                    final(self).satellites,
                    v.total_in_group,
                    v.sentence_number,
                    v.in_view,
                    v.satellites@,
                ),
                _ => final(self).satellites == old(self).satellites,
            },
            final(self).location == old(self).location.spec_after_sentence(sentence),
    {
        self.satellites.handle(&sentence);
        self.location.handle(&sentence);
    }

    /// Decodes one line and folds its sentence into the aggregates. A line
    /// that fails to decode, for whatever reason, leaves the store exactly
    /// as it was: in particular a checksum mismatch and an unrecognized
    /// sentence-type code never mutate it.
    pub fn handle_line(&mut self, line: &[u8]) -> (r: Result<(), ParseError>)
        ensures
            r matches Err(_) ==> *final(self) == *old(self),
            ({
                let s = line@;
                match spec_frame_error(s) {
                    Some(e) => r == Err::<(), ParseError>(e),
                    None => {
                        let code = spec_frame_code(s);
                        let body = spec_frame_body(s);
                        if spec_code_is(code, 0x47, 0x4C, 0x4C) {
                            match spec_parse_geographic_position(body) {
                                Ok(g) => {
                                    &&& r == Ok::<(), ParseError>(())
                                    &&& final(self).location == old(self).location.spec_after_position(g)
                                    &&& final(self).satellites == old(self).satellites
                                },
                                Err(e) => r == Err::<(), ParseError>(e),
                            }
                        } else if spec_code_is(code, 0x47, 0x53, 0x56) {
                            match spec_parse_satellites_in_view(body) {
                                Ok(v) => {
                                    &&& r == Ok::<(), ParseError>(())
                                    &&& spec_gsv_step(
                                        old(self).satellites,
                                        final(self).satellites,
                                        v.0,
                                        v.1,
                                        v.2,
                                        v.3,
                                    )
                                    &&& final(self).location == old(self).location
                                },
                                Err(e) => r == Err::<(), ParseError>(e),
                            }
                        } else if spec_code_is(code, 0x47, 0x53, 0x41) {
                            match spec_parse_active_satellites(body) {
                                Ok(v) => {
                                    &&& r == Ok::<(), ParseError>(())
                                    &&& final(self).location == old(self).location.spec_after_active_satellites(v.1, v.3, v.4, v.5)
                                    &&& final(self).satellites == old(self).satellites
                                },
                                Err(e) => r == Err::<(), ParseError>(e),
                            }
                        } else if spec_code_is(code, 0x56, 0x54, 0x47) {
                            match spec_parse_ground_speed(body) {
                                Ok(_) => r == Ok::<(), ParseError>(()) && *final(self) == *old(self),
                                Err(e) => r == Err::<(), ParseError>(e),
                            }
                        } else if spec_code_is(code, 0x54, 0x58, 0x54) {
                            match spec_parse_text(body) {
                                Ok(_) => r == Ok::<(), ParseError>(()) && *final(self) == *old(self),
                                Err(e) => r == Err::<(), ParseError>(e),
                            }
                        } else {
                            r matches Err(e) && (e matches ParseError::UnknownType(t) && t@
                                == code)
                        }
                    },
                }
            }),
    {
        match Message::parse(line) {
            Ok(msg) => {
                self.handle(msg.message);
                Ok(())
            },
            Err(e) => Err(e),
        }
    }
}

} // verus!
