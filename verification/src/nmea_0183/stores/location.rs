use vstd::prelude::*;

use crate::misc::decimal::Decimal;
use crate::nmea_0183::coordinate::Coordinate;
use crate::nmea_0183::packets::active_satellites::Fix;
use crate::nmea_0183::packets::geographic_position::{GeographicPosition, Status};
use crate::nmea_0183::time::Time;
use crate::nmea_0183::Sentence;

verus! {

/// The latest-known position snapshot, updated field-group-wise: a
/// position-fix sentence supplies the position fields, an active-satellite
/// sentence supplies the fix and dilution fields, and the fields a sentence
/// does not cover keep their prior value.
#[derive(Debug, Clone, Copy, PartialEq, Eq)]
pub struct Location {
    pub latitude: Coordinate,
    pub longitude: Coordinate,
    pub time: Time,
    pub status: Status,
    pub fix: Fix,
    pub pdop: Decimal,
    pub hdop: Decimal,
    pub vdop: Decimal,
}

impl Location {
    /// The state before any sentence has been applied.
    pub open spec fn spec_initial() -> Location {
        Location {
            latitude: Coordinate::spec_zero(),
            longitude: Coordinate::spec_zero(),
            time: Time::spec_default(),
            status: Status::DataInvalid,
            fix: Fix::NoFix,
            pdop: Decimal::spec_zero(),
            hdop: Decimal::spec_zero(),
            vdop: Decimal::spec_zero(),
        }
    }

    /// The snapshot after a position fix: the position field group is
    /// replaced, the fix and dilution fields keep their value.
    pub open spec fn spec_after_position(self, g: GeographicPosition) -> Location {
        Location {
            latitude: g.latitude,
            longitude: g.longitude,
            time: g.time,
            status: g.status,
            fix: self.fix,
            pdop: self.pdop,
            hdop: self.hdop,
            vdop: self.vdop,
        }
    }

    /// The snapshot after an active-satellite report: the fix and dilution
    /// field group is replaced, the position fields keep their value.
    pub open spec fn spec_after_active_satellites(
        self,
        fix: Fix,
        pdop: Decimal,
        hdop: Decimal,
        vdop: Decimal,
    ) -> Location {
        Location {
            latitude: self.latitude,
            longitude: self.longitude,
            time: self.time,
            status: self.status,
            fix,
            pdop,
            hdop,
            vdop,
        }
    }

    /// The snapshot after one decoded sentence: each sentence type
    /// replaces its field group and no other.
    pub open spec fn spec_after_sentence(self, sentence: Sentence) -> Location {
        match sentence {
            Sentence::Gll(g) => self.spec_after_position(g),
            Sentence::Gsa(a) => self.spec_after_active_satellites(a.fix, a.pdop, a.hdop, a.vdop),
            _ => self,
        }
    }

    pub fn new() -> (r: Location)
        ensures
            r == Location::spec_initial(),
    {
        Location {
            latitude: Coordinate::new(),
            longitude: Coordinate::new(),
            time: Time::new(),
            status: Status::DataInvalid,
            fix: Fix::NoFix,
            pdop: Decimal::zero(),
            hdop: Decimal::zero(),
            vdop: Decimal::zero(),
        }
    }

    /// Applies one decoded sentence to the snapshot.
    pub fn handle(&mut self, sentence: &Sentence)
        ensures
            match *sentence {
                Sentence::Gll(g) => *final(self) == old(self).spec_after_position(g),
                Sentence::Gsa(a) => *final(self) == old(self).spec_after_active_satellites(
                    a.fix,
                    a.pdop,
                    a.hdop,
                    a.vdop,
                ),
                _ => *final(self) == *old(self),
            },
    {
        match sentence {
            Sentence::Gll(sentence) => self.handle_pos_inner(sentence),
            Sentence::Gsa(sentence) => self.handle_active_satellites_fields(sentence),
            _ => {},
        }
    }

    fn handle_pos_inner(&mut self, sentence: &GeographicPosition)
        ensures
            *final(self) == old(self).spec_after_position(*sentence),
    {
        self.latitude = sentence.latitude;
        self.longitude = sentence.longitude;
        self.time = sentence.time;
        self.status = sentence.status;
    }

    fn handle_active_satellites_fields(
        &mut self,
        sentence: &crate::nmea_0183::packets::active_satellites::ActiveSatellites,
    )
        ensures
            *final(self) == old(self).spec_after_active_satellites(
                sentence.fix,
                sentence.pdop,
                sentence.hdop,
                sentence.vdop,
            ),
    {
        self.fix = sentence.fix;
        self.pdop = sentence.pdop;
        self.hdop = sentence.hdop;
        self.vdop = sentence.vdop;
    }
}

} // verus!
