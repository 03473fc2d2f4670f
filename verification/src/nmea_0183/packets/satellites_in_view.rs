use vstd::prelude::*;

use crate::error::ParseError;
use crate::misc::parser::{spec_i8_field, spec_u16_field, spec_u8_field, Parser};

verus! {

/// A satellites-in-view report. One physical sentence carries at most four
/// satellites; a full view is split across `total_in_group` sentences
/// sharing the same `in_view` count.
#[derive(Debug, Clone, PartialEq, Eq)]
pub struct SatellitesInView {
    /// Total number of sentences of this type in this cycle.
    pub total_in_group: u8,
    /// The index of this sentence within the cycle.
    pub sentence_number: u8,
    /// Total number of satellites in view.
    pub in_view: u16,
    /// The satellites carried by this sentence.
    pub satellites: Vec<Satellite>,
}

/// One satellite of a satellites-in-view report. A field the sentence
/// leaves blank is absent.
#[derive(Debug, Clone, Copy, PartialEq, Eq, Structural)]
pub struct Satellite {
    /// The id of this satellite.
    pub id: u8,
    /// Elevation in degrees, -90 to 90.
    pub elevation: Option<i8>,
    /// Azimuth, degrees from true north, 000 to 359.
    pub azimuth: Option<u16>,
    /// Signal to noise ratio, 00-99 dB.
    pub snr: Option<u8>,
}

/// The optional value of a field decode: an error stands for a blank field.
pub open spec fn spec_opt_i8(r: Result<i8, ParseError>) -> Option<i8> {
    match r {
        Ok(v) => Some(v),
        Err(_) => None,
    }
}

/// The optional value of a field decode: an error stands for a blank field.
pub open spec fn spec_opt_u16(r: Result<u16, ParseError>) -> Option<u16> {
    match r {
        Ok(v) => Some(v),
        Err(_) => None,
    }
}

/// The optional value of a field decode: an error stands for a blank field.
pub open spec fn spec_opt_u8(r: Result<u8, ParseError>) -> Option<u8> {
    match r {
        Ok(v) => Some(v),
        Err(_) => None,
    }
}

/// The outcome and final position of decoding one satellite at `i`: a
/// required id, then optional elevation, azimuth and signal-to-noise
/// fields. A missing id leaves the record incomplete, which ends the
/// enclosing sentence's satellite list.
pub open spec fn spec_satellite_field(s: Seq<u8>, i: int) -> (Result<Satellite, ParseError>, int) {
    let (id_r, i1) = spec_u8_field(s, i, true);
    match id_r {
        Err(_) => (Err(ParseError::Incomplete), i1),
        Ok(id) => {
            let (e_r, i2) = spec_i8_field(s, i1, true);
            let (a_r, i3) = spec_u16_field(s, i2, true);
            let (snr_r, i4) = spec_u8_field(s, i3, true);
            (
                Ok(
                    Satellite {
                        id,
                        elevation: spec_opt_i8(e_r),
                        azimuth: spec_opt_u16(a_r),
                        snr: spec_opt_u8(snr_r),
                    },
                ),
                i4,
            )
        },
    }
}

/// The outcome and final position of decoding up to `k` further satellites
/// at `i`: decoding stops before the first record whose id is missing.
pub open spec fn spec_satellites(s: Seq<u8>, i: int, k: nat) -> (Result<
    Seq<Satellite>,
    ParseError,
>, int)
    decreases k,
{
    if k == 0 {
        (Ok(Seq::<Satellite>::empty()), i)
    } else {
        let (sat_r, i1) = spec_satellite_field(s, i);
        match sat_r {
            Err(e) => {
                if e == ParseError::Incomplete {
                    (Ok(Seq::<Satellite>::empty()), i1)
                } else {
                    (Err(e), i1)
                }
            },
            Ok(sat) => {
                let (rest_r, i2) = spec_satellites(s, i1, (k - 1) as nat);
                match rest_r {
                    Err(e) => (Err(e), i2),
                    Ok(rest) => (Ok(seq![sat] + rest), i2),
                }
            },
        }
    }
}

/// The result of decoding the field list of a satellites-in-view sentence:
/// the group bookkeeping, then as many satellites as stand before the end
/// of the input, at most four. Trailing input after the fourth satellite is
/// not examined.
pub open spec fn spec_parse_satellites_in_view(s: Seq<u8>) -> Result<
    (u8, u8, u16, Seq<Satellite>),
    ParseError,
> {
    let (total_r, i1) = spec_u8_field(s, 0, true);
    match total_r {
        Err(e) => Err(e),
        Ok(total_in_group) => {
            let (number_r, i2) = spec_u8_field(s, i1, true);
            match number_r {
                Err(e) => Err(e),
                Ok(sentence_number) => {
                    let (view_r, i3) = spec_u16_field(s, i2, true);
                    match view_r {
                        Err(e) => Err(e),
                        Ok(in_view) => {
                            let (sats_r, _i4) = spec_satellites(s, i3, 4);
                            match sats_r {
                                Err(e) => Err(e),
                                Ok(satellites) => Ok(
                                    (total_in_group, sentence_number, in_view, satellites),
                                ),
                            }
                        },
                    }
                },
            }
        },
    }
}

impl Satellite {
    /// Decodes one satellite record.
    pub fn parse(parser: &mut Parser) -> (r: Result<Satellite, ParseError>)
        requires
            old(parser).wf(),
            // The record decoder is only meaningful under the field
            // separator configuration its sentence sets up.
            old(parser).sep() is Some,
        ensures
            final(parser).wf(),
            final(parser).same_stream(*old(parser)),
            ({
                let (res, ni) = spec_satellite_field(old(parser).bytes(), old(parser).pos());
                r == res && final(parser).pos() == ni
            }),
    {
        let id = match parser.parse_u8() {
            Ok(v) => v,
            Err(_) => {
                return Err(ParseError::Incomplete);
            },
        };
        let elevation = parser.parse_i8().ok();
        let azimuth = parser.parse_u16().ok();
        let snr = parser.parse_u8().ok();

        Ok(Satellite { id, elevation, azimuth, snr })
    }
}

impl SatellitesInView {
    /// Decodes the field list of a satellites-in-view sentence.
    pub fn parse(sentence: &[u8]) -> (r: Result<SatellitesInView, ParseError>)
        ensures
            match (r, spec_parse_satellites_in_view(sentence@)) {
                (Ok(v), Ok(sv)) => v.total_in_group == sv.0 && v.sentence_number == sv.1
                    && v.in_view == sv.2 && v.satellites@ == sv.3,
                (Err(e), Err(se)) => e == se,
                _ => false,
            },
    {
        let ghost s = sentence@;
        let mut parser = Parser::new(sentence).take_on_parse(0x2C);

        let total_in_group = match parser.parse_u8() {
            Ok(v) => v,
            Err(e) => {
                return Err(e);
            },
        };
        let sentence_number = match parser.parse_u8() {
            Ok(v) => v,
            Err(e) => {
                return Err(e);
            },
        };
        let in_view = match parser.parse_u16() {
            Ok(v) => v,
            Err(e) => {
                return Err(e);
            },
        };

        let ghost i3 = parser.pos();
        let mut satellites: Vec<Satellite> = Vec::new();
        let mut k: usize = 0;
        let mut done: bool = false;
        while k < 4 && !done
            invariant
                0 <= k <= 4,
                parser.wf(),
                parser.bytes() == s,
                parser.sep() == Some(0x2Cu8),
                ({
                    let (whole_r, whole_i) = spec_satellites(s, i3, 4);
                    if done {
                        whole_r == Ok::<Seq<Satellite>, ParseError>(satellites@)
                    } else {
                        let (rest_r, rest_i) = spec_satellites(s, parser.pos(), (4 - k) as nat);
                        match rest_r {
                            Ok(rest) => whole_r == Ok::<Seq<Satellite>, ParseError>(
                                satellites@ + rest,
                            ) && whole_i == rest_i,
                            Err(e) => whole_r == Err::<Seq<Satellite>, ParseError>(e) && whole_i
                                == rest_i,
                        }
                    }
                }),
            decreases 4 - k,
        {
            let ghost pre_pos = parser.pos();
            let ghost pre_sats = satellites@;
            let ghost n = (4 - k) as nat;
            match Satellite::parse(&mut parser) {
                Ok(satellite) => {
                    satellites.push(satellite);
                    proof {
                        let (sat_r, i1) = spec_satellite_field(s, pre_pos);
                        assert(sat_r == Ok::<Satellite, ParseError>(satellite));
                        assert(i1 == parser.pos());
                        let (rest_r, rest_i) = spec_satellites(s, i1, (n - 1) as nat);
                        assert(n != 0);
                        assert(spec_satellites(s, pre_pos, n) == (match rest_r {
                            Ok(rest) => (
                                Ok::<Seq<Satellite>, ParseError>(seq![satellite] + rest),
                                rest_i,
                            ),
                            Err(e) => (Err::<Seq<Satellite>, ParseError>(e), rest_i),
                        }));
                        assert((n - 1) as nat == (4 - (k + 1)) as nat);
                        if rest_r is Ok {
                            assert(satellites@ + rest_r->Ok_0 =~= pre_sats + (seq![
                                satellite,
                            ] + rest_r->Ok_0));
                        }
                    }
                },
                Err(e) => {
                    if matches!(e, ParseError::Incomplete) {
                        proof {
                            let (sat_r, i1) = spec_satellite_field(s, pre_pos);
                            assert(sat_r == Err::<Satellite, ParseError>(ParseError::Incomplete));
                            assert(n != 0);
                            assert(spec_satellites(s, pre_pos, n) == (
                                Ok::<Seq<Satellite>, ParseError>(Seq::<Satellite>::empty()),
                                i1,
                            ));
                            assert(satellites@ + Seq::<Satellite>::empty() =~= satellites@);
                        }
                        done = true;
                    } else {
                        return Err(e);
                    }
                },
            }
            k = k + 1;
        }
        proof {
            if !done {
                assert(satellites@ + Seq::<Satellite>::empty() =~= satellites@);
            }
        }

        Ok(SatellitesInView { total_in_group, sentence_number, in_view, satellites })
    }
}

} // verus!
