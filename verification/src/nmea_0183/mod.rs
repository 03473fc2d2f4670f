use vstd::prelude::*;

pub mod coordinate;
pub mod faa_mode;
pub mod packets;
pub mod stores;
pub mod time;

use crate::error::ParseError;
use crate::misc::parser::{hex_val, is_hex_digit};
use crate::nmea_0183::packets::active_satellites::{spec_parse_active_satellites, ActiveSatellites};
use crate::nmea_0183::packets::geographic_position::{
    spec_parse_geographic_position, GeographicPosition,
};
use crate::nmea_0183::packets::ground_speed::{spec_parse_ground_speed, GroundSpeed};
use crate::nmea_0183::packets::satellites_in_view::{
    spec_parse_satellites_in_view, SatellitesInView,
};
use crate::nmea_0183::packets::text::{spec_parse_text, Text};

verus! {

/// One successfully framed and decoded sentence.
#[derive(Debug, Clone, PartialEq, Eq)]
pub struct Message {
    /// The two character source of the message.
    /// `GP` is commonly used for a GPS.
    pub identifier: [u8; 2],
    /// The decoded sentence.
    pub message: Sentence,
}

/// The supported sentence types.
#[derive(Debug, Clone, PartialEq, Eq)]
pub enum Sentence {
    /// Recommended minimum navigation information; recognized by the
    /// standard but not decoded here.
    Rmc,
    /// Active satellites and dilution of precision.
    Gsa(ActiveSatellites),
    /// Satellites in view.
    Gsv(SatellitesInView),
    /// Geographic position.
    Gll(GeographicPosition),
    /// Track made good and ground speed.
    Vtg(GroundSpeed),
    /// Text for display.
    Txt(Text),
}

/// What one byte adds to the frame checksum: the bytes `$`, `I` and `*`
/// are left out of the XOR.
pub open spec fn spec_checksum_byte(b: u8) -> u8 {
    if b == 0x24 || b == 0x49 || b == 0x2A {
        0
    } else {
        b
    }
}

/// The frame checksum: the XOR of all bytes, leaving out `$`, `I` and `*`.
pub open spec fn spec_checksum(s: Seq<u8>) -> u8
    decreases s.len(),
{
    if s.len() == 0 {
        0
    } else {
        spec_checksum(s.drop_last()) ^ spec_checksum_byte(s.last())
    }
}

/// Computes the frame checksum of `sentence`.
pub fn checksum(sentence: &[u8]) -> (r: u8)
    ensures
        r == spec_checksum(sentence@),
{
    let ghost s = sentence@;
    let mut out: u8 = 0;
    let mut i: usize = 0;
    proof {
        assert(s.subrange(0, 0) =~= Seq::<u8>::empty());
    }
    while i < sentence.len()
        invariant
            0 <= i <= s.len(),
            out == spec_checksum(s.subrange(0, i as int)),
        decreases s.len() - i,
    {
        let b = sentence[i];
        proof {
            assert(s.subrange(0, i as int + 1).drop_last() =~= s.subrange(0, i as int));
            assert(s.subrange(0, i as int + 1).last() == s[i as int]);
        }
        let c = if b == 0x24 || b == 0x49 || b == 0x2A {
            0
        } else {
            b
        };
        out = out ^ c;
        i = i + 1;
    }
    proof {
        assert(s.subrange(0, s.len() as int) =~= s);
    }
    out
}

/// Updating one byte changes the checksum by the XOR of the old and new
/// contributions of that position.
proof fn lemma_checksum_update(s: Seq<u8>, p: int, x: u8)
    requires
        0 <= p < s.len(),
    ensures
        spec_checksum(s.update(p, x)) == spec_checksum(s) ^ spec_checksum_byte(s[p])
            ^ spec_checksum_byte(x),
    decreases s.len(),
{
    let t = s.update(p, x);
    let cd = spec_checksum(s.drop_last());
    let cb = spec_checksum_byte(s[p]);
    let cx = spec_checksum_byte(x);
    if p == s.len() - 1 {
        assert(t.drop_last() =~= s.drop_last());
        assert(t.last() == x);
        assert((cd ^ cb) ^ cb ^ cx == cd ^ cx) by (bit_vector);
    } else {
        lemma_checksum_update(s.drop_last(), p, x);
        assert(t.drop_last() =~= s.drop_last().update(p, x));
        assert(t.last() == s.last());
        let cl = spec_checksum_byte(s.last());
        assert((cd ^ cb ^ cx) ^ cl == ((cd ^ cl) ^ cb) ^ cx) by (bit_vector);
    }
}

/// Flipping a single bit of any byte of the covered span always changes the
/// checksum: a one-bit transmission error within the span can never leave
/// the sum unchanged, whether or not the flip moves a byte into or out of
/// the excluded set.
pub proof fn lemma_checksum_detects_bit_flip(s: Seq<u8>, p: int, k: u8)
    requires
        0 <= p < s.len(),
        k < 8,
    ensures
        spec_checksum(s.update(p, s[p] ^ (1u8 << k))) != spec_checksum(s),
{
    let b = s[p];
    let x = b ^ (1u8 << k);
    lemma_checksum_update(s, p, x);
    let cb = spec_checksum_byte(b);
    let cx = spec_checksum_byte(x);
    assert((if b == 0x24 || b == 0x49 || b == 0x2A {
        0u8
    } else {
        b
    }) ^ (if (b ^ (1u8 << k)) == 0x24 || (b ^ (1u8 << k)) == 0x49 || (b ^ (1u8 << k)) == 0x2A {
        0u8
    } else {
        (b ^ (1u8 << k))
    }) != 0) by (bit_vector)
        requires
            k < 8,
    ;
    assert(cb ^ cx != 0);
    let c = spec_checksum(s);
    assert((c ^ cb) ^ cx != c) by (bit_vector)
        requires
            cb ^ cx != 0,
    ;
}

/// A line whose envelope the frame decoder accepts is rejected again after
/// any single-bit flip strictly inside the covered span: the recomputed sum
/// no longer matches the stated checksum, whatever byte the flip produced.
pub proof fn lemma_frame_rejects_bit_flip(s: Seq<u8>, p: int, k: u8)
    requires
        spec_frame_error(s) is None,
        1 <= p < s.len() - 3,
        k < 8,
    ensures
        spec_frame_error(s.update(p, s[p] ^ (1u8 << k))) == Some(ParseError::InvalidChecksum),
{
    let t = s.update(p, s[p] ^ (1u8 << k));
    let span = s.subrange(0, s.len() - 3);
    assert(t[0] == s[0]);
    assert(t[t.len() - 2] == s[s.len() - 2]);
    assert(t[t.len() - 1] == s[s.len() - 1]);
    assert(t.subrange(0, t.len() - 3) =~= span.update(p, s[p] ^ (1u8 << k)));
    assert(span[p] == s[p]);
    lemma_checksum_detects_bit_flip(span, p, k);
}

/// The code bytes `s` spell the three characters `a`, `b`, `c`.
pub open spec fn spec_code_is(s: Seq<u8>, a: u8, b: u8, c: u8) -> bool {
    s.len() == 3 && s[0] == a && s[1] == b && s[2] == c
}

/// The framing outcome of one line, before any sentence is decoded: the
/// error of the envelope walk, or nothing when the envelope is sound.
/// The line must open with `$`, hold at least nine bytes, and close with
/// two hexadecimal digits matching the checksum of everything before the
/// `*` that precedes them.
pub open spec fn spec_frame_error(s: Seq<u8>) -> Option<ParseError> {
    if s.len() == 0 || s[0] != 0x24 {
        Some(ParseError::MissingPrefix)
    } else if s.len() < 9 {
        Some(ParseError::IncorrectLength)
    } else if !(is_hex_digit(s[s.len() - 2]) && is_hex_digit(s[s.len() - 1])) {
        Some(ParseError::InvalidNumber)
    } else if spec_checksum(s.subrange(0, s.len() - 3)) != hex_val(s[s.len() - 2]) * 16 + hex_val(
        s[s.len() - 1],
    ) {
        Some(ParseError::InvalidChecksum)
    } else {
        None
    }
}

/// The sentence-type code of a soundly framed line.
pub open spec fn spec_frame_code(s: Seq<u8>) -> Seq<u8> {
    s.subrange(3, 6)
}

/// The field list of a soundly framed line: everything between the comma
/// after the type code and the `*` before the checksum.
pub open spec fn spec_frame_body(s: Seq<u8>) -> Seq<u8> {
    if s.len() >= 10 {
        s.subrange(7, s.len() - 3)
    } else {
        Seq::<u8>::empty()
    }
}

impl Message {
    /// Decodes one line, with its trailing carriage return and line feed
    /// already stripped: validates the envelope and the checksum, then
    /// hands the field list to the decoder of the sentence-type code.
    #[verifier::rlimit(50)]
    pub fn parse(bytes: &[u8]) -> (r: Result<Message, ParseError>)
        ensures
            ({
                let s = bytes@;
                match spec_frame_error(s) {
                    Some(e) => r == Err::<Message, ParseError>(e),
                    None => {
                        let code = spec_frame_code(s);
                        let body = spec_frame_body(s);
                        if spec_code_is(code, 0x47, 0x4C, 0x4C) {
                            match spec_parse_geographic_position(body) {
                                Ok(g) => r matches Ok(m) && m.identifier@ == s.subrange(1, 3)
                                    && m.message == Sentence::Gll(g),
                                Err(e) => r == Err::<Message, ParseError>(e),
                            }
                        } else if spec_code_is(code, 0x47, 0x53, 0x56) {
                            match spec_parse_satellites_in_view(body) {
                                Ok(v) => r matches Ok(m) && m.identifier@ == s.subrange(1, 3)
                                    && (m.message matches Sentence::Gsv(g) && g.total_in_group
                                    == v.0 && g.sentence_number == v.1 && g.in_view == v.2
                                    && g.satellites@ == v.3),
                                Err(e) => r == Err::<Message, ParseError>(e),
                            }
                        } else if spec_code_is(code, 0x47, 0x53, 0x41) {
                            match spec_parse_active_satellites(body) {
                                Ok(v) => r matches Ok(m) && m.identifier@ == s.subrange(1, 3)
                                    && (m.message matches Sentence::Gsa(g) && g.selection == v.0
                                    && g.fix == v.1 && g.satellites@ == v.2 && g.pdop == v.3
                                    && g.hdop == v.4 && g.vdop == v.5),
                                Err(e) => r == Err::<Message, ParseError>(e),
                            }
                        } else if spec_code_is(code, 0x56, 0x54, 0x47) {
                            match spec_parse_ground_speed(body) {
                                Ok(g) => r matches Ok(m) && m.identifier@ == s.subrange(1, 3)
                                    && m.message == Sentence::Vtg(g),
                                Err(e) => r == Err::<Message, ParseError>(e),
                            }
                        } else if spec_code_is(code, 0x54, 0x58, 0x54) {
                            match spec_parse_text(body) {
                                Ok(v) => r matches Ok(m) && m.identifier@ == s.subrange(1, 3)
                                    && (m.message matches Sentence::Txt(t) && t.total_sentences
                                    == v.0 && t.sentence_number == v.1 && t.text_identifier == v.2
                                    && t.message@ == v.3),
                                Err(e) => r == Err::<Message, ParseError>(e),
                            }
                        } else {
                            r matches Err(e) && e matches ParseError::UnknownType(t) && t@ == code
                        }
                    },
                }
            }),
    {
        let ghost s = bytes@;
        if bytes.len() == 0 || bytes[0] != 0x24 {
            return Err(ParseError::MissingPrefix);
        }
        if bytes.len() < 9 {
            return Err(ParseError::IncorrectLength);
        }

        let c1 = bytes[bytes.len() - 2];
        let c2 = bytes[bytes.len() - 1];
        let check = match hex_pair(c1, c2) {
            Ok(v) => v,
            Err(e) => {
                return Err(e);
            },
        };
        let last = bytes.len() - 3;
        let calc = checksum(vstd::slice::slice_subrange(bytes, 0, last));
        if calc != check {
            return Err(ParseError::InvalidChecksum);
        }

        let id = [bytes[1], bytes[2]];
        let t0 = bytes[3];
        let t1 = bytes[4];
        let t2 = bytes[5];
        proof {
            assert(spec_frame_code(s) == s.subrange(3, 6));
            assert(s.subrange(3, 6).len() == 3);
            assert(s.subrange(3, 6)[0] == t0);
            assert(s.subrange(3, 6)[1] == t1);
            assert(s.subrange(3, 6)[2] == t2);
            assert(id@ == s.subrange(1, 3));
        }

        let to_parse: &[u8] = if bytes.len() >= 10 {
            vstd::slice::slice_subrange(bytes, 7, last)
        } else {
            vstd::slice::slice_subrange(bytes, 0, 0)
        };
        proof {
            if bytes.len() < 10 {
                assert(to_parse@ =~= Seq::<u8>::empty());
            }
        }

        let message = if t0 == 0x47 && t1 == 0x4C && t2 == 0x4C {
            match GeographicPosition::parse(to_parse) {
                Ok(g) => Sentence::Gll(g),
                Err(e) => {
                    return Err(e);
                },
            }
        } else if t0 == 0x47 && t1 == 0x53 && t2 == 0x56 {
            match SatellitesInView::parse(to_parse) {
                Ok(g) => Sentence::Gsv(g),
                Err(e) => {
                    return Err(e);
                },
            }
        } else if t0 == 0x47 && t1 == 0x53 && t2 == 0x41 {
            match ActiveSatellites::parse(to_parse) {
                Ok(g) => Sentence::Gsa(g),
                Err(e) => {
                    return Err(e);
                },
            }
        } else if t0 == 0x56 && t1 == 0x54 && t2 == 0x47 {
            match GroundSpeed::parse(to_parse) {
                Ok(g) => Sentence::Vtg(g),
                Err(e) => {
                    return Err(e);
                },
            }
        } else if t0 == 0x54 && t1 == 0x58 && t2 == 0x54 {
            match Text::parse(to_parse) {
                Ok(g) => Sentence::Txt(g),
                Err(e) => {
                    return Err(e);
                },
            }
        } else {
            return Err(ParseError::UnknownType([t0, t1, t2]));
        };

        Ok(Message { identifier: id, message })
    }
}

/// Reads a two-digit hexadecimal number from the checksum bytes.
fn hex_pair(c1: u8, c2: u8) -> (r: Result<u8, ParseError>)
    ensures
        r == if is_hex_digit(c1) && is_hex_digit(c2) {
            Ok::<u8, ParseError>((hex_val(c1) * 16 + hex_val(c2)) as u8)
        } else {
            Err::<u8, ParseError>(ParseError::InvalidNumber)
        },
{
    let h1 = match hex_digit(c1) {
        Some(v) => v,
        None => {
            return Err(ParseError::InvalidNumber);
        },
    };
    let h2 = match hex_digit(c2) {
        Some(v) => v,
        None => {
            return Err(ParseError::InvalidNumber);
        },
    };
    Ok(h1 * 16 + h2)
}

/// The value of one hexadecimal digit, if `b` is one.
fn hex_digit(b: u8) -> (r: Option<u8>)
    ensures
        r == if is_hex_digit(b) {
            Some(hex_val(b) as u8)
        } else {
            None::<u8>
        },
{
    if 0x30 <= b && b <= 0x39 {
        Some(b - 0x30)
    } else if 0x61 <= b && b <= 0x66 {
        Some(b - 0x61 + 10)
    } else if 0x41 <= b && b <= 0x46 {
        Some(b - 0x41 + 10)
    } else {
        None
    }
}

} // verus!
