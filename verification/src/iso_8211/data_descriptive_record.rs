use vstd::prelude::*;

use vstd::utf8::{decode_utf8, valid_utf8};

use crate::iso_8211::error::Iso8211Error;
use crate::iso_8211::leader::{parse_leader_stream, spec_leader_stream};
use crate::iso_8211::parser::{spec_expect_seq, spec_read_u32, Parser};
use crate::iso_8211::{FIELD_TERMINATOR, UNIT_TERMINATOR};
use crate::misc::parser::{ne_pred, span_end};

verus! {

/// A data descriptive record: its leader and its directory of field tags.
#[derive(Debug)]
pub struct DataDescriptiveRecord {
    pub ledger: DDRLedger,
    pub directory: Vec<DirectoryEntry>,
}

/// The leader of a data descriptive record, read from a record stream.
#[derive(Debug, Clone, Copy, PartialEq, Eq, Structural)]
pub struct DDRLedger {
    /// Number of bytes in the record.
    pub record_length: u32,
    /// The base address of the field area.
    pub field_area_base_address: u32,
    /// Size of a field length field (1-9).
    pub field_length_size: u8,
    /// Size of a field position field (1-9).
    pub field_position_size: u8,
}

/// One directory entry: a field's tag, length and position.
#[derive(Debug, Clone, Copy, PartialEq, Eq)]
pub struct DirectoryEntry {
    /// The tag of the field.
    pub tag: [u8; 4],
    /// The length of the field.
    pub field_length: u32,
    /// Relative to the start of the field area.
    pub field_position: u32,
}

/// The control field of a data descriptive record: the file title and the
/// tag pairs of the field tree.
#[derive(Debug, Clone, PartialEq, Eq)]
pub struct ControlField {
    pub file_title: String,
    pub field_tag_pairs: Vec<(String, String)>,
}

/// The fixed bytes after a data-descriptive-record leader's record length.
pub open spec fn spec_ddr_tag() -> Seq<u8> {
    seq![0x33u8, 0x4Cu8, 0x45u8, 0x31u8, 0x20u8, 0x30u8, 0x39u8]
}

/// The fixed bytes after a data-descriptive-record leader's base address.
pub open spec fn spec_ddr_gap() -> Seq<u8> {
    seq![0x20u8, 0x21u8, 0x20u8]
}

/// The fixed bytes that open a control field.
pub open spec fn spec_control_tag() -> Seq<u8> {
    seq![0x30u8, 0x30u8, 0x30u8, 0x30u8, 0x3Bu8, 0x26u8, 0x20u8, 0x20u8, 0x20u8]
}

/// What a directory entry holds, as plain values: its tag bytes, field
/// length and field position.
pub open spec fn spec_entry_view(e: DirectoryEntry) -> (Seq<u8>, u32, u32) {
    (e.tag@, e.field_length, e.field_position)
}

/// What a directory holds, entry by entry.
pub open spec fn spec_dir_views(s: Seq<DirectoryEntry>) -> Seq<(Seq<u8>, u32, u32)> {
    s.map_values(|e: DirectoryEntry| spec_entry_view(e))
}

/// The outcome and final position of reading one directory entry at `i`:
/// four tag bytes, then the field length and field position as decimal
/// text of the sizes the leader fixed.
pub open spec fn spec_dir_entry(s: Seq<u8>, i: int, ls: nat, ps: nat) -> (Result<
    (Seq<u8>, u32, u32),
    Iso8211Error,
>, int) {
    if i + 4 > s.len() {
        (Err(Iso8211Error::UnexpectedEof), i)
    } else {
        let tag = s.subrange(i, i + 4);
        let (len_r, i1) = spec_read_u32(s, i + 4, ls as int);
        match len_r {
            Err(e) => (Err(e), i1),
            Ok(fl) => {
                let (pos_r, i2) = spec_read_u32(s, i1, ps as int);
                match pos_r {
                    Err(e) => (Err(e), i2),
                    Ok(fp) => (Ok((tag, fl, fp)), i2),
                }
            },
        }
    }
}

/// The outcome and final position of reading the whole directory at `i`:
/// entries follow each other until the field terminator, which is
/// consumed.
pub open spec fn spec_directory(s: Seq<u8>, i: int, ls: nat, ps: nat) -> (Result<
    Seq<(Seq<u8>, u32, u32)>,
    Iso8211Error,
>, int)
    decreases s.len() - i,
{
    if i < 0 || i >= s.len() {
        (Err(Iso8211Error::UnexpectedEof), i)
    } else if s[i] == FIELD_TERMINATOR {
        (Ok(Seq::<(Seq<u8>, u32, u32)>::empty()), i + 1)
    } else {
        let (e_r, i1) = spec_dir_entry(s, i, ls, ps);
        match e_r {
            Err(e) => (Err(e), i1),
            Ok(ent) => {
                let (rest_r, i2) = spec_directory(s, i1, ls, ps);
                match rest_r {
                    Err(e) => (Err(e), i2),
                    Ok(rest) => (Ok(seq![ent] + rest), i2),
                }
            },
        }
    }
}

/// The outcome and final position of reading `k` tag pairs of a control
/// field at `i`, each pair two four-byte UTF-8 texts.
pub open spec fn spec_pairs(s: Seq<u8>, i: int, k: nat) -> (Result<
    Seq<(Seq<char>, Seq<char>)>,
    Iso8211Error,
>, int)
    decreases k,
{
    if k == 0 {
        (Ok(Seq::<(Seq<char>, Seq<char>)>::empty()), i)
    } else if i + 4 > s.len() {
        (Err(Iso8211Error::UnexpectedEof), i)
    } else {
        let c1 = s.subrange(i, i + 4);
        if !valid_utf8(c1) {
            (Err(Iso8211Error::NonUtf8), i + 4)
        } else if i + 8 > s.len() {
            (Err(Iso8211Error::UnexpectedEof), i + 4)
        } else {
            let c2 = s.subrange(i + 4, i + 8);
            if !valid_utf8(c2) {
                (Err(Iso8211Error::NonUtf8), i + 8)
            } else {
                let (rest_r, i2) = spec_pairs(s, i + 8, (k - 1) as nat);
                match rest_r {
                    Err(e) => (Err(e), i2),
                    Ok(rest) => (Ok(seq![(decode_utf8(c1), decode_utf8(c2))] + rest), i2),
                }
            }
        }
    }
}

/// What the tag pairs hold, as character sequences.
pub open spec fn spec_pair_views(v: Seq<(String, String)>) -> Seq<(Seq<char>, Seq<char>)> {
    v.map_values(|p: (String, String)| (p.0@, p.1@))
}

/// How many tag pairs a control field of length `field_length` holds: the
/// fixed opening and title take eleven bytes and each pair eight.
pub open spec fn spec_pair_count(field_length: u32) -> u32 {
    if field_length >= 11 {
        ((field_length - 11) / 8) as u32
    } else {
        0
    }
}

/// The outcome and final position of reading a control field at `i`: the
/// fixed opening bytes, the file title up to the unit terminator, then as
/// many tag pairs as the directory entry's field length allows.
pub open spec fn spec_control_field(s: Seq<u8>, i: int, field_length: u32) -> (Result<
    (Seq<char>, Seq<(Seq<char>, Seq<char>)>),
    Iso8211Error,
>, int) {
    let (g_r, i1) = spec_expect_seq(s, i, spec_control_tag());
    match g_r {
        Err(e) => (Err(e), i1),
        Ok(_) => {
            let j = span_end(s, i1, ne_pred(UNIT_TERMINATOR));
            if j >= s.len() {
                (Err(Iso8211Error::UnexpectedEof), s.len() as int)
            } else {
                let tb = s.subrange(i1, j);
                if !valid_utf8(tb) {
                    (Err(Iso8211Error::NonUtf8), j + 1)
                } else {
                    let (p_r, i2) = spec_pairs(s, j + 1, spec_pair_count(field_length) as nat);
                    match p_r {
                        Err(e) => (Err(e), i2),
                        Ok(ps) => (Ok((decode_utf8(tb), ps)), i2),
                    }
                }
            }
        },
    }
}

impl DDRLedger {
    /// Reads a data-descriptive-record leader from the record stream.
    pub fn parse(parser: &mut Parser) -> (r: Result<Self, Iso8211Error>)
        requires
            old(parser).wf(),
        ensures
            final(parser).wf(),
            final(parser).bytes() == old(parser).bytes(),
            ({
                let (res, ni) = spec_leader_stream(
                    old(parser).bytes(),
                    old(parser).pos(),
                    spec_ddr_tag(),
                    spec_ddr_gap(),
                );
                final(parser).pos() == ni && match (r, res) {
                    (Ok(v), Ok(t)) => v.record_length == t.0 && v.field_area_base_address == t.1
                        && v.field_length_size == t.2 && v.field_position_size == t.3,
                    (Err(e), Err(se)) => e == se,
                    _ => false,
                }
            }),
    {
        let tag: [u8; 7] = [0x33, 0x4C, 0x45, 0x31, 0x20, 0x30, 0x39];
        let gap: [u8; 3] = [0x20, 0x21, 0x20];
        proof {
            assert(tag@ =~= spec_ddr_tag());
            assert(gap@ =~= spec_ddr_gap());
        }
        match parse_leader_stream(parser, tag.as_slice(), gap.as_slice()) {
            Ok((record_length, field_area_base_address, field_length_size, field_position_size)) =>
                Ok(
                Self { record_length, field_area_base_address, field_length_size, field_position_size },
            ),
            Err(e) => Err(e),
        }
    }
}

impl DirectoryEntry {
    /// Reads one directory entry from the record stream, with the field
    /// sizes the leader fixed.
    pub fn parse(parser: &mut Parser, ledger: &DDRLedger) -> (r: Result<Self, Iso8211Error>)
        requires
            old(parser).wf(),
        ensures
            final(parser).wf(),
            final(parser).bytes() == old(parser).bytes(),
            ({
                let (res, ni) = spec_dir_entry(
                    old(parser).bytes(),
                    old(parser).pos(),
                    ledger.field_length_size as nat,
                    ledger.field_position_size as nat,
                );
                final(parser).pos() == ni && match (r, res) {
                    (Ok(e), Ok(t)) => e.tag@ == t.0 && e.field_length == t.1 && e.field_position
                        == t.2,
                    (Err(e), Err(se)) => e == se,
                    _ => false,
                }
            }),
    {
        let tag_bytes = match parser.read_bytes(4) {
            Ok(v) => v,
            Err(e) => {
                return Err(e);
            },
        };
        let tag: [u8; 4] = [tag_bytes[0], tag_bytes[1], tag_bytes[2], tag_bytes[3]];
        proof {
            assert(tag@ =~= tag_bytes@);
        }
        let field_length = match crate::iso_8211::parser::read_u32(
            parser,
            ledger.field_length_size as usize,
        ) {
            Ok(v) => v,
            Err(e) => {
                return Err(e);
            },
        };
        let field_position = match crate::iso_8211::parser::read_u32(
            parser,
            ledger.field_position_size as usize,
        ) {
            Ok(v) => v,
            Err(e) => {
                return Err(e);
            },
        };
        Ok(Self { tag, field_length, field_position })
    }

    /// Reads directory entries until the field terminator, which is
    /// consumed.
    pub fn parse_all(parser: &mut Parser, ledger: &DDRLedger) -> (r: Result<
        Vec<Self>,
        Iso8211Error,
    >)
        requires
            old(parser).wf(),
        ensures
            final(parser).wf(),
            final(parser).bytes() == old(parser).bytes(),
            ({
                let (res, ni) = spec_directory(
                    old(parser).bytes(),
                    old(parser).pos(),
                    ledger.field_length_size as nat,
                    ledger.field_position_size as nat,
                );
                final(parser).pos() == ni && match (r, res) {
                    (Ok(v), Ok(tups)) => spec_dir_views(v@) == tups,
                    (Err(e), Err(se)) => e == se,
                    _ => false,
                }
            }),
    {
        let ghost s = parser.bytes();
        let ghost i0 = parser.pos();
        let ghost ls = ledger.field_length_size as nat;
        let ghost ps = ledger.field_position_size as nat;
        let mut directory: Vec<DirectoryEntry> = Vec::new();
        proof {
            assert(spec_dir_views(Seq::<DirectoryEntry>::empty()) =~= Seq::<
                (Seq<u8>, u32, u32),
            >::empty());
        }
        loop
            invariant
                parser.wf(),
                parser.bytes() == s,
                i0 <= parser.pos(),
                ({
                    let (whole_r, whole_i) = spec_directory(s, i0, ls, ps);
                    let (rest_r, rest_i) = spec_directory(s, parser.pos(), ls, ps);
                    match rest_r {
                        Ok(rest) => whole_r == Ok::<Seq<(Seq<u8>, u32, u32)>, Iso8211Error>(
                            spec_dir_views(directory@) + rest,
                        ) && whole_i == rest_i,
                        Err(e) => whole_r == Err::<Seq<(Seq<u8>, u32, u32)>, Iso8211Error>(e)
                            && whole_i == rest_i,
                    }
                }),
            decreases s.len() - parser.pos(),
        {
            let ghost pre_pos = parser.pos();
            let b = match parser.peek() {
                Ok(b) => b,
                Err(e) => {
                    return Err(e);
                },
            };
            if b == FIELD_TERMINATOR {
                match parser.expect(FIELD_TERMINATOR) {
                    Ok(_) => {},
                    Err(e) => {
                        return Err(e);
                    },
                }
                proof {
                    assert(spec_dir_views(directory@) + Seq::<(Seq<u8>, u32, u32)>::empty()
                        =~= spec_dir_views(directory@));
                }
                return Ok(directory);
            }
            let ghost pre_dir = directory@;
            match DirectoryEntry::parse(parser, ledger) {
                Ok(entry) => {
                    directory.push(entry);
                    proof {
                        let (e_r, i1) = spec_dir_entry(s, pre_pos, ls, ps);
                        assert(i1 == parser.pos());
                        assert(e_r matches Ok(t) && t == spec_entry_view(entry));
                        let (rest_r, rest_i) = spec_directory(s, parser.pos(), ls, ps);
                        assert(spec_directory(s, pre_pos, ls, ps) == (match rest_r {
                            Ok(rest) => (
                                Ok::<Seq<(Seq<u8>, u32, u32)>, Iso8211Error>(
                                    seq![spec_entry_view(entry)] + rest,
                                ),
                                rest_i,
                            ),
                            Err(e) => (Err::<Seq<(Seq<u8>, u32, u32)>, Iso8211Error>(e), rest_i),
                        }));
                        if rest_r is Ok {
                            assert(spec_dir_views(directory@) + rest_r->Ok_0 =~= spec_dir_views(
                                pre_dir,
                            ) + (seq![spec_entry_view(entry)] + rest_r->Ok_0));
                        }
                        assert(parser.pos() > pre_pos);
                    }
                },
                Err(e) => {
                    return Err(e);
                },
            }
        }
    }
}

impl ControlField {
    /// Reads the control field from the record stream, sized by its
    /// directory entry.
    pub fn parse(parser: &mut Parser, _ledger: &DDRLedger, entry: &DirectoryEntry) -> (r: Result<
        Self,
        Iso8211Error,
    >)
        requires
            old(parser).wf(),
        ensures
            final(parser).wf(),
            final(parser).bytes() == old(parser).bytes(),
            ({
                let (res, ni) = spec_control_field(
                    old(parser).bytes(),
                    old(parser).pos(),
                    entry.field_length,
                );
                final(parser).pos() == ni && match (r, res) {
                    (Ok(v), Ok(t)) => v.file_title@ == t.0 && spec_pair_views(v.field_tag_pairs@)
                        == t.1,
                    (Err(e), Err(se)) => e == se,
                    _ => false,
                }
            }),
    {
        let ghost s = parser.bytes();
        let opening: [u8; 9] = [0x30, 0x30, 0x30, 0x30, 0x3B, 0x26, 0x20, 0x20, 0x20];
        proof {
            assert(opening@ =~= spec_control_tag());
        }
        match parser.expect_bytes(opening.as_slice()) {
            Ok(_) => {},
            Err(e) => {
                return Err(e);
            },
        }
        let title_bytes = match parser.take_until(UNIT_TERMINATOR) {
            Ok(v) => v,
            Err(e) => {
                return Err(e);
            },
        };
        let file_title = match crate::iso_8211::parser::bytes_to_string(title_bytes) {
            Ok(v) => v,
            Err(e) => {
                return Err(e);
            },
        };

        let pairs: u32 = if entry.field_length >= 11 {
            (entry.field_length - 11) / 8
        } else {
            0
        };
        let ghost pairs_start = parser.pos();
        let mut field_tag_pairs: Vec<(String, String)> = Vec::new();
        let mut k: u32 = 0;
        proof {
            assert(spec_pair_views(Seq::<(String, String)>::empty()) =~= Seq::<
                (Seq<char>, Seq<char>),
            >::empty());
        }
        while k < pairs
            invariant
                parser.wf(),
                parser.bytes() == s,
                0 <= k <= pairs,
                ({
                    let (whole_r, whole_i) = spec_pairs(s, pairs_start, pairs as nat);
                    let (rest_r, rest_i) = spec_pairs(s, parser.pos(), (pairs - k) as nat);
                    match rest_r {
                        Ok(rest) => whole_r == Ok::<Seq<(Seq<char>, Seq<char>)>, Iso8211Error>(
                            spec_pair_views(field_tag_pairs@) + rest,
                        ) && whole_i == rest_i,
                        Err(e) => whole_r == Err::<Seq<(Seq<char>, Seq<char>)>, Iso8211Error>(e)
                            && whole_i == rest_i,
                    }
                }),
            decreases pairs - k,
        {
            let ghost pre_pos = parser.pos();
            let ghost pre_pairs = field_tag_pairs@;
            let ghost n = (pairs - k) as nat;
            let tag = match parser.read_string(4) {
                Ok(v) => v,
                Err(e) => {
                    return Err(e);
                },
            };
            let value = match parser.read_string(4) {
                Ok(v) => v,
                Err(e) => {
                    return Err(e);
                },
            };
            field_tag_pairs.push((tag, value));
            proof {
                let c1 = s.subrange(pre_pos, pre_pos + 4);
                let c2 = s.subrange(pre_pos + 4, pre_pos + 8);
                let (rest_r, rest_i) = spec_pairs(s, parser.pos(), (n - 1) as nat);
                assert(spec_pairs(s, pre_pos, n) == (match rest_r {
                    Ok(rest) => (
                        Ok::<Seq<(Seq<char>, Seq<char>)>, Iso8211Error>(
                            seq![(decode_utf8(c1), decode_utf8(c2))] + rest,
                        ),
                        rest_i,
                    ),
                    Err(e) => (Err::<Seq<(Seq<char>, Seq<char>)>, Iso8211Error>(e), rest_i),
                }));
                assert((n - 1) as nat == (pairs - (k + 1)) as nat);
                if rest_r is Ok {
                    assert(spec_pair_views(field_tag_pairs@) + rest_r->Ok_0 =~= spec_pair_views(
                        pre_pairs,
                    ) + (seq![(decode_utf8(c1), decode_utf8(c2))] + rest_r->Ok_0));
                }
            }
            k = k + 1;
        }
        proof {
            assert(spec_pair_views(field_tag_pairs@) + Seq::<(Seq<char>, Seq<char>)>::empty()
                =~= spec_pair_views(field_tag_pairs@));
        }
        Ok(ControlField { file_title, field_tag_pairs })
    }
}

impl DataDescriptiveRecord {
    /// Reads a data descriptive record from the record stream: the leader,
    /// the directory, and the control field the first directory entry
    /// describes; a record without directory entries is malformed.
    pub fn parse(parser: &mut Parser) -> (r: Result<Self, Iso8211Error>)
        requires
            old(parser).wf(),
        ensures
            final(parser).wf(),
            final(parser).bytes() == old(parser).bytes(),
            ({
                let s = old(parser).bytes();
                let (leader_r, i1) = spec_leader_stream(
                    s,
                    old(parser).pos(),
                    spec_ddr_tag(),
                    spec_ddr_gap(),
                );
                match leader_r {
                    Err(e) => r == Err::<DataDescriptiveRecord, Iso8211Error>(e),
                    Ok(t) => {
                        let (dir_r, i2) = spec_directory(s, i1, t.2 as nat, t.3 as nat);
                        match dir_r {
                            Err(e) => r == Err::<DataDescriptiveRecord, Iso8211Error>(e),
                            Ok(tups) => {
                                if tups.len() == 0 {
                                    r == Err::<DataDescriptiveRecord, Iso8211Error>(
                                        Iso8211Error::IncorrectLength,
                                    )
                                } else {
                                    let (cf_r, _i3) = spec_control_field(s, i2, tups[0].1);
                                    match cf_r {
                                        Err(e) => r == Err::<DataDescriptiveRecord, Iso8211Error>(
                                            e,
                                        ),
                                        Ok(_) => r matches Ok(record) && {
                                            &&& record.ledger.record_length == t.0
                                            &&& record.ledger.field_area_base_address == t.1
                                            &&& record.ledger.field_length_size == t.2
                                            &&& record.ledger.field_position_size == t.3
                                            &&& spec_dir_views(record.directory@) == tups
                                        },
                                    }
                                }
                            },
                        }
                    },
                }
            }),
    {
        let ledger = match DDRLedger::parse(parser) {
            Ok(v) => v,
            Err(e) => {
                return Err(e);
            },
        };
        let directory = match DirectoryEntry::parse_all(parser, &ledger) {
            Ok(v) => v,
            Err(e) => {
                return Err(e);
            },
        };
        if directory.len() == 0 {
            return Err(Iso8211Error::IncorrectLength);
        }
        match ControlField::parse(parser, &ledger, &directory[0]) {
            Ok(_) => {},
            Err(e) => {
                return Err(e);
            },
        }

        Ok(Self { ledger, directory })
    }
}

} // verus!
