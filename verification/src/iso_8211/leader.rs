use vstd::prelude::*;

use crate::iso_8211::error::Iso8211Error;
use crate::misc::parser::{parse_uint_text, spec_uint_text};

verus! {

/// The leader of a data descriptive record, read from its fixed 24 bytes.
#[derive(Debug, Clone, Copy, PartialEq, Eq, Structural)]
pub struct DDRLedger {
    pub record_length: u32,
    pub field_area_base_address: u32,
    pub field_length_size: u8,
    pub field_position_size: u8,
}

/// The leader of a data record, read from its fixed 24 bytes.
#[derive(Debug, Clone, Copy, PartialEq, Eq, Structural)]
pub struct DRLedger {
    pub record_length: u32,
    pub field_area_base_address: u32,
    pub field_length_size: u8,
    pub field_position_size: u8,
}

/// The value of a run of digit bytes, bounded by the 32-bit range.
pub open spec fn spec_u32_text(cap: Seq<u8>) -> Result<u32, Iso8211Error> {
    match spec_uint_text(cap, u32::MAX as int) {
        Ok(v) => Ok(v as u32),
        Err(_) => Err(Iso8211Error::InvalidNumber),
    }
}

/// The result of reading a data-descriptive-record leader from its 24
/// bytes: the fixed interchange-level, leader and version bytes must hold
/// their expected values, the record length and base address are decimal
/// text, and the two directory size bytes are taken as they stand.
pub open spec fn spec_parse_ddr_leader(s: Seq<u8>) -> Result<DDRLedger, Iso8211Error> {
    if s.len() != 24 {
        Err(Iso8211Error::IncorrectLength)
    } else if s[5] != 0x33 {
        Err(Iso8211Error::UnexpectedByte(0x33))
    } else if s[6] != 0x4C {
        Err(Iso8211Error::UnexpectedByte(0x4C))
    } else if s[7] != 0x45 {
        Err(Iso8211Error::UnexpectedByte(0x45))
    } else if s[8] != 0x31 {
        Err(Iso8211Error::UnexpectedByte(0x31))
    } else if s[9] != 0x20 {
        Err(Iso8211Error::UnexpectedByte(0x20))
    } else if s[10] != 0x30 {
        Err(Iso8211Error::UnexpectedByte(0x30))
    } else if s[11] != 0x39 {
        Err(Iso8211Error::UnexpectedByte(0x39))
    } else if s[17] != 0x20 {
        Err(Iso8211Error::UnexpectedByte(0x20))
    } else if s[18] != 0x21 {
        Err(Iso8211Error::UnexpectedByte(0x21))
    } else if s[19] != 0x20 {
        Err(Iso8211Error::UnexpectedByte(0x20))
    } else if s[22] != 0x30 {
        Err(Iso8211Error::UnexpectedByte(0x30))
    } else if s[23] != 0x34 {
        Err(Iso8211Error::UnexpectedByte(0x34))
    } else {
        match spec_u32_text(s.subrange(0, 5)) {
            Err(e) => Err(e),
            Ok(record_length) => match spec_u32_text(s.subrange(12, 17)) {
                Err(e) => Err(e),
                Ok(field_area_base_address) => Ok(
                    DDRLedger {
                        record_length,
                        field_area_base_address,
                        field_length_size: s[20],
                        field_position_size: s[21],
                    },
                ),
            },
        }
    }
}

/// The result of reading a data-record leader from its 24 bytes.
pub open spec fn spec_parse_dr_leader(s: Seq<u8>) -> Result<DRLedger, Iso8211Error> {
    if s.len() != 24 {
        Err(Iso8211Error::IncorrectLength)
    } else if s[5] != 0x20 {
        Err(Iso8211Error::UnexpectedByte(0x20))
    } else if s[6] != 0x44 {
        Err(Iso8211Error::UnexpectedByte(0x44))
    } else if s[7] != 0x20 {
        Err(Iso8211Error::UnexpectedByte(0x20))
    } else if s[8] != 0x20 {
        Err(Iso8211Error::UnexpectedByte(0x20))
    } else if s[9] != 0x20 {
        Err(Iso8211Error::UnexpectedByte(0x20))
    } else if s[10] != 0x20 {
        Err(Iso8211Error::UnexpectedByte(0x20))
    } else if s[11] != 0x20 {
        Err(Iso8211Error::UnexpectedByte(0x20))
    } else if s[17] != 0x20 {
        Err(Iso8211Error::UnexpectedByte(0x20))
    } else if s[18] != 0x20 {
        Err(Iso8211Error::UnexpectedByte(0x20))
    } else if s[19] != 0x20 {
        Err(Iso8211Error::UnexpectedByte(0x20))
    } else if s[22] != 0x30 {
        Err(Iso8211Error::UnexpectedByte(0x30))
    } else if s[23] != 0x34 {
        Err(Iso8211Error::UnexpectedByte(0x34))
    } else {
        match spec_u32_text(s.subrange(0, 5)) {
            Err(e) => Err(e),
            Ok(record_length) => match spec_u32_text(s.subrange(12, 17)) {
                Err(e) => Err(e),
                Ok(field_area_base_address) => Ok(
                    DRLedger {
                        record_length,
                        field_area_base_address,
                        field_length_size: s[20],
                        field_position_size: s[21],
                    },
                ),
            },
        }
    }
}

/// The outcome and final position of reading one leader from a record
/// stream at `i`: the record length, the layout's fixed bytes `tag`, the
/// base address, the fixed bytes `gap`, the two directory size digits, and
/// the version bytes `04`.
pub open spec fn spec_leader_stream(s: Seq<u8>, i: int, tag: Seq<u8>, gap: Seq<u8>) -> (Result<
    (u32, u32, u8, u8),
    Iso8211Error,
>, int) {
    let (rl_r, i1) = crate::iso_8211::parser::spec_read_u32(s, i, 5);
    match rl_r {
        Err(e) => (Err(e), i1),
        Ok(rl) => {
            let (g1_r, i2) = crate::iso_8211::parser::spec_expect_seq(s, i1, tag);
            match g1_r {
                Err(e) => (Err(e), i2),
                Ok(_) => {
                    let (ba_r, i3) = crate::iso_8211::parser::spec_read_u32(s, i2, 5);
                    match ba_r {
                        Err(e) => (Err(e), i3),
                        Ok(ba) => {
                            let (g2_r, i4) = crate::iso_8211::parser::spec_expect_seq(s, i3, gap);
                            match g2_r {
                                Err(e) => (Err(e), i4),
                                Ok(_) => {
                                    let (ls_r, i5) = crate::iso_8211::parser::spec_read_digit(
                                        s,
                                        i4,
                                    );
                                    match ls_r {
                                        Err(e) => (Err(e), i5),
                                        Ok(ls) => {
                                            let (ps_r, i6) =
                                                crate::iso_8211::parser::spec_read_digit(s, i5);
                                            match ps_r {
                                                Err(e) => (Err(e), i6),
                                                Ok(ps) => {
                                                    let (g3_r, i7) =
                                                        crate::iso_8211::parser::spec_expect_seq(
                                                        s,
                                                        i6,
                                                        spec_version_tag(),
                                                    );
                                                    match g3_r {
                                                        Err(e) => (Err(e), i7),
                                                        Ok(_) => (Ok((rl, ba, ls, ps)), i7),
                                                    }
                                                },
                                            }
                                        },
                                    }
                                },
                            }
                        },
                    }
                },
            }
        },
    }
}

/// The version bytes that close both leader layouts.
pub open spec fn spec_version_tag() -> Seq<u8> {
    seq![0x30u8, 0x34u8]
}

/// Reads the shared leader layout from a record stream.
pub(crate) fn parse_leader_stream(
    parser: &mut crate::iso_8211::parser::Parser,
    tag: &[u8],
    gap: &[u8],
) -> (r: Result<(u32, u32, u8, u8), Iso8211Error>)
    requires
        old(parser).wf(),
    ensures
        final(parser).wf(),
        final(parser).bytes() == old(parser).bytes(),
        ({
            let (res, ni) = spec_leader_stream(
                old(parser).bytes(),
                old(parser).pos(),
                tag@,
                gap@,
            );
            r == res && final(parser).pos() == ni
        }),
{
    let record_length = match crate::iso_8211::parser::read_u32(parser, 5) {
        Ok(v) => v,
        Err(e) => {
            return Err(e);
        },
    };
    match parser.expect_bytes(tag) {
        Ok(_) => {},
        Err(e) => {
            return Err(e);
        },
    }
    let base_address = match crate::iso_8211::parser::read_u32(parser, 5) {
        Ok(v) => v,
        Err(e) => {
            return Err(e);
        },
    };
    match parser.expect_bytes(gap) {
        Ok(_) => {},
        Err(e) => {
            return Err(e);
        },
    }
    let field_length_size = match crate::iso_8211::parser::read_digit(parser) {
        Ok(v) => v,
        Err(e) => {
            return Err(e);
        },
    };
    let field_position_size = match crate::iso_8211::parser::read_digit(parser) {
        Ok(v) => v,
        Err(e) => {
            return Err(e);
        },
    };
    let version: [u8; 2] = [0x30, 0x34];
    proof {
        assert(version@ =~= spec_version_tag());
    }
    match parser.expect_bytes(version.as_slice()) {
        Ok(_) => {},
        Err(e) => {
            return Err(e);
        },
    }
    Ok((record_length, base_address, field_length_size, field_position_size))
}

/// Computes a 32-bit decimal from a byte capture.
pub(crate) fn parse_u32_text(cap: &[u8]) -> (r: Result<u32, Iso8211Error>)
    ensures
        r == spec_u32_text(cap@),
{
    match parse_uint_text(cap, 0xFFFF_FFFF) {
        Ok(v) => Ok(v as u32),
        Err(_) => Err(Iso8211Error::InvalidNumber),
    }
}

impl DDRLedger {
    /// Reads a data-descriptive-record leader from its fixed 24 bytes.
    pub fn parse(bytes: &[u8]) -> (r: Result<Self, Iso8211Error>)
        ensures
            r == spec_parse_ddr_leader(bytes@),
    {
        if bytes.len() != 24 {
            return Err(Iso8211Error::IncorrectLength);
        }
        if bytes[5] != 0x33 {
            return Err(Iso8211Error::UnexpectedByte(0x33));
        }
        if bytes[6] != 0x4C {
            return Err(Iso8211Error::UnexpectedByte(0x4C));
        }
        if bytes[7] != 0x45 {
            return Err(Iso8211Error::UnexpectedByte(0x45));
        }
        if bytes[8] != 0x31 {
            return Err(Iso8211Error::UnexpectedByte(0x31));
        }
        if bytes[9] != 0x20 {
            return Err(Iso8211Error::UnexpectedByte(0x20));
        }
        if bytes[10] != 0x30 {
            return Err(Iso8211Error::UnexpectedByte(0x30));
        }
        if bytes[11] != 0x39 {
            return Err(Iso8211Error::UnexpectedByte(0x39));
        }
        if bytes[17] != 0x20 {
            return Err(Iso8211Error::UnexpectedByte(0x20));
        }
        if bytes[18] != 0x21 {
            return Err(Iso8211Error::UnexpectedByte(0x21));
        }
        if bytes[19] != 0x20 {
            return Err(Iso8211Error::UnexpectedByte(0x20));
        }
        if bytes[22] != 0x30 {
            return Err(Iso8211Error::UnexpectedByte(0x30));
        }
        if bytes[23] != 0x34 {
            return Err(Iso8211Error::UnexpectedByte(0x34));
        }
        let record_length = match parse_u32_text(vstd::slice::slice_subrange(bytes, 0, 5)) {
            Ok(v) => v,
            Err(e) => {
                return Err(e);
            },
        };
        let field_area_base_address = match parse_u32_text(
            vstd::slice::slice_subrange(bytes, 12, 17),
        ) {
            Ok(v) => v,
            Err(e) => {
                return Err(e);
            },
        };
        Ok(
            Self {
                record_length,
                field_area_base_address,
                field_length_size: bytes[20],
                field_position_size: bytes[21],
            },
        )
    }
}

impl DRLedger {
    /// Reads a data-record leader from its fixed 24 bytes.
    pub fn parse(bytes: &[u8]) -> (r: Result<Self, Iso8211Error>)
        ensures
            r == spec_parse_dr_leader(bytes@),
    {
        if bytes.len() != 24 {
            return Err(Iso8211Error::IncorrectLength);
        }
        if bytes[5] != 0x20 {
            return Err(Iso8211Error::UnexpectedByte(0x20));
        }
        if bytes[6] != 0x44 {
            return Err(Iso8211Error::UnexpectedByte(0x44));
        }
        if bytes[7] != 0x20 {
            return Err(Iso8211Error::UnexpectedByte(0x20));
        }
        if bytes[8] != 0x20 {
            return Err(Iso8211Error::UnexpectedByte(0x20));
        }
        if bytes[9] != 0x20 {
            return Err(Iso8211Error::UnexpectedByte(0x20));
        }
        if bytes[10] != 0x20 {
            return Err(Iso8211Error::UnexpectedByte(0x20));
        }
        if bytes[11] != 0x20 {
            return Err(Iso8211Error::UnexpectedByte(0x20));
        }
        if bytes[17] != 0x20 {
            return Err(Iso8211Error::UnexpectedByte(0x20));
        }
        if bytes[18] != 0x20 {
            return Err(Iso8211Error::UnexpectedByte(0x20));
        }
        if bytes[19] != 0x20 {
            return Err(Iso8211Error::UnexpectedByte(0x20));
        }
        if bytes[22] != 0x30 {
            return Err(Iso8211Error::UnexpectedByte(0x30));
        }
        if bytes[23] != 0x34 {
            return Err(Iso8211Error::UnexpectedByte(0x34));
        }
        let record_length = match parse_u32_text(vstd::slice::slice_subrange(bytes, 0, 5)) {
            Ok(v) => v,
            Err(e) => {
                return Err(e);
            },
        };
        let field_area_base_address = match parse_u32_text(
            vstd::slice::slice_subrange(bytes, 12, 17),
        ) {
            Ok(v) => v,
            Err(e) => {
                return Err(e);
            },
        };
        Ok(
            Self {
                record_length,
                field_area_base_address,
                field_length_size: bytes[20],
                field_position_size: bytes[21],
            },
        )
    }
}

} // verus!
