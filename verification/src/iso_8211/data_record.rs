use vstd::prelude::*;

use crate::iso_8211::error::Iso8211Error;
use crate::iso_8211::leader::{parse_leader_stream, spec_leader_stream};
use crate::iso_8211::parser::Parser;

verus! {

/// The leader of a data record, read from a record stream.
#[derive(Debug, Clone, Copy, PartialEq, Eq, Structural)]
pub struct DRLedger {
    pub record_length: u32,
    pub field_area_base_address: u32,
    pub field_length_size: u8,
    pub field_position_size: u8,
}

/// The fixed bytes after a data-record leader's record length.
pub open spec fn spec_dr_tag() -> Seq<u8> {
    seq![0x20u8, 0x44u8, 0x20u8, 0x20u8, 0x20u8, 0x20u8, 0x20u8]
}

/// The fixed bytes after a data-record leader's base address.
pub open spec fn spec_dr_gap() -> Seq<u8> {
    seq![0x20u8, 0x20u8, 0x20u8]
}

impl DRLedger {
    /// Reads a data-record leader from the record stream.
    pub fn parse(parser: &mut Parser) -> (r: Result<Self, Iso8211Error>)
        requires
            old(parser).wf(),
        ensures
            final(parser).wf(),
            final(parser).bytes() == old(parser).bytes(),
            ({
                let (res, ni) = spec_leader_stream(
                    old(parser).bytes(),
                    old(parser).pos(),
                    spec_dr_tag(),
                    spec_dr_gap(),
                );
                final(parser).pos() == ni && match (r, res) {
                    (Ok(v), Ok(t)) => v.record_length == t.0 && v.field_area_base_address == t.1
                        && v.field_length_size == t.2 && v.field_position_size == t.3,
                    (Err(e), Err(se)) => e == se,
                    _ => false,
                }
            }),
    {
        let tag: [u8; 7] = [0x20, 0x44, 0x20, 0x20, 0x20, 0x20, 0x20];
        let gap: [u8; 3] = [0x20, 0x20, 0x20];
        proof {
            assert(tag@ =~= spec_dr_tag());
            assert(gap@ =~= spec_dr_gap());
        }
        match parse_leader_stream(parser, tag.as_slice(), gap.as_slice()) {
            Ok((record_length, field_area_base_address, field_length_size, field_position_size)) =>
                Ok(
                Self { record_length, field_area_base_address, field_length_size, field_position_size },
            ),
            Err(e) => Err(e),
        }
    }
}

} // verus!
