use vstd::prelude::*;

pub mod data_descriptive_record;
pub mod data_record;
pub mod error;
pub mod leader;
pub mod parser;

verus! {

/// Ends the directory and each field area field.
pub const FIELD_TERMINATOR: u8 = 0x1E;

/// Ends a unit inside a field.
pub const UNIT_TERMINATOR: u8 = 0x1F;

} // verus!
