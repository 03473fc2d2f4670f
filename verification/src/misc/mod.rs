use vstd::prelude::*;

pub mod decimal;
pub mod delayed;
pub mod nullable;
pub mod parser;

verus! {

} // verus!
