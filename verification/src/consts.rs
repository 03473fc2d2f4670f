use vstd::prelude::*;

verus! {

/// How many samples the rolling signal-quality history keeps.
pub const HISTORY_SAMPLES: usize = 50;

} // verus!
