use vstd::prelude::*;

pub mod active_satellites;
pub mod geographic_position;
pub mod ground_speed;
pub mod satellites_in_view;
pub mod text;

verus! {

} // verus!
