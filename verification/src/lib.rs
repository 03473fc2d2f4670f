#![verifier::loop_isolation(false)]

use vstd::prelude::*;

pub mod consts;
pub mod error;
pub mod iso_8211;
pub mod log;
pub mod misc;
pub mod nmea_0183;

verus! {

} // verus!
