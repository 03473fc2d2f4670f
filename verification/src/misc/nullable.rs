use vstd::prelude::*;

verus! {

/// An optional value to be shown as `-` when absent; the display layer
/// formats it.
pub struct Nullable<T>(pub Option<T>);

} // verus!
