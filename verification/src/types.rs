use vstd::prelude::*;

verus! {

/// A point total.
pub type Score = i32;

} // verus!
