use vstd::prelude::*;

verus! {

/// A swap area.
#[derive(Debug)]
pub struct Swap {}

} // verus!
