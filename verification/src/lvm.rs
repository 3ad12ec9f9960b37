use vstd::prelude::*;

verus! {

/// An LVM volume group.
#[derive(Debug)]
pub struct LvmVg {}

/// A device that is a physical volume of an LVM volume group.
#[derive(Debug)]
pub struct LvmPv {}

} // verus!
