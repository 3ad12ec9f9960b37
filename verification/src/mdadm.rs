use vstd::prelude::*;

verus! {

/// A software RAID array.
#[derive(Debug)]
pub struct Mdadm {}

/// A device that is a member of a software RAID array.
#[derive(Debug)]
pub struct Mdraid {}

} // verus!
