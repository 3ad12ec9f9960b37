use vstd::prelude::*;

verus! {

/// A file system that lives on no device.
#[derive(Debug)]
pub struct Nodev {}

} // verus!
