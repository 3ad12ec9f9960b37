use vstd::prelude::*;

verus! {

/// A LUKS-encrypted device.
#[derive(Debug)]
pub struct Luks {}

} // verus!
