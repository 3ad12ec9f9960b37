use vstd::prelude::*;

verus! {

/// A btrfs file system and its subvolumes.
#[derive(Debug)]
pub struct Btrfs {
    pub mountpoint: Option<String>,
    pub subvolumes: Vec<String>,
}

} // verus!
