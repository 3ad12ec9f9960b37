use vstd::prelude::*;

use crate::btrfs::Btrfs;
use crate::device::DevicePath;
use crate::luks::Luks;
use crate::lvm::LvmPv;
use crate::mdadm::Mdraid;
use crate::partition::{Filesystem, Partition};
use crate::swap::Swap;
use crate::zfs::ZfsPartition;

verus! {

/// The kind of partition table to write on a disk.
#[derive(Debug, PartialEq, Eq, Structural)]
pub enum TableFormat {
    Gpt,
    Msdos,
}

/// The name `parted` knows a table format by.
pub open spec fn table_format_name(f: TableFormat) -> Seq<char> {
    match f {
        TableFormat::Gpt => "gpt"@,
        TableFormat::Msdos => "msdos"@,
    }
}

impl TableFormat {
    /// The name `parted` knows this table format by.
    pub fn as_ref(&self) -> (s: &'static str)
        ensures
            s@ == table_format_name(*self),
    {
        match self {
            TableFormat::Gpt => "gpt",
            TableFormat::Msdos => "msdos",
        }
    }
}

/// What a disk, a partition or a volume holds.
#[derive(Debug)]
pub enum Content {
    Table(Table),
    Filesystem(Filesystem),
    Zfs(ZfsPartition),
    Swap(Swap),
    Btrfs(Btrfs),
    Empty,
    Mdraid(Mdraid),
    Luks(Luks),
    LvmPv(LvmPv),
}

/// A whole disk and what it holds.
#[derive(Debug)]
pub struct Disk {
    pub device: DevicePath,
    pub type_: String,
    pub content: Content,
}

/// A partition table and its partitions, in order.
#[derive(Debug)]
pub struct Table {
    pub format: TableFormat,
    pub partitions: Vec<Partition>,
}

} // verus!
