use vstd::prelude::*;

use crate::disk::Content;

verus! {

/// A partition of a partition table.
#[derive(Debug)]
pub struct Partition {
    pub type_: String,
    pub part_type: PartitionType,
    pub fs_type: Option<FilesystemType>,
    pub name: String,
    pub start: String,
    pub end: String,
    pub flags: Vec<String>,
    pub bootable: bool,
    pub content: Content,
}

/// The kind of a partition in an msdos partition table.
#[derive(Debug, PartialEq, Eq, Structural)]
pub enum PartitionType {
    Primary,
    Logical,
    Extended,
}

impl Default for PartitionType {
    fn default() -> (t: Self)
        ensures
            t == PartitionType::Primary,
    {
        PartitionType::Primary
    }
}

/// The name `parted` knows a partition type by.
pub open spec fn partition_type_name(t: PartitionType) -> Seq<char> {
    match t {
        PartitionType::Primary => "primary"@,
        PartitionType::Logical => "logical"@,
        PartitionType::Extended => "extended"@,
    }
}

impl PartitionType {
    /// The name `parted` knows this partition type by.
    pub fn as_ref(&self) -> (s: &'static str)
        ensures
            s@ == partition_type_name(*self),
    {
        match self {
            PartitionType::Primary => "primary",
            PartitionType::Logical => "logical",
            PartitionType::Extended => "extended",
        }
    }
}

/// The file system a partition is marked for.
#[derive(Debug, PartialEq, Eq, Structural)]
pub enum FilesystemType {
    Btrfs,
    Ext2,
    Ext3,
    Ext4,
    Fat16,
    Fat32,
    Hfs,
    HfsPlus,
    LinuxSwap,
    Ntfs,
    Reiserfs,
    Udf,
    Xfs,
}

/// The name a file system type is written with, as the configuration spells
/// it and `parted` takes it.
pub open spec fn filesystem_type_name(t: FilesystemType) -> Seq<char> {
    match t {
        FilesystemType::Btrfs => "btrfs"@,
        FilesystemType::Ext2 => "ext2"@,
        FilesystemType::Ext3 => "ext3"@,
        FilesystemType::Ext4 => "ext4"@,
        FilesystemType::Fat16 => "fat16"@,
        FilesystemType::Fat32 => "fat32"@,
        FilesystemType::Hfs => "hfs"@,
        FilesystemType::HfsPlus => "hfs+"@,
        FilesystemType::LinuxSwap => "linux-swap"@,
        FilesystemType::Ntfs => "ntfs"@,
        FilesystemType::Reiserfs => "reiserfs"@,
        FilesystemType::Udf => "udf"@,
        FilesystemType::Xfs => "xfs"@,
    }
}

impl FilesystemType {
    /// The name this file system type is written with.
    pub fn as_ref(&self) -> (s: &'static str)
        ensures
            s@ == filesystem_type_name(*self),
    {
        match self {
            FilesystemType::Btrfs => "btrfs",
            FilesystemType::Ext2 => "ext2",
            FilesystemType::Ext3 => "ext3",
            FilesystemType::Ext4 => "ext4",
            FilesystemType::Fat16 => "fat16",
            FilesystemType::Fat32 => "fat32",
            FilesystemType::Hfs => "hfs",
            FilesystemType::HfsPlus => "hfs+",
            FilesystemType::LinuxSwap => "linux-swap",
            FilesystemType::Ntfs => "ntfs",
            FilesystemType::Reiserfs => "reiserfs",
            FilesystemType::Udf => "udf",
            FilesystemType::Xfs => "xfs",
        }
    }
}

/// A file system to make on a device.
#[derive(Debug)]
pub struct Filesystem {
    pub format: String,
    pub mountpoint: String,
    pub options: Option<Vec<String>>,
    pub mount_options: Option<Vec<String>>,
    pub extra_args: Option<String>,
}

} // verus!
