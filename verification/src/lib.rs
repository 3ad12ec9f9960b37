//! Shell scripts that partition and format disks, built from a declarative
//! description of the disk layout.
mod btrfs;
mod create;
mod device;
mod disk;
mod laws;
mod luks;
mod lvm;
mod mdadm;
mod nodev;
mod partition;
mod script_laws;
mod swap;
mod text;
mod zfs;

pub use btrfs::Btrfs;
pub use create::{
    check_content, check_dataset, check_zpool,
    devices_commands, devices_ok, devices_script, disk_ok, disks_commands, lists_pools,
    script_header, zpools_commands,
    btrfs_commands, content_commands, content_ok, filesystem_commands, flag_command,
    fs_type_text, mkpart_candidates, not_implemented_commands, partition_commands,
    partition_device, partitions_commands, swap_commands, table_commands, udev_settle,
    zfs_partition_commands, dataset_commands, join_two, spaced, subvolume_line, subvolume_lines,
    volume_device, dataset_ok, datasets_commands, mode_text, volume_ok,
    volume_path, volume_path_text, zfs_create_head, zfs_filesystem_commands, zfs_volume_commands,
    zpool_commands, zpool_create_command, zpool_ok,
};
pub use device::{
    device_path_from_groups, sorted_by_name, is_disk_link, partition_separator, lists_map, owned_entries, Devices, device_patterns, device_text, first_capture, groups_view,
    parse_device_path, path_from_groups, regex_capture_groups, regex_compiles, DevicePath,
    DevicePathError,
};
pub use disk::{table_format_name, Content, Disk, Table, TableFormat};
pub use laws::{
    law_partition_command_count, law_script_depends_on_contents, law_sorted_listing_unique,
    law_table_format_ignores, law_partition_number_reads_back, law_partition_text,
    law_pool_reads_member_devices,
};
pub use luks::Luks;
pub use lvm::{LvmPv, LvmVg};
pub use mdadm::{Mdadm, Mdraid};
pub use nodev::Nodev;
pub use partition::{
    filesystem_type_name, partition_type_name, Filesystem, FilesystemType, Partition,
    PartitionType,
};
pub use script_laws::{
    law_content_commands, law_device_path_first_match, law_device_patterns, law_device_text,
    law_devices_script, law_groups_read_back, law_join, law_keep_nonempty, law_parse_u8,
    law_path_from_groups, law_subvolume_lines, law_text_order, law_type_names, law_zpool_datasets, law_options_text_grows, law_partition_mkpart_line,
    law_partition_numbered, law_table_label_and_numbering, law_zfs_filesystem_create,
    law_zfs_volume_create, law_zpool_create_line,
};
pub use swap::Swap;
pub use text::{
    all_digits, append_texts, decimal, digit_char, digits_value, is_digit, join, join_strings,
    keep_nonempty, lemma_text_lt_irreflexive, lemma_text_lt_total, lemma_text_lt_transitive,
    nonempty_strings, starts_with, text_less, text_lt, parse_u8, parse_u8_spec, push_decimal, push_text, views,
};
pub use zfs::{
    dataset_entries, make_zfs_options, properties_text, property_argument, property_entries,
    ZfsDataset, ZfsFilesystem, ZfsPartition, ZfsVolume, Zpool,
};
