use std::collections::HashMap;

use disko::{
    join_strings, make_zfs_options, Btrfs, Content, DevicePath, Devices, Disk, Filesystem,
    FilesystemType, Luks, LvmPv, Mdraid, Partition, PartitionType, Swap, Table, TableFormat,
    ZfsDataset, ZfsFilesystem, ZfsPartition, ZfsVolume, Zpool,
};
use indexmap::IndexMap;

const SETTLE: &str = "udevadm trigger --subsystem-match=block\nudevadm settle";

fn dev(path: &str, index: Option<u8>) -> DevicePath {
    DevicePath(path.to_string(), index)
}

fn filesystem(format: &str, extra_args: Option<&str>) -> Filesystem {
    Filesystem {
        format: format.to_string(),
        mountpoint: "/".to_string(),
        options: None,
        mount_options: None,
        extra_args: extra_args.map(|s| s.to_string()),
    }
}

fn partition(name: &str, fs_type: Option<FilesystemType>, bootable: bool, flags: &[&str], content: Content) -> Partition {
    Partition {
        type_: "partition".to_string(),
        part_type: PartitionType::Primary,
        fs_type,
        name: name.to_string(),
        start: "1MiB".to_string(),
        end: "100%".to_string(),
        flags: flags.iter().map(|f| f.to_string()).collect(),
        bootable,
        content,
    }
}

fn strings(v: &[&str]) -> Vec<String> {
    v.iter().map(|s| s.to_string()).collect()
}

#[test]
fn filesystem_script() {
    assert_eq!(
        filesystem("ext4", None).create(&dev("/dev/sda", Some(2))),
        strings(&["mkfs.ext4 \\\n    /dev/sda2\n"])
    );
    assert_eq!(
        filesystem("vfat", Some("-F 32")).create(&dev("/dev/sda", Some(1))),
        strings(&["mkfs.vfat \\\n   -F 32 /dev/sda1\n"])
    );
}

#[test]
fn swap_script() {
    assert_eq!(Swap {}.create(&dev("/dev/vdb", Some(3))), strings(&["mkswap /dev/vdb3\n"]));
}

#[test]
fn btrfs_script() {
    let b = Btrfs { mountpoint: None, subvolumes: strings(&["/home", "/test"]) };
    assert_eq!(
        b.create(&dev("/dev/sdc", None)),
        strings(&["mkfs.btrfs /dev/sdc\nMNTPOINT=$(mktemp -d)\n(\n    mount /dev/sdc \"$MNTPOINT\"\n    trap 'umount $MNTPOINT; rm -rf $MNTPOINT' EXIT\n    btrfs subvolume create \"$MNTPOINT\"//home\n    btrfs subvolume create \"$MNTPOINT\"//test\n)"])
    );
    let none = Btrfs { mountpoint: None, subvolumes: vec![] };
    assert_eq!(
        none.create(&dev("/dev/sdc", Some(2))),
        strings(&["mkfs.btrfs /dev/sdc2\nMNTPOINT=$(mktemp -d)\n(\n    mount /dev/sdc2 \"$MNTPOINT\"\n    trap 'umount $MNTPOINT; rm -rf $MNTPOINT' EXIT\n)"])
    );
    let one = Btrfs { mountpoint: None, subvolumes: strings(&["nix"]) };
    assert_eq!(
        one.create(&dev("/dev/sdc", None)),
        strings(&["mkfs.btrfs /dev/sdc\nMNTPOINT=$(mktemp -d)\n(\n    mount /dev/sdc \"$MNTPOINT\"\n    trap 'umount $MNTPOINT; rm -rf $MNTPOINT' EXIT\n    btrfs subvolume create \"$MNTPOINT\"/nix\n)"])
    );
}

#[test]
fn zfs_member_script() {
    let z = ZfsPartition { pool: "tank".to_string() };
    assert_eq!(
        z.create(&dev("/dev/sda", Some(2))),
        strings(&["ZFSDEVICES_tank=\"${ZFSDEVICES_tank:-}/dev/sda2 \"", ""])
    );
    assert_eq!(
        z.create(&dev("/dev/sdb", None)),
        strings(&["ZFSDEVICES_tank=\"${ZFSDEVICES_tank:-}/dev/sdb \""])
    );
}

#[test]
fn not_implemented_contents() {
    let d = dev("/dev/sda", None);
    assert_eq!(Content::Mdraid(Mdraid {}).create(&d), strings(&["# Mdraid(Mdraid) is not implemented yet"]));
    assert_eq!(Content::Luks(Luks {}).create(&d), strings(&["# Luks(Luks) is not implemented yet"]));
    assert_eq!(Content::LvmPv(LvmPv {}).create(&d), strings(&["# LvmPv(LvmPv) is not implemented yet"]));
    assert_eq!(Content::Empty.create(&d), Vec::<String>::new());
}

#[test]
fn gpt_partition_script() {
    let p = partition("ESP", Some(FilesystemType::Fat32), true, &["esp"], Content::Filesystem(filesystem("vfat", None)));
    assert_eq!(
        p.create(&dev("/dev/sda", None), &TableFormat::Gpt, 1),
        strings(&[
            "parted -s /dev/sda -- mkpart ESP fat32 1MiB 100%\n",
            "# ensure /dev/disk/by-path/..-partN exists before continuing",
            SETTLE,
            "parted -s /dev/sda -- set 1 boot on",
            "\nparted -s /dev/sda -- set 1 esp on",
            "",
            "# ensure further operations can detect new partitions",
            SETTLE,
            "mkfs.vfat \\\n    /dev/sda1\n",
        ])
    );
}

#[test]
fn msdos_partition_script() {
    let mut p = partition("", None, false, &[], Content::Empty);
    p.part_type = PartitionType::Logical;
    assert_eq!(
        p.create(&dev("/dev/vda", None), &TableFormat::Msdos, 5),
        strings(&[
            "parted -s /dev/vda -- mkpart logical 1MiB 100%\n",
            "# ensure /dev/disk/by-path/..-partN exists before continuing",
            SETTLE,
            "",
            "# ensure further operations can detect new partitions",
            SETTLE,
            "",
        ])
    );
    let mut q = partition("", Some(FilesystemType::LinuxSwap), false, &["lvm", "raid"], Content::Swap(Swap {}));
    q.part_type = PartitionType::Primary;
    assert_eq!(
        q.create(&dev("/dev/vda", None), &TableFormat::Msdos, 12),
        strings(&[
            "parted -s /dev/vda -- mkpart primary linux-swap linux-swap 1MiB 100%\n",
            "# ensure /dev/disk/by-path/..-partN exists before continuing",
            SETTLE,
            "\nparted -s /dev/vda -- set 12 lvm on",
            "\nparted -s /dev/vda -- set 12 raid on",
            "",
            "# ensure further operations can detect new partitions",
            SETTLE,
            "mkswap /dev/vda12\n",
        ])
    );
}

#[test]
fn table_script() {
    let t = Table {
        format: TableFormat::Gpt,
        partitions: vec![
            partition("boot", None, false, &[], Content::Empty),
            partition("zfs", None, false, &[], Content::Zfs(ZfsPartition { pool: "tank".to_string() })),
        ],
    };
    let commands = t.create(&dev("/dev/sdb", None));
    assert_eq!(commands[0], "parted -s /dev/sdb -- mklabel gpt");
    assert_eq!(commands[1], "parted -s /dev/sdb -- mkpart boot 1MiB 100%\n");
    assert_eq!(commands[7], "");
    assert_eq!(commands[8], "parted -s /dev/sdb -- mkpart zfs 1MiB 100%\n");
    assert_eq!(commands[14], "ZFSDEVICES_tank=\"${ZFSDEVICES_tank:-}/dev/sdb2 \"\n");
    assert_eq!(commands.len(), 15);
}

fn properties(entries: &[(&str, &str)]) -> IndexMap<String, String> {
    let mut m = IndexMap::new();
    for (k, v) in entries {
        m.insert(k.to_string(), v.to_string());
    }
    m
}

#[test]
fn zfs_options_text() {
    assert_eq!(make_zfs_options(&properties(&[]), "-o"), "");
    assert_eq!(make_zfs_options(&properties(&[("ashift", "12")]), "-o"), "-o ashift=12");
    assert_eq!(
        make_zfs_options(&properties(&[("compression", "lz4"), ("xattr", "sa")]), "-O"),
        "-O compression=lz4 -O xattr=sa"
    );
}

fn pool(mode: &str, datasets: IndexMap<String, ZfsDataset>) -> Zpool {
    Zpool {
        type_: "zpool".to_string(),
        mode: mode.to_string(),
        options: properties(&[("ashift", "12")]),
        root_fs_options: properties(&[("compression", "lz4"), ("com.sun:auto-snapshot", "false")]),
        mountpoint: None,
        mount_options: vec![],
        datasets,
    }
}

#[test]
fn zpool_script() {
    let mut datasets = IndexMap::new();
    datasets.insert(
        "root".to_string(),
        ZfsDataset::Filesystem(ZfsFilesystem {
            mountpoint: None,
            options: properties(&[("mountpoint", "legacy")]),
            mount_options: vec![],
        }),
    );
    datasets.insert(
        "swap".to_string(),
        ZfsDataset::Volume(ZfsVolume {
            size: "10M".to_string(),
            content: Content::Swap(Swap {}),
            options: properties(&[("volblocksize", "8k")]),
            mount_options: vec![],
        }),
    );
    let p = pool("mirror", datasets);
    assert_eq!(
        p.create("tank"),
        strings(&[
            "zpool create tank \\\n    mirror \\\n    -o ashift=12 -O compression=lz4 -O com.sun:auto-snapshot=false \\\n    ${ZFSDEVICES_tank}",
            "zfs create tank/root \\\n    -o mountpoint=legacy",
            "",
            "zfs create tank/swap \\\n    -o volblocksize=8k -V 10M",
            SETTLE,
            "mkswap /dev/zvol/tank/swap\n",
        ])
    );
    let q = pool("", IndexMap::new());
    assert_eq!(
        q.create("rpool"),
        strings(&["zpool create rpool \\\n    -o ashift=12 -O compression=lz4 -O com.sun:auto-snapshot=false \\\n    ${ZFSDEVICES_rpool}"])
    );
}

#[test]
fn devices_script() {
    let mut disk = HashMap::new();
    disk.insert(
        "main".to_string(),
        Disk {
            device: dev("/dev/sda", None),
            type_: "disk".to_string(),
            content: Content::Zfs(ZfsPartition { pool: "tank".to_string() }),
        },
    );
    let mut zpool = HashMap::new();
    zpool.insert("tank".to_string(), pool("", IndexMap::new()));
    let devices = Devices { disk, mdadm: None, zpool: Some(zpool), lvm_vg: None, nodev: None };
    let expected = strings(&[
        "#!/usr/bin/env bash\nset -efux",
        "ZFSDEVICES_tank=\"${ZFSDEVICES_tank:-}/dev/sda \"",
        "zpool create tank \\\n    -o ashift=12 -O compression=lz4 -O com.sun:auto-snapshot=false \\\n    ${ZFSDEVICES_tank}",
    ]);
    assert_eq!(devices.create(), expected);
    assert_eq!(devices.create_checked(), Some(expected));
}

#[test]
fn nested_table_is_refused() {
    let inner = Table { format: TableFormat::Msdos, partitions: vec![] };
    let outer = Table {
        format: TableFormat::Gpt,
        partitions: vec![partition("x", None, false, &[], Content::Table(inner))],
    };
    let mut disk = HashMap::new();
    disk.insert(
        "main".to_string(),
        Disk { device: dev("/dev/sda", None), type_: "disk".to_string(), content: Content::Table(outer) },
    );
    let devices = Devices { disk, mdadm: None, zpool: None, lvm_vg: None, nodev: None };
    assert_eq!(devices.create_checked(), None);
}

#[test]
fn nested_table_on_volume_is_refused() {
    let inner = Table {
        format: TableFormat::Gpt,
        partitions: vec![partition("x", None, false, &[], Content::Table(Table { format: TableFormat::Gpt, partitions: vec![] }))],
    };
    let mut datasets = IndexMap::new();
    datasets.insert(
        "vol".to_string(),
        ZfsDataset::Volume(ZfsVolume {
            size: "1G".to_string(),
            content: Content::Table(inner),
            options: properties(&[]),
            mount_options: vec![],
        }),
    );
    let mut zpool = HashMap::new();
    zpool.insert("tank".to_string(), pool("", datasets));
    let devices = Devices { disk: HashMap::new(), mdadm: None, zpool: Some(zpool), lvm_vg: None, nodev: None };
    assert_eq!(devices.create_checked(), None);
}

#[test]
fn disks_and_pools_in_name_order() {
    let mut disk = HashMap::new();
    for (name, path) in [("c", "/dev/sdc"), ("a", "/dev/sda"), ("b", "/dev/sdb"), ("aa", "/dev/sdd")] {
        disk.insert(
            name.to_string(),
            Disk { device: dev(path, None), type_: "disk".to_string(), content: Content::Swap(Swap {}) },
        );
    }
    let mut zpool = HashMap::new();
    zpool.insert("zz".to_string(), pool("", IndexMap::new()));
    zpool.insert("tank".to_string(), pool("", IndexMap::new()));
    let devices = Devices { disk, mdadm: None, zpool: Some(zpool), lvm_vg: None, nodev: None };
    let commands = devices.create();
    assert_eq!(
        commands[..5].to_vec(),
        strings(&[
            "#!/usr/bin/env bash\nset -efux",
            "mkswap /dev/sda\n",
            "mkswap /dev/sdd\n",
            "mkswap /dev/sdb\n",
            "mkswap /dev/sdc\n",
        ])
    );
    assert!(commands[5].starts_with("zpool create tank "));
    assert!(commands[6].starts_with("zpool create zz "));
    assert_eq!(commands.len(), 7);
}

fn gpt_partition(name: &str, start: &str, end: &str, fs_type: Option<FilesystemType>, bootable: bool, content: Content) -> Partition {
    Partition {
        type_: "partition".to_string(),
        part_type: PartitionType::Primary,
        fs_type,
        name: name.to_string(),
        start: start.to_string(),
        end: end.to_string(),
        flags: vec![],
        bootable,
        content,
    }
}

fn zfs_member(pool: &str) -> Content {
    Content::Zfs(ZfsPartition { pool: pool.to_string() })
}

fn dataset_fs(options: &[(&str, &str)]) -> ZfsDataset {
    ZfsDataset::Filesystem(ZfsFilesystem { mountpoint: None, options: properties(options), mount_options: vec![] })
}

/// The layout of disko's zfs example: two disks mirrored into one pool with
/// file systems and a volume.
#[test]
fn create_script_for_zfs_example() {
    let mut disk = HashMap::new();
    disk.insert(
        "x".to_string(),
        Disk {
            device: dev("/dev/vdb", None),
            type_: "disk".to_string(),
            content: Content::Table(Table {
                format: TableFormat::Gpt,
                partitions: vec![
                    gpt_partition("ESP", "0", "64MiB", Some(FilesystemType::Fat32), true, Content::Filesystem(filesystem("vfat", None))),
                    gpt_partition("zfs", "128MiB", "100%", None, false, zfs_member("zroot")),
                ],
            }),
        },
    );
    disk.insert(
        "y".to_string(),
        Disk {
            device: dev("/dev/vdc", None),
            type_: "disk".to_string(),
            content: Content::Table(Table {
                format: TableFormat::Gpt,
                partitions: vec![gpt_partition("zfs", "128MiB", "100%", None, false, zfs_member("zroot"))],
            }),
        },
    );
    let mut datasets = IndexMap::new();
    datasets.insert("zfs_fs".to_string(), dataset_fs(&[("com.sun:auto-snapshot", "true")]));
    datasets.insert("zfs_legacy_fs".to_string(), dataset_fs(&[("mountpoint", "legacy")]));
    datasets.insert(
        "zfs_testvolume".to_string(),
        ZfsDataset::Volume(ZfsVolume {
            size: "10M".to_string(),
            content: Content::Filesystem(filesystem("ext4", None)),
            options: properties(&[]),
            mount_options: vec![],
        }),
    );
    datasets.insert("zfs_unmounted_fs".to_string(), dataset_fs(&[("mountpoint", "none")]));
    let mut zpool = HashMap::new();
    zpool.insert(
        "zroot".to_string(),
        Zpool {
            type_: "zpool".to_string(),
            mode: "mirror".to_string(),
            options: properties(&[]),
            root_fs_options: properties(&[("com.sun:auto-snapshot", "false"), ("compression", "lz4")]),
            mountpoint: Some("/".to_string()),
            mount_options: vec![],
            datasets,
        },
    );
    let devices = Devices { disk, mdadm: None, zpool: Some(zpool), lvm_vg: None, nodev: None };
    let expected = strings(&[
        "#!/usr/bin/env bash\nset -efux",
        "parted -s /dev/vdb -- mklabel gpt",
        "parted -s /dev/vdb -- mkpart ESP fat32 0 64MiB\n",
        "# ensure /dev/disk/by-path/..-partN exists before continuing",
        SETTLE,
        "parted -s /dev/vdb -- set 1 boot on",
        "",
        "# ensure further operations can detect new partitions",
        SETTLE,
        "mkfs.vfat \\\n    /dev/vdb1\n",
        "parted -s /dev/vdb -- mkpart zfs 128MiB 100%\n",
        "# ensure /dev/disk/by-path/..-partN exists before continuing",
        SETTLE,
        "",
        "# ensure further operations can detect new partitions",
        SETTLE,
        "ZFSDEVICES_zroot=\"${ZFSDEVICES_zroot:-}/dev/vdb2 \"\n",
        "parted -s /dev/vdc -- mklabel gpt",
        "parted -s /dev/vdc -- mkpart zfs 128MiB 100%\n",
        "# ensure /dev/disk/by-path/..-partN exists before continuing",
        SETTLE,
        "",
        "# ensure further operations can detect new partitions",
        SETTLE,
        "ZFSDEVICES_zroot=\"${ZFSDEVICES_zroot:-}/dev/vdc1 \"\n",
        "zpool create zroot \\\n    mirror \\\n    -O com.sun:auto-snapshot=false -O compression=lz4 \\\n    ${ZFSDEVICES_zroot}",
        "zfs create zroot/zfs_fs \\\n    -o com.sun:auto-snapshot=true",
        "",
        "zfs create zroot/zfs_legacy_fs \\\n    -o mountpoint=legacy",
        "",
        "zfs create zroot/zfs_testvolume \\\n    -V 10M",
        SETTLE,
        "mkfs.ext4 \\\n    /dev/zvol/zroot/zfs_testvolume\n",
        "zfs create zroot/zfs_unmounted_fs \\\n    -o mountpoint=none",
        "",
    ]);
    assert_eq!(devices.create(), expected);
    assert_eq!(devices.create_checked(), Some(expected));
}

#[test]
fn joined_text() {
    assert_eq!(join_strings(&strings(&[]), "\n"), "");
    assert_eq!(join_strings(&strings(&["a"]), "\n"), "a");
    assert_eq!(join_strings(&strings(&["a", "", "b"]), ", "), "a, , b");
}

#[test]
fn gpt_swap_partition_keeps_configured_type_name() {
    let mut p = gpt_partition("swap", "-8GiB", "100%", Some(FilesystemType::LinuxSwap), false, Content::Swap(Swap {}));
    p.part_type = PartitionType::Extended;
    let commands = p.create(&dev("/dev/sda", None), &TableFormat::Gpt, 3);
    assert_eq!(commands[0], "parted -s /dev/sda -- mkpart swap linux-swap -8GiB 100%\n");
    assert_eq!(commands[commands.len() - 1], "mkswap /dev/sda3\n");
    let hfs = gpt_partition("mac", "1MiB", "2GiB", Some(FilesystemType::HfsPlus), false, Content::Empty);
    assert_eq!(
        hfs.create(&dev("/dev/disk/by-id/d", None), &TableFormat::Gpt, 1)[0],
        "parted -s /dev/disk/by-id/d -- mkpart mac hfs+ 1MiB 2GiB\n"
    );
}
