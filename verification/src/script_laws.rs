use vstd::prelude::*;

use crate::create::{
    content_commands, datasets_commands, devices_commands, disks_commands, fs_type_text,
    partition_commands, partitions_commands, subvolume_lines, table_commands,
    zfs_filesystem_commands, zfs_volume_commands, zpool_commands, zpools_commands,
};
use crate::device::{
    device_patterns, device_text, first_capture, parse_device_path, path_from_groups,
    regex_capture_groups, regex_compiles, DevicePathError,
};
use crate::disk::{table_format_name, Content, Disk, Table, TableFormat};
use crate::partition::{filesystem_type_name, partition_type_name, FilesystemType, Partition, PartitionType};
use crate::text::{all_digits, decimal, digits_value, join, keep_nonempty, parse_u8_spec, text_lt};
use crate::zfs::{
    dataset_entries, properties_text, property_argument, property_entries, ZfsDataset,
    ZfsFilesystem, ZfsVolume, Zpool,
};

verus! {

/// The options text of no options is empty; each further option adds a
/// space (after an earlier one), then `flag name=value`.
pub proof fn law_options_text_grows(
    entries: Seq<(Seq<char>, Seq<char>)>,
    e: (Seq<char>, Seq<char>),
    flag: Seq<char>,
)
    ensures
        properties_text(Seq::empty(), flag) == Seq::<char>::empty(),
        properties_text(entries.push(e), flag) == properties_text(entries, flag) + (if entries.len()
            > 0 {
            " "@
        } else {
            Seq::<char>::empty()
        }) + flag + " "@ + e.0 + "="@ + e.1,
{
    let f = |x: (Seq<char>, Seq<char>)| property_argument(flag, x);
    let parts = entries.map_values(f);
    let more = entries.push(e).map_values(f);
    assert(more.drop_last() =~= parts);
    assert(more.last() == property_argument(flag, e));
    assert(Seq::<(Seq<char>, Seq<char>)>::empty().map_values(f) =~= Seq::<Seq<char>>::empty());
    assert(properties_text(entries, flag) == join(parts, " "@));
    assert(properties_text(entries.push(e), flag) == join(more, " "@));
    if entries.len() == 0 {
        assert(more =~= seq![property_argument(flag, e)]);
        assert(Seq::<char>::empty() + flag + " "@ + e.0 + "="@ + e.1 =~= property_argument(flag, e));
    } else {
        assert(join(more, " "@) == join(parts, " "@) + " "@ + property_argument(flag, e));
    }
}

/// The line that creates a pool: the pool's name, its mode where it has one,
/// every `-o` option, then every `-O` option (a space between the two groups
/// where both are there), and the member devices gathered for it. Neither
/// group of options depends on the other.
pub proof fn law_zpool_create_line(p: Zpool, name: Seq<char>)
    ensures
        ({
            let o = properties_text(property_entries(p.options), "-o"@);
            let r = properties_text(property_entries(p.root_fs_options), "-O"@);
            &&& zpool_commands(p, name).len() >= 1
            &&& zpool_commands(p, name)[0] == "zpool create "@ + name + " \\\n    "@ + (if p.mode@.len()
                > 0 {
                p.mode@ + " \\\n    "@
            } else {
                Seq::<char>::empty()
            }) + o + (if o.len() > 0 && r.len() > 0 {
                " "@
            } else {
                Seq::<char>::empty()
            }) + r + " \\\n    ${ZFSDEVICES_"@ + name + "}"@
        }),
{
    let o = properties_text(property_entries(p.options), "-o"@);
    let r = properties_text(property_entries(p.root_fs_options), "-O"@);
    if p.mode@.len() == 0 {
        assert(p.mode@ =~= Seq::<char>::empty());
    }
    assert(o + Seq::<char>::empty() + r =~= o + r);
}

/// A file system dataset is created by one command that names the pool and
/// the dataset, whatever its options, followed by an empty line.
pub proof fn law_zfs_filesystem_create(f: ZfsFilesystem, zpool: Seq<char>, dataset: Seq<char>)
    ensures
        ({
            let c = zfs_filesystem_commands(f, zpool, dataset);
            let head = "zfs create "@ + zpool + "/"@ + dataset;
            &&& c.len() == 2
            &&& c[0].len() > head.len()
            &&& c[0].take(head.len() as int) == head
            &&& c[0] == head + " \\\n    "@ + properties_text(property_entries(f.options), "-o"@)
            &&& c[1] == Seq::<char>::empty()
        }),
{
    reveal_strlit(" \\\n    ");
    let head = "zfs create "@ + zpool + "/"@ + dataset;
    let c0 = zfs_filesystem_commands(f, zpool, dataset)[0];
    assert(c0 =~= head + (" \\\n    "@ + properties_text(property_entries(f.options), "-o"@)));
    assert(c0.take(head.len() as int) =~= head);
}

/// A volume is created with its options and size, the kernel is waited for,
/// and what it holds is made on the whole device `/dev/zvol/<pool>/<dataset>`.
pub proof fn law_zfs_volume_create(v: ZfsVolume, zpool: Seq<char>, dataset: Seq<char>)
    ensures
        ({
            let c = zfs_volume_commands(v, zpool, dataset);
            let o = properties_text(property_entries(v.options), "-o"@);
            &&& c[0] == "zfs create "@ + zpool + "/"@ + dataset + " \\\n    "@ + (if o.len() > 0 {
                o + " "@
            } else {
                o
            }) + "-V "@ + v.size@
            &&& c[1] == "udevadm trigger --subsystem-match=block\nudevadm settle"@
            &&& c.skip(2) == content_commands(v.content, ("/dev/zvol/"@ + zpool + "/"@ + dataset, None))
        }),
{
    reveal_strlit("/dev/zvol/");
    reveal_strlit("/dev/zvol");
    reveal_strlit("/");
    let c = zfs_volume_commands(v, zpool, dataset);
    assert("/dev/zvol/"@ + zpool + "/"@ + dataset =~= "/dev/zvol"@ + "/"@ + zpool + "/"@ + dataset);
    assert(c.skip(2) =~= content_commands(v.content, ("/dev/zvol/"@ + zpool + "/"@ + dataset, None)));
}

/// A table's script starts by writing a label of the table's own format on
/// the device, then makes its partitions, in the table's format, numbered
/// 1, 2, ... in order: adding a partition at
/// the end adds its commands, numbered one past the others, at the end.
pub proof fn law_table_label_and_numbering(
    t: Table,
    dev: (Seq<char>, Option<u8>),
    ps: Seq<Partition>,
    p: Partition,
    format: TableFormat,
)
    ensures
        table_commands(t, dev)[0] == "parted -s "@ + device_text(dev) + " -- mklabel "@ + match t.format {
            TableFormat::Gpt => "gpt"@,
            TableFormat::Msdos => "msdos"@,
        },
        "gpt"@ != "msdos"@,
        table_commands(t, dev).skip(1) == partitions_commands(t.partitions@, dev, t.format),
        partitions_commands(Seq::empty(), dev, format) == Seq::<Seq<char>>::empty(),
        partitions_commands(ps.push(p), dev, format) == partitions_commands(ps, dev, format)
            + partition_commands(p, dev, format, (ps.len() + 1) as u8),
{
    reveal_strlit("gpt");
    reveal_strlit("msdos");
    assert("gpt"@.len() != "msdos"@.len());
    assert(ps.push(p).drop_last() =~= ps);
    assert(table_commands(t, dev).skip(1) =~= partitions_commands(t.partitions@, dev, t.format));
}

/// The `parted mkpart` line of a partition: the words that are not empty
/// among, in a gpt table, the name, the file system type, start and end, and
/// in an msdos table, the partition type, the file system type twice, start
/// and end.
pub proof fn law_partition_mkpart_line(p: Partition, dev: (Seq<char>, Option<u8>), format: TableFormat, n: u8)
    ensures
        ({
            let fs = fs_type_text(p.fs_type);
            let words = match format {
                TableFormat::Gpt => seq![p.name@, fs, p.start@, p.end@],
                TableFormat::Msdos => seq![
                    match p.part_type {
                        PartitionType::Primary => "primary"@,
                        PartitionType::Logical => "logical"@,
                        PartitionType::Extended => "extended"@,
                    },
                    fs,
                    fs,
                    p.start@,
                    p.end@,
                ],
            };
            partition_commands(p, dev, format, n)[0] == "parted -s "@ + device_text(dev)
                + " -- mkpart "@ + join(keep_nonempty(words), " "@) + "\n"@
        }),
{
}

/// The commands of partition `n`: the mkpart line, a comment and a wait;
/// the boot flag set on partition `n` where it is bootable; each of its flags
/// set on partition `n`, in order; an empty line, a comment and a wait; and
/// what it holds, made on partition `n` of the device.
pub proof fn law_partition_numbered(p: Partition, dev: (Seq<char>, Option<u8>), format: TableFormat, n: u8)
    ensures
        ({
            let c = partition_commands(p, dev, format, n);
            let d = device_text(dev);
            let b: int = if p.bootable {
                1
            } else {
                0
            };
            let k = p.flags@.len() as int;
            let settle = "udevadm trigger --subsystem-match=block\nudevadm settle"@;
            &&& c.len() == 7 + b + k
            &&& c[1] == "# ensure /dev/disk/by-path/..-partN exists before continuing"@
            &&& c[2] == settle
            &&& p.bootable ==> c[3] == "parted -s "@ + d + " -- set "@ + decimal(n as nat) + " boot on"@
            &&& forall|j: int|
                0 <= j < k ==> #[trigger] c[3 + b + j] == "\nparted -s "@ + d + " -- set "@ + decimal(
                    n as nat,
                ) + " "@ + p.flags@[j]@ + " on"@
            &&& c[3 + b + k] == Seq::<char>::empty()
            &&& c[4 + b + k] == "# ensure further operations can detect new partitions"@
            &&& c[5 + b + k] == settle
            &&& c[6 + b + k] == join(content_commands(p.content, (dev.0, Some(n))), "\n"@)
        }),
{
}

/// The device patterns are, in order: `/dev/sd*` and `/dev/vd*` paths with
/// what follows them, any path under `/dev/disk/` ending in `-part` and an
/// optional number, and any path under `/dev/disk/`.
pub proof fn law_device_patterns()
    ensures
        device_patterns() == seq![
            "(/dev/[vs]d[a-z]+)(.*)"@,
            "(/dev/disk/.+)-part(\\d+)?"@,
            "(/dev/disk/.+)?"@,
        ],
{
}

/// Where a pattern captures a path and, after it, the decimal text of a
/// partition number, the device path read is that path and number; where it
/// captures no number, that path and no number. So the text a device path is
/// written as reads back once the pattern splits it there.
pub proof fn law_groups_read_back(whole: Seq<char>, path: Seq<char>, n: u8)
    ensures
        path_from_groups(seq![Some(whole), Some(path), Some(decimal(n as nat))]) == Ok::<
            (Seq<char>, Option<u8>),
            DevicePathError,
        >((path, Some(n))),
        path_from_groups(seq![Some(whole), Some(path), None]) == Ok::<
            (Seq<char>, Option<u8>),
            DevicePathError,
        >((path, None)),
        path_from_groups(seq![Some(whole), Some(path)]) == Ok::<
            (Seq<char>, Option<u8>),
            DevicePathError,
        >((path, None)),
{
    crate::laws::law_partition_number_reads_back(n);
}

/// What each kind of content makes on a device `d`: a file system with
/// `mkfs.<format>` and its extra arguments, a swap area with `mkswap`, a
/// pool member by adding the device to the pool's variable (and an empty line
/// after a partition), a btrfs file system with one subvolume line each,
/// nothing for no content, and a comment for contents not made yet.
pub proof fn law_content_commands(c: Content, dev: (Seq<char>, Option<u8>))
    ensures
        ({
            let d = device_text(dev);
            match c {
                Content::Empty => content_commands(c, dev) == Seq::<Seq<char>>::empty(),
                Content::Swap(_) => content_commands(c, dev) == seq!["mkswap "@ + d + "\n"@],
                Content::Filesystem(f) => content_commands(c, dev) == seq![
                    "mkfs."@ + f.format@ + " \\\n   "@ + (match f.extra_args {
                        Some(a) => a@,
                        None => Seq::<char>::empty(),
                    }) + " "@ + d + "\n"@,
                ],
                Content::Zfs(z) => {
                    let line = "ZFSDEVICES_"@ + z.pool@ + "=\"${ZFSDEVICES_"@ + z.pool@ + ":-}"@ + d
                        + " \""@;
                    content_commands(c, dev) == if dev.1 is Some {
                        seq![line, Seq::<char>::empty()]
                    } else {
                        seq![line]
                    }
                },
                Content::Btrfs(b) => content_commands(c, dev) == seq![
                    "mkfs.btrfs "@ + d + "\nMNTPOINT=$(mktemp -d)\n(\n    mount "@ + d
                        + " \"$MNTPOINT\"\n    trap 'umount $MNTPOINT; rm -rf $MNTPOINT' EXIT"@
                        + subvolume_lines(b.subvolumes@) + "\n)"@,
                ],
                Content::Mdraid(_) => content_commands(c, dev) == seq![
                    "# Mdraid(Mdraid) is not implemented yet"@,
                ],
                Content::Luks(_) => content_commands(c, dev) == seq![
                    "# Luks(Luks) is not implemented yet"@,
                ],
                Content::LvmPv(_) => content_commands(c, dev) == seq![
                    "# LvmPv(LvmPv) is not implemented yet"@,
                ],
                Content::Table(t) => content_commands(c, dev) == table_commands(t, dev),
            }
        }),
{
    reveal_strlit("# ");
    reveal_strlit("(");
    reveal_strlit(") is not implemented yet");
    reveal_strlit("Mdraid");
    reveal_strlit("Luks");
    reveal_strlit("LvmPv");
    reveal_strlit("# Mdraid(Mdraid) is not implemented yet");
    reveal_strlit("# Luks(Luks) is not implemented yet");
    reveal_strlit("# LvmPv(LvmPv) is not implemented yet");
    match c {
        Content::Mdraid(_) => {
            assert("# "@ + "Mdraid"@ + "("@ + "Mdraid"@ + ") is not implemented yet"@
                =~= "# Mdraid(Mdraid) is not implemented yet"@);
        },
        Content::Luks(_) => {
            assert("# "@ + "Luks"@ + "("@ + "Luks"@ + ") is not implemented yet"@
                =~= "# Luks(Luks) is not implemented yet"@);
        },
        Content::LvmPv(_) => {
            assert("# "@ + "LvmPv"@ + "("@ + "LvmPv"@ + ") is not implemented yet"@
                =~= "# LvmPv(LvmPv) is not implemented yet"@);
        },
        _ => {},
    }
}

/// No subvolumes give no lines; each further subvolume `s` adds the line
/// `    btrfs subvolume create "$MNTPOINT"/<s>` at the end.
pub proof fn law_subvolume_lines(names: Seq<String>, s: String)
    ensures
        subvolume_lines(Seq::empty()) == Seq::<char>::empty(),
        subvolume_lines(names.push(s)) == subvolume_lines(names)
            + "\n    btrfs subvolume create \"$MNTPOINT\"/"@ + s@,
{
    assert(names.push(s).drop_last() =~= names);
}

/// A device path is written as its path alone where it names a whole device;
/// a partition as the path, then `-part` exactly where the path begins with
/// `/dev/disk/`, then the partition number in decimal.
pub proof fn law_device_text(path: Seq<char>, n: u8)
    ensures
        device_text((path, None)) == path,
        device_text((path, Some(n))) == path + (if "/dev/disk/"@.len() <= path.len() && path.take(
            "/dev/disk/"@.len() as int,
        ) == "/dev/disk/"@ {
            "-part"@
        } else {
            Seq::<char>::empty()
        }) + decimal(n as nat),
{
    assert(device_text((path, None)) =~= path);
}

/// Which device path a text denotes: the first of the three device patterns
/// that matches it decides, in order; where a pattern tried on the way does
/// not compile, that is the error; where none matches, there is no match.
pub proof fn law_device_path_first_match(t: Seq<char>)
    ensures
        ({
            let p = device_patterns();
            let g0 = regex_capture_groups(p[0], t);
            let g1 = regex_capture_groups(p[1], t);
            let g2 = regex_capture_groups(p[2], t);
            parse_device_path(t) == if !regex_compiles(p[0]) {
                Err(DevicePathError::InvalidPattern)
            } else if g0 is Some {
                path_from_groups(g0->0)
            } else if !regex_compiles(p[1]) {
                Err(DevicePathError::InvalidPattern)
            } else if g1 is Some {
                path_from_groups(g1->0)
            } else if !regex_compiles(p[2]) {
                Err(DevicePathError::InvalidPattern)
            } else if g2 is Some {
                path_from_groups(g2->0)
            } else {
                Err(DevicePathError::NoMatch)
            }
        }),
{
    let p = device_patterns();
    reveal_with_fuel(first_capture, 4);
    assert(p.drop_first()[0] == p[1]);
    assert(p.drop_first().drop_first()[0] == p[2]);
    assert(p.drop_first().drop_first().drop_first() =~= Seq::<Seq<char>>::empty());
}

/// The device path read from captured groups: group 1 is the path; group 2,
/// where captured, is read as a partition number, and no number where it
/// does not read as one; with no group 1 there is no path.
pub proof fn law_path_from_groups(groups: Seq<Option<Seq<char>>>)
    ensures
        groups.len() <= 1 || groups[1] is None ==> path_from_groups(groups) == Err::<
            (Seq<char>, Option<u8>),
            DevicePathError,
        >(DevicePathError::NoPath),
        groups.len() > 1 && groups[1] is Some ==> path_from_groups(groups) == Ok::<
            (Seq<char>, Option<u8>),
            DevicePathError,
        >(
            (
                groups[1]->0,
                if groups.len() > 2 && groups[2] is Some {
                    parse_u8_spec(groups[2]->0)
                } else {
                    None
                },
            ),
        ),
{
}

/// A byte reads back from its decimal notation with or without a leading
/// `+`; an empty text, a lone sign, a minus sign or a text with a character
/// that is not a digit reads as no byte.
pub proof fn law_parse_u8(n: u8, s: Seq<char>, i: int)
    ensures
        parse_u8_spec(decimal(n as nat)) == Some(n),
        parse_u8_spec(seq!['+'] + decimal(n as nat)) == Some(n),
        parse_u8_spec(Seq::empty()) == None::<u8>,
        parse_u8_spec(seq!['+']) == None::<u8>,
        parse_u8_spec(seq!['-'] + s) == None::<u8>,
        0 <= i < s.len() && !('0' <= s[i] && s[i] <= '9') && (i > 0 || s[0] != '+')
            ==> parse_u8_spec(s) == None::<u8>,
{
    crate::laws::law_partition_number_reads_back(n);
    let plus = seq!['+'] + decimal(n as nat);
    assert(plus[0] == '+');
    assert(plus.len() > 0);
    crate::laws::lemma_decimal_value(n as nat);
    assert(plus.drop_first() =~= decimal(n as nat));
    let body = plus.drop_first();
    assert(body.len() > 0 && all_digits(body) && digits_value(body) == n as nat);
    assert(parse_u8_spec(plus) == Some(n));
    assert((seq!['-'] + s)[0] == '-');
    assert(!crate::text::is_digit((seq!['-'] + s)[0]));
    if 0 <= i < s.len() && !('0' <= s[i] && s[i] <= '9') && (i > 0 || s[0] != '+') {
        if s[0] == '+' {
            assert(s.drop_first()[i - 1] == s[i]);
            assert(!crate::text::is_digit(s.drop_first()[i - 1]));
        } else {
            assert(!crate::text::is_digit(s[i]));
        }
    }
}

/// Joining no parts gives nothing; joining one more part adds the separator
/// (after an earlier part) and the part.
pub proof fn law_join(parts: Seq<Seq<char>>, x: Seq<char>, sep: Seq<char>)
    ensures
        join(Seq::empty(), sep) == Seq::<char>::empty(),
        join(parts.push(x), sep) == join(parts, sep) + (if parts.len() > 0 {
            sep
        } else {
            Seq::<char>::empty()
        }) + x,
{
    assert(parts.push(x).drop_last() =~= parts);
    if parts.len() == 0 {
        assert(parts.push(x) =~= seq![x]);
        assert(Seq::<char>::empty() + Seq::<char>::empty() + x =~= x);
    }
}

/// Keeping the non-empty texts keeps none of nothing; one more text is kept
/// at the end exactly when it is not empty.
pub proof fn law_keep_nonempty(parts: Seq<Seq<char>>, x: Seq<char>)
    ensures
        keep_nonempty(Seq::empty()) == Seq::<Seq<char>>::empty(),
        keep_nonempty(parts.push(x)) == if x.len() > 0 {
            keep_nonempty(parts).push(x)
        } else {
            keep_nonempty(parts)
        },
{
    assert(parts.push(x).drop_last() =~= parts);
}

/// A pool's commands are its create line followed by its datasets' commands
/// in the map's order; one more dataset adds its commands at the end: a file
/// system's, or a volume's.
pub proof fn law_zpool_datasets(
    p: Zpool,
    name: Seq<char>,
    entries: Seq<(Seq<char>, ZfsDataset)>,
    e: (Seq<char>, ZfsDataset),
)
    ensures
        zpool_commands(p, name).skip(1) == datasets_commands(dataset_entries(p.datasets), name),
        datasets_commands(Seq::empty(), name) == Seq::<Seq<char>>::empty(),
        datasets_commands(entries.push(e), name) == datasets_commands(entries, name) + match e.1 {
            ZfsDataset::Filesystem(f) => zfs_filesystem_commands(f, name, e.0),
            ZfsDataset::Volume(v) => zfs_volume_commands(v, name, e.0),
        },
{
    assert(entries.push(e).drop_last() =~= entries);
    assert(zpool_commands(p, name).skip(1) =~= datasets_commands(dataset_entries(p.datasets), name));
}

/// The whole script starts with the interpreter line and the options that
/// stop at the first error and trace each command; then come the disks'
/// commands, each disk's after the ones before it, and then the pools'.
pub proof fn law_devices_script(
    disks: Seq<(String, Disk)>,
    pools: Seq<(String, Zpool)>,
    d: (String, Disk),
    z: (String, Zpool),
)
    ensures
        devices_commands(disks, pools)[0] == "#!/usr/bin/env bash\nset -efux"@,
        devices_commands(disks, pools) == seq!["#!/usr/bin/env bash\nset -efux"@] + disks_commands(
            disks,
        ) + zpools_commands(pools),
        disks_commands(Seq::empty()) == Seq::<Seq<char>>::empty(),
        disks_commands(disks.push(d)) == disks_commands(disks) + content_commands(
            d.1.content,
            d.1.device@,
        ),
        zpools_commands(Seq::empty()) == Seq::<Seq<char>>::empty(),
        zpools_commands(pools.push(z)) == zpools_commands(pools) + zpool_commands(z.1, z.0@),
{
    assert(disks.push(d).drop_last() =~= disks);
    assert(pools.push(z).drop_last() =~= pools);
}

/// The names written for the kinds of table, partition and file system: the
/// configuration's spellings, which `parted` takes.
pub proof fn law_type_names()
    ensures
        table_format_name(TableFormat::Gpt) == "gpt"@,
        table_format_name(TableFormat::Msdos) == "msdos"@,
        partition_type_name(PartitionType::Primary) == "primary"@,
        partition_type_name(PartitionType::Logical) == "logical"@,
        partition_type_name(PartitionType::Extended) == "extended"@,
        filesystem_type_name(FilesystemType::Btrfs) == "btrfs"@,
        filesystem_type_name(FilesystemType::Ext2) == "ext2"@,
        filesystem_type_name(FilesystemType::Ext3) == "ext3"@,
        filesystem_type_name(FilesystemType::Ext4) == "ext4"@,
        filesystem_type_name(FilesystemType::Fat16) == "fat16"@,
        filesystem_type_name(FilesystemType::Fat32) == "fat32"@,
        filesystem_type_name(FilesystemType::Hfs) == "hfs"@,
        filesystem_type_name(FilesystemType::HfsPlus) == "hfs+"@,
        filesystem_type_name(FilesystemType::LinuxSwap) == "linux-swap"@,
        filesystem_type_name(FilesystemType::Ntfs) == "ntfs"@,
        filesystem_type_name(FilesystemType::Reiserfs) == "reiserfs"@,
        filesystem_type_name(FilesystemType::Udf) == "udf"@,
        filesystem_type_name(FilesystemType::Xfs) == "xfs"@,
        fs_type_text(None) == Seq::<char>::empty(),
        forall|f: FilesystemType| fs_type_text(Some(f)) == #[trigger] filesystem_type_name(f),
{
}

/// Texts are ordered by their first differing character, and a proper
/// prefix comes before the longer text.
pub proof fn law_text_order(a: Seq<char>, b: Seq<char>, x: Seq<char>, y: Seq<char>, c1: char, c2: char)
    ensures
        c1 < c2 ==> text_lt(a + seq![c1] + x, a + seq![c2] + y),
        text_lt(a, a + b) <==> b.len() > 0,
    decreases a.len(),
{
    if a.len() > 0 {
        law_text_order(a.drop_first(), b, x, y, c1, c2);
        assert((a + seq![c1] + x).drop_first() =~= a.drop_first() + seq![c1] + x);
        assert((a + seq![c2] + y).drop_first() =~= a.drop_first() + seq![c2] + y);
        assert((a + b).drop_first() =~= a.drop_first() + b);
    } else {
        assert(a + seq![c1] + x =~= seq![c1] + x);
        assert(a + seq![c2] + y =~= seq![c2] + y);
        assert(a + b =~= b);
    }
}

} // verus!
