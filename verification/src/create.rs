use vstd::prelude::*;

use std::collections::HashMap;

use crate::btrfs::Btrfs;
use crate::device::{
    device_text, lists_map, map_entries, owned_entries, sort_by_name, sorted_by_name, DevicePath,
    Devices,
};
use crate::disk::{table_format_name, Content, Disk, Table, TableFormat};
use crate::partition::{filesystem_type_name, partition_type_name, Filesystem, FilesystemType, Partition};
use crate::swap::Swap;
use crate::text::{
    append_texts, decimal, join, join_strings, keep_nonempty, nonempty_strings, push_decimal,
    push_text, views,
};
use crate::zfs::{
    dataset_at, dataset_count, dataset_entries, make_zfs_options, properties_text,
    property_entries, ZfsDataset, ZfsFilesystem, ZfsPartition, ZfsVolume, Zpool,
};

verus! {

/// The command that waits until the kernel's view of the block devices is
/// up to date.
pub open spec fn udev_settle() -> Seq<char> {
    "udevadm trigger --subsystem-match=block\nudevadm settle"@
}

/// The device path of partition `index` of `dev`.
pub open spec fn partition_device(dev: (Seq<char>, Option<u8>), index: u8) -> (Seq<char>, Option<u8>) {
    (dev.0, Some(index))
}

/// Whether the script for `c` on `dev` can be made: a partition table stands
/// on a whole device, has at most 255 partitions, and none of its partitions
/// holds a partition table in turn.
pub open spec fn content_ok(c: Content, dev: (Seq<char>, Option<u8>)) -> bool {
    match c {
        Content::Table(t) => {
            &&& dev.1 is None
            &&& t.partitions@.len() <= 255
            &&& forall|i: int|
                0 <= i < t.partitions@.len() ==> !(#[trigger] t.partitions@[i].content is Table)
        },
        _ => true,
    }
}

/// The commands that make a file system.
pub open spec fn filesystem_commands(f: Filesystem, dev: (Seq<char>, Option<u8>)) -> Seq<Seq<char>> {
    let extra = match f.extra_args {
        Some(a) => a@,
        None => Seq::empty(),
    };
    seq!["mkfs."@ + f.format@ + " \\\n   "@ + extra + " "@ + device_text(dev) + "\n"@]
}

/// The commands that make a swap area.
pub open spec fn swap_commands(dev: (Seq<char>, Option<u8>)) -> Seq<Seq<char>> {
    seq!["mkswap "@ + device_text(dev) + "\n"@]
}

/// The line that creates subvolume `name` below the mounted file system.
pub open spec fn subvolume_line(name: Seq<char>) -> Seq<char> {
    "\n    btrfs subvolume create \"$MNTPOINT\"/"@ + name
}

/// The lines that create the subvolumes, in order.
pub open spec fn subvolume_lines(names: Seq<String>) -> Seq<char>
    decreases names.len(),
{
    if names.len() == 0 {
        Seq::empty()
    } else {
        subvolume_lines(names.drop_last()) + subvolume_line(names.last()@)
    }
}

/// The commands that make a btrfs file system, mount it for a while and
/// create its subvolumes, one line each.
pub open spec fn btrfs_commands(b: Btrfs, dev: (Seq<char>, Option<u8>)) -> Seq<Seq<char>> {
    let d = device_text(dev);
    seq![
        "mkfs.btrfs "@ + d + "\nMNTPOINT=$(mktemp -d)\n(\n    mount "@ + d
            + " \"$MNTPOINT\"\n    trap 'umount $MNTPOINT; rm -rf $MNTPOINT' EXIT"@
            + subvolume_lines(b.subvolumes@) + "\n)"@,
    ]
}

/// The commands that add a device to the list of members of its ZFS pool.
pub open spec fn zfs_partition_commands(z: ZfsPartition, dev: (Seq<char>, Option<u8>)) -> Seq<Seq<char>> {
    let line = "ZFSDEVICES_"@ + z.pool@ + "=\"${ZFSDEVICES_"@ + z.pool@ + ":-}"@ + device_text(dev)
        + " \""@;
    if dev.1 is Some {
        seq![line, Seq::empty()]
    } else {
        seq![line]
    }
}

/// The comment written for content that no script is made for yet.
pub open spec fn not_implemented_commands(name: Seq<char>) -> Seq<Seq<char>> {
    seq!["# "@ + name + "("@ + name + ") is not implemented yet"@]
}

/// The name a file system type is written with, or nothing.
pub open spec fn fs_type_text(t: Option<FilesystemType>) -> Seq<char> {
    match t {
        Some(f) => filesystem_type_name(f),
        None => Seq::empty(),
    }
}

/// The words `parted mkpart` could be given for a partition, empty ones
/// included: in an msdos table the partition type and the file system type
/// come first, in a gpt table the name; then the file system type, start and
/// end.
pub open spec fn mkpart_candidates(p: Partition, format: TableFormat) -> Seq<Seq<char>> {
    let fs = fs_type_text(p.fs_type);
    match format {
        TableFormat::Gpt => seq![p.name@, fs, p.start@, p.end@],
        TableFormat::Msdos => seq![partition_type_name(p.part_type), fs, fs, p.start@, p.end@],
    }
}

/// The command that sets `flag` on partition `index` of `dev`.
pub open spec fn flag_command(d: Seq<char>, index: u8, flag: Seq<char>) -> Seq<char> {
    "\nparted -s "@ + d + " -- set "@ + decimal(index as nat) + " "@ + flag + " on"@
}

/// The commands that make partition `index` of the table on `dev` and what
/// it holds.
pub open spec fn partition_commands(
    p: Partition,
    dev: (Seq<char>, Option<u8>),
    format: TableFormat,
    index: u8,
) -> Seq<Seq<char>>
    decreases p,
{
    let d = device_text(dev);
    seq![
        "parted -s "@ + d + " -- mkpart "@ + join(keep_nonempty(mkpart_candidates(p, format)), " "@)
            + "\n"@,
        "# ensure /dev/disk/by-path/..-partN exists before continuing"@,
        udev_settle(),
    ] + (if p.bootable {
        seq!["parted -s "@ + d + " -- set "@ + decimal(index as nat) + " boot on"@]
    } else {
        Seq::empty()
    }) + p.flags@.map_values(|f: String| flag_command(d, index, f@)) + seq![
        Seq::empty(),
        "# ensure further operations can detect new partitions"@,
        udev_settle(),
    ] + seq![join(content_commands(p.content, partition_device(dev, index)), "\n"@)]
}

/// The commands that make the partitions `ps` of the table on `dev`; the
/// partitions are numbered from 1 on.
pub open spec fn partitions_commands(
    ps: Seq<Partition>,
    dev: (Seq<char>, Option<u8>),
    format: TableFormat,
) -> Seq<Seq<char>>
    decreases ps,
{
    if ps.len() == 0 {
        Seq::empty()
    } else {
        partitions_commands(ps.drop_last(), dev, format) + partition_commands(
            ps.last(),
            dev,
            format,
            ps.len() as u8,
        )
    }
}

/// The commands that write a partition table on `dev` and make its
/// partitions.
pub open spec fn table_commands(t: Table, dev: (Seq<char>, Option<u8>)) -> Seq<Seq<char>>
    decreases t,
{
    seq!["parted -s "@ + device_text(dev) + " -- mklabel "@ + table_format_name(t.format)]
        + partitions_commands(t.partitions@, dev, t.format)
}

/// The commands that make what `c` describes on `dev`.
pub open spec fn content_commands(c: Content, dev: (Seq<char>, Option<u8>)) -> Seq<Seq<char>>
    decreases c,
{
    match c {
        Content::Table(t) => table_commands(t, dev),
        Content::Zfs(z) => zfs_partition_commands(z, dev),
        Content::Filesystem(f) => filesystem_commands(f, dev),
        Content::Swap(_) => swap_commands(dev),
        Content::Btrfs(b) => btrfs_commands(b, dev),
        Content::Empty => Seq::empty(),
        Content::Mdraid(_) => not_implemented_commands("Mdraid"@),
        Content::Luks(_) => not_implemented_commands("Luks"@),
        Content::LvmPv(_) => not_implemented_commands("LvmPv"@),
    }
}

/// A list that holds the one string `s`.
fn single(s: String) -> (r: Vec<String>)
    ensures
        views(r@) == seq![s@],
{
    let mut r = Vec::new();
    push_text(&mut r, s);
    assert(views(r@) =~= seq![s@]);
    r
}

impl Filesystem {
    /// The commands that make this file system on `device`.
    pub fn create(&self, device: &DevicePath) -> (commands: Vec<String>)
        ensures
            views(commands@) == filesystem_commands(*self, device@),
    {
        let mut c = "mkfs.".to_owned();
        c.append(self.format.as_str());
        c.append(" \\\n   ");
        match &self.extra_args {
            Some(a) => c.append(a.as_str()),
            None => {},
        }
        c.append(" ");
        c.append(device.to_string().as_str());
        c.append("\n");
        single(c)
    }
}

impl Swap {
    /// The commands that make a swap area on `device`.
    pub fn create(&self, device: &DevicePath) -> (commands: Vec<String>)
        ensures
            views(commands@) == swap_commands(device@),
    {
        let mut c = "mkswap ".to_owned();
        c.append(device.to_string().as_str());
        c.append("\n");
        single(c)
    }
}

impl Btrfs {
    /// The commands that make this btrfs file system on `device` and create
    /// its subvolumes.
    pub fn create(&self, device: &DevicePath) -> (commands: Vec<String>)
        ensures
            views(commands@) == btrfs_commands(*self, device@),
    {
        let d = device.to_string();
        let mut c = "mkfs.btrfs ".to_owned();
        c.append(d.as_str());
        c.append("\nMNTPOINT=$(mktemp -d)\n(\n    mount ");
        c.append(d.as_str());
        c.append(" \"$MNTPOINT\"\n    trap 'umount $MNTPOINT; rm -rf $MNTPOINT' EXIT");
        let ghost head = c@;
        let ghost names = self.subvolumes@;
        let mut i: usize = 0;
        assert(names.take(0) =~= Seq::<String>::empty());
        assert(head + subvolume_lines(names.take(0)) =~= head);
        while i < self.subvolumes.len()
            invariant
                0 <= i <= self.subvolumes.len(),
                names == self.subvolumes@,
                c@ == head + subvolume_lines(names.take(i as int)),
            decreases self.subvolumes.len() - i,
        {
            c.append("\n    btrfs subvolume create \"$MNTPOINT\"/");
            c.append(self.subvolumes[i].as_str());
            assert(names.take(i + 1).drop_last() =~= names.take(i as int));
            assert(names.take(i + 1).last() == names[i as int]);
            assert(c@ =~= head + subvolume_lines(names.take(i + 1)));
            i = i + 1;
        }
        assert(names.take(names.len() as int) =~= names);
        c.append("\n)");
        single(c)
    }
}

impl ZfsPartition {
    /// The commands that add `device` to the members of this partition's
    /// pool.
    pub fn create(&self, device: &DevicePath) -> (commands: Vec<String>)
        ensures
            views(commands@) == zfs_partition_commands(*self, device@),
    {
        let mut c = "ZFSDEVICES_".to_owned();
        c.append(self.pool.as_str());
        c.append("=\"${ZFSDEVICES_");
        c.append(self.pool.as_str());
        c.append(":-}");
        c.append(device.to_string().as_str());
        c.append(" \"");
        let mut commands = single(c);
        if device.is_partition() {
            push_text(&mut commands, String::new());
        }
        commands
    }
}

/// The comment written for content that no script is made for yet.
fn not_implemented(name: &str) -> (commands: Vec<String>)
    ensures
        views(commands@) == not_implemented_commands(name@),
{
    let mut c = "# ".to_owned();
    c.append(name);
    c.append("(");
    c.append(name);
    c.append(") is not implemented yet");
    single(c)
}

impl Content {
    /// The commands that make what this describes on `device_path`.
    pub fn create(&self, device_path: &DevicePath) -> (commands: Vec<String>)
        requires
            content_ok(*self, device_path@),
        ensures
            views(commands@) == content_commands(*self, device_path@),
        decreases self,
    {
        match self {
            Content::Table(table) => table.create(device_path),
            Content::Zfs(zfs) => zfs.create(device_path),
            Content::Filesystem(filesystem) => filesystem.create(device_path),
            Content::Swap(swap) => swap.create(device_path),
            Content::Btrfs(btrfs) => btrfs.create(device_path),
            Content::Empty => {
                let commands: Vec<String> = Vec::new();
                assert(views(commands@) =~= Seq::<Seq<char>>::empty());
                commands
            },
            Content::Mdraid(_) => not_implemented("Mdraid"),
            Content::Luks(_) => not_implemented("Luks"),
            Content::LvmPv(_) => not_implemented("LvmPv"),
        }
    }
}

impl Disk {
    /// The commands that make what this disk holds.
    pub fn create(&self) -> (commands: Vec<String>)
        requires
            content_ok(self.content, self.device@),
        ensures
            views(commands@) == content_commands(self.content, self.device@),
    {
        self.content.create(&self.device)
    }
}

impl Table {
    /// The commands that write this partition table on `device_path` and make
    /// its partitions, numbered from 1 on.
    pub fn create(&self, device_path: &DevicePath) -> (commands: Vec<String>)
        requires
            content_ok(Content::Table(*self), device_path@),
        ensures
            views(commands@) == table_commands(*self, device_path@),
        decreases self,
    {
        let mut c = "parted -s ".to_owned();
        c.append(device_path.to_string().as_str());
        c.append(" -- mklabel ");
        c.append(self.format.as_ref());
        let ghost head = c@;
        let mut commands = single(c);
        let ghost ps = self.partitions@;
        let mut index: u8 = 0;
        let mut i: usize = 0;
        assert(ps.take(0) =~= Seq::<Partition>::empty());
        while i < self.partitions.len()
            invariant
                0 <= i <= self.partitions.len(),
                ps == self.partitions@,
                ps.len() <= 255,
                index == i,
                device_path@.1 is None,
                forall|j: int| 0 <= j < ps.len() ==> !(#[trigger] ps[j].content is Table),
                views(commands@) == seq![head] + partitions_commands(
                    ps.take(i as int),
                    device_path@,
                    self.format,
                ),
            decreases self.partitions.len() - i,
        {
            index = index + 1;
            assert(ps.take(i + 1).drop_last() =~= ps.take(i as int));
            assert(ps.take(i + 1).last() == ps[i as int]);
            let more = self.partitions[i].create(device_path, &self.format, index);
            append_texts(&mut commands, more);
            i = i + 1;
        }
        assert(ps.take(ps.len() as int) =~= ps);
        commands
    }
}

impl Partition {
    /// The commands that make this partition, numbered `index`, in the table
    /// of the given format on `device_path`, and what it holds.
    pub fn create(&self, device_path: &DevicePath, table_format: &TableFormat, index: u8) -> (commands: Vec<String>)
        requires
            !(self.content is Table),
        ensures
            views(commands@) == partition_commands(*self, device_path@, *table_format, index),
        decreases self,
    {
        let d = device_path.to_string();
        let fs_type = match &self.fs_type {
            Some(t) => t.as_ref().to_owned(),
            None => String::new(),
        };
        let mut candidates: Vec<String> = Vec::new();
        match table_format {
            TableFormat::Gpt => push_text(&mut candidates, self.name.clone()),
            TableFormat::Msdos => {
                push_text(&mut candidates, self.part_type.as_ref().to_owned());
                push_text(&mut candidates, fs_type.clone());
            },
        }
        push_text(&mut candidates, fs_type);
        push_text(&mut candidates, self.start.clone());
        push_text(&mut candidates, self.end.clone());
        assert(views(candidates@) =~= mkpart_candidates(*self, *table_format));
        let args = nonempty_strings(&candidates);

        let mut mkpart = "parted -s ".to_owned();
        mkpart.append(d.as_str());
        mkpart.append(" -- mkpart ");
        mkpart.append(join_strings(&args, " ").as_str());
        mkpart.append("\n");
        let mut commands = single(mkpart);
        push_text(&mut commands, "# ensure /dev/disk/by-path/..-partN exists before continuing".to_owned());
        push_text(&mut commands, "udevadm trigger --subsystem-match=block\nudevadm settle".to_owned());

        if self.bootable {
            let mut c = "parted -s ".to_owned();
            c.append(d.as_str());
            c.append(" -- set ");
            push_decimal(&mut c, index);
            c.append(" boot on");
            push_text(&mut commands, c);
        }
        let ghost boot = views(commands@);

        let ghost flags = self.flags@.map_values(|f: String| flag_command(d@, index, f@));
        let mut i: usize = 0;
        assert(flags.take(0) =~= Seq::<Seq<char>>::empty());
        assert(boot + flags.take(0) =~= boot);
        while i < self.flags.len()
            invariant
                0 <= i <= self.flags.len(),
                flags == self.flags@.map_values(|f: String| flag_command(d@, index, f@)),
                views(commands@) == boot + flags.take(i as int),
            decreases self.flags.len() - i,
        {
            let mut c = "\nparted -s ".to_owned();
            c.append(d.as_str());
            c.append(" -- set ");
            push_decimal(&mut c, index);
            c.append(" ");
            c.append(self.flags[i].as_str());
            c.append(" on");
            push_text(&mut commands, c);
            assert(flags.take(i + 1) =~= flags.take(i as int).push(flags[i as int]));
            i = i + 1;
        }
        assert(flags.take(self.flags.len() as int) =~= flags);

        push_text(&mut commands, String::new());
        push_text(&mut commands, "# ensure further operations can detect new partitions".to_owned());
        push_text(&mut commands, "udevadm trigger --subsystem-match=block\nudevadm settle".to_owned());

        let partition_path = device_path.with_partition(index);
        let content_commands = self.content.create(&partition_path);
        push_text(&mut commands, join_strings(&content_commands, "\n"));
        commands
    }
}

/// The device path of the volume `dataset` of pool `zpool`, as text.
pub open spec fn volume_path_text(zpool: Seq<char>, dataset: Seq<char>) -> Seq<char> {
    "/dev/zvol"@ + "/"@ + zpool + "/"@ + dataset
}

/// The device of the volume `dataset` of pool `zpool`: the whole device at
/// `/dev/zvol/<zpool>/<dataset>`.
pub open spec fn volume_device(zpool: Seq<char>, dataset: Seq<char>) -> (Seq<char>, Option<u8>) {
    (volume_path_text(zpool, dataset), None)
}

/// Whether the script for a volume can be made: what it holds can be made on
/// the volume's device.
pub open spec fn volume_ok(v: ZfsVolume, zpool: Seq<char>, dataset: Seq<char>) -> bool {
    content_ok(v.content, volume_device(zpool, dataset))
}

/// Whether the script for a dataset can be made.
pub open spec fn dataset_ok(ds: ZfsDataset, zpool: Seq<char>, dataset: Seq<char>) -> bool {
    match ds {
        ZfsDataset::Filesystem(_) => true,
        ZfsDataset::Volume(v) => volume_ok(v, zpool, dataset),
    }
}

/// Whether the script for a pool named `zpool` can be made.
pub open spec fn zpool_ok(p: Zpool, zpool: Seq<char>) -> bool {
    forall|i: int|
        0 <= i < dataset_entries(p.datasets).len() ==> dataset_ok(
            #[trigger] dataset_entries(p.datasets)[i].1,
            zpool,
            dataset_entries(p.datasets)[i].0,
        )
}

/// The start of the command that creates dataset `dataset` of pool `zpool`.
pub open spec fn zfs_create_head(zpool: Seq<char>, dataset: Seq<char>) -> Seq<char> {
    "zfs create "@ + zpool + "/"@ + dataset + " \\\n    "@
}

/// The commands that create a ZFS file system.
pub open spec fn zfs_filesystem_commands(f: ZfsFilesystem, zpool: Seq<char>, dataset: Seq<char>) -> Seq<
    Seq<char>,
> {
    seq![
        zfs_create_head(zpool, dataset) + properties_text(property_entries(f.options), "-o"@),
        Seq::empty(),
    ]
}

/// A text followed by a space, or nothing where the text is empty.
pub open spec fn spaced(t: Seq<char>) -> Seq<char> {
    if t.len() > 0 {
        t + " "@
    } else {
        t
    }
}

/// Two texts with a space between them where neither is empty.
pub open spec fn join_two(a: Seq<char>, b: Seq<char>) -> Seq<char> {
    if a.len() > 0 && b.len() > 0 {
        a + " "@ + b
    } else {
        a + b
    }
}

/// The commands that create a ZFS volume and make what it holds on it.
pub open spec fn zfs_volume_commands(v: ZfsVolume, zpool: Seq<char>, dataset: Seq<char>) -> Seq<
    Seq<char>,
> {
    seq![
        zfs_create_head(zpool, dataset) + spaced(properties_text(property_entries(v.options), "-o"@))
            + "-V "@ + v.size@,
        udev_settle(),
    ] + content_commands(v.content, volume_device(zpool, dataset))
}

/// The commands that create a dataset.
pub open spec fn dataset_commands(ds: ZfsDataset, zpool: Seq<char>, dataset: Seq<char>) -> Seq<
    Seq<char>,
> {
    match ds {
        ZfsDataset::Filesystem(f) => zfs_filesystem_commands(f, zpool, dataset),
        ZfsDataset::Volume(v) => zfs_volume_commands(v, zpool, dataset),
    }
}

/// The commands that create the datasets `entries`, in order.
pub open spec fn datasets_commands(entries: Seq<(Seq<char>, ZfsDataset)>, zpool: Seq<char>) -> Seq<
    Seq<char>,
>
    decreases entries.len(),
{
    if entries.len() == 0 {
        Seq::empty()
    } else {
        datasets_commands(entries.drop_last(), zpool) + dataset_commands(
            entries.last().1,
            zpool,
            entries.last().0,
        )
    }
}

/// The redundancy mode of a pool as it stands in `zpool create`: nothing,
/// or the mode and a line break.
pub open spec fn mode_text(mode: Seq<char>) -> Seq<char> {
    if mode.len() > 0 {
        mode + " \\\n    "@
    } else {
        mode
    }
}

/// The command that creates pool `zpool` from the devices gathered in the
/// shell variable `ZFSDEVICES_<zpool>`.
pub open spec fn zpool_create_command(p: Zpool, zpool: Seq<char>) -> Seq<char> {
    "zpool create "@ + zpool + " \\\n    "@ + mode_text(p.mode@) + join_two(
        properties_text(property_entries(p.options), "-o"@),
        properties_text(property_entries(p.root_fs_options), "-O"@),
    ) + " \\\n    ${ZFSDEVICES_"@ + zpool + "}"@
}

/// The commands that create pool `zpool` and its datasets.
pub open spec fn zpool_commands(p: Zpool, zpool: Seq<char>) -> Seq<Seq<char>> {
    seq![zpool_create_command(p, zpool)] + datasets_commands(dataset_entries(p.datasets), zpool)
}

/// The start of the command that creates dataset `dataset_name` of pool
/// `zpool_name`.
fn zfs_create_head_string(zpool_name: &str, dataset_name: &str) -> (s: String)
    ensures
        s@ == zfs_create_head(zpool_name@, dataset_name@),
{
    let mut s = "zfs create ".to_owned();
    s.append(zpool_name);
    s.append("/");
    s.append(dataset_name);
    s.append(" \\\n    ");
    s
}

/// The device path of volume `dataset_name` of pool `zpool_name`, as text.
pub fn volume_path(zpool_name: &str, dataset_name: &str) -> (s: String)
    ensures
        s@ == volume_path_text(zpool_name@, dataset_name@),
{
    let mut s = "/dev/zvol".to_owned();
    s.append("/");
    s.append(zpool_name);
    s.append("/");
    s.append(dataset_name);
    s
}

impl ZfsFilesystem {
    /// The commands that create this file system as dataset `dataset_name`
    /// of pool `zpool_name`.
    pub fn create(&self, zpool_name: &str, dataset_name: &str) -> (commands: Vec<String>)
        ensures
            views(commands@) == zfs_filesystem_commands(*self, zpool_name@, dataset_name@),
    {
        let mut c = zfs_create_head_string(zpool_name, dataset_name);
        c.append(make_zfs_options(&self.options, "-o").as_str());
        let mut commands = single(c);
        push_text(&mut commands, String::new());
        commands
    }
}

impl ZfsVolume {
    /// The commands that create this volume as dataset `dataset_name` of pool
    /// `zpool_name` and make what it holds on it.
    pub fn create(&self, zpool_name: &str, dataset_name: &str) -> (commands: Vec<String>)
        requires
            volume_ok(*self, zpool_name@, dataset_name@),
        ensures
            views(commands@) == zfs_volume_commands(*self, zpool_name@, dataset_name@),
    {
        let volume_device = DevicePath(volume_path(zpool_name, dataset_name), None);
        let mut c = zfs_create_head_string(zpool_name, dataset_name);
        let options = make_zfs_options(&self.options, "-o");
        if !options.as_str().is_empty() {
            c.append(options.as_str());
            c.append(" ");
        }
        c.append("-V ");
        c.append(self.size.as_str());
        assert(c@ =~= zfs_create_head(zpool_name@, dataset_name@) + spaced(
            properties_text(property_entries(self.options), "-o"@),
        ) + "-V "@ + self.size@);
        let mut commands = single(c);
        push_text(&mut commands, "udevadm trigger --subsystem-match=block\nudevadm settle".to_owned());
        let more = self.content.create(&volume_device);
        append_texts(&mut commands, more);
        commands
    }
}

impl Zpool {
    /// The commands that create this pool, named `zpool_name`, from the
    /// devices gathered for it, then its datasets in order.
    pub fn create(&self, zpool_name: &str) -> (commands: Vec<String>)
        requires
            zpool_ok(*self, zpool_name@),
        ensures
            views(commands@) == zpool_commands(*self, zpool_name@),
    {
        let mut c = "zpool create ".to_owned();
        c.append(zpool_name);
        c.append(" \\\n    ");
        if !self.mode.as_str().is_empty() {
            c.append(self.mode.as_str());
            c.append(" \\\n    ");
        }
        let options = make_zfs_options(&self.options, "-o");
        let root_fs_options = make_zfs_options(&self.root_fs_options, "-O");
        c.append(options.as_str());
        if !options.as_str().is_empty() && !root_fs_options.as_str().is_empty() {
            c.append(" ");
        }
        c.append(root_fs_options.as_str());
        c.append(" \\\n    ${ZFSDEVICES_");
        c.append(zpool_name);
        c.append("}");
        assert(c@ =~= zpool_create_command(*self, zpool_name@));
        let mut commands = single(c);
        let ghost head = views(commands@);
        let ghost entries = dataset_entries(self.datasets);
        let n = dataset_count(&self.datasets);
        let mut i: usize = 0;
        assert(entries.take(0) =~= Seq::<(Seq<char>, ZfsDataset)>::empty());
        while i < n
            invariant
                0 <= i <= n,
                n == entries.len(),
                entries == dataset_entries(self.datasets),
                zpool_ok(*self, zpool_name@),
                views(commands@) == head + datasets_commands(entries.take(i as int), zpool_name@),
            decreases n - i,
        {
            let (name, dataset) = match dataset_at(&self.datasets, i) {
                Some(e) => e,
                None => {
                    assert(false);
                    return commands;
                },
            };
            assert(entries.take(i + 1).drop_last() =~= entries.take(i as int));
            assert(entries.take(i + 1).last() == entries[i as int]);
            assert(dataset_ok(entries[i as int].1, zpool_name@, entries[i as int].0));
            let more = match dataset {
                ZfsDataset::Filesystem(filesystem) => filesystem.create(zpool_name, name.as_str()),
                ZfsDataset::Volume(volume) => volume.create(zpool_name, name.as_str()),
            };
            append_texts(&mut commands, more);
            i = i + 1;
        }
        assert(entries.take(n as int) =~= entries);
        commands
    }
}

/// The commands that make what the disks hold, disk after disk.
pub open spec fn disks_commands(disks: Seq<(String, Disk)>) -> Seq<Seq<char>>
    decreases disks.len(),
{
    if disks.len() == 0 {
        Seq::empty()
    } else {
        disks_commands(disks.drop_last()) + content_commands(
            disks.last().1.content,
            disks.last().1.device@,
        )
    }
}

/// The commands that create the pools, pool after pool.
pub open spec fn zpools_commands(pools: Seq<(String, Zpool)>) -> Seq<Seq<char>>
    decreases pools.len(),
{
    if pools.len() == 0 {
        Seq::empty()
    } else {
        zpools_commands(pools.drop_last()) + zpool_commands(pools.last().1, pools.last().0@)
    }
}

/// The first line of every script: the interpreter, and the shell options
/// that stop at the first error and trace each command.
pub open spec fn script_header() -> Seq<char> {
    "#!/usr/bin/env bash\nset -efux"@
}

/// The whole script for the disks and pools, in the order given.
pub open spec fn devices_commands(disks: Seq<(String, Disk)>, pools: Seq<(String, Zpool)>) -> Seq<
    Seq<char>,
> {
    seq![script_header()] + disks_commands(disks) + zpools_commands(pools)
}

/// Whether the script for a disk can be made.
pub open spec fn disk_ok(d: Disk) -> bool {
    content_ok(d.content, d.device@)
}

/// Whether the script for a whole layout can be made: for each disk and for
/// each pool.
pub open spec fn devices_ok(d: Devices) -> bool {
    &&& forall|k: String| #[trigger] d.disk@.contains_key(k) ==> disk_ok(d.disk@[k])
    &&& match d.zpool {
        Some(pools) => forall|k: String| #[trigger]
            pools@.contains_key(k) ==> zpool_ok(pools@[k], k@),
        None => true,
    }
}

/// Whether `pools` lists the pools of a layout: each of them once, or none
/// where there are none.
pub open spec fn lists_pools(pools: Seq<(String, Zpool)>, zpool: Option<HashMap<String, Zpool>>) -> bool {
    match zpool {
        Some(m) => lists_map(pools, m@),
        None => pools.len() == 0,
    }
}

/// The whole script for the disks and the pools, in the order of the lists:
/// the header, what each disk holds, then each pool and its datasets.
pub fn devices_script(disks: &Vec<(&String, &Disk)>, zpools: &Vec<(&String, &Zpool)>) -> (commands: Vec<String>)
    requires
        forall|i: int| 0 <= i < disks@.len() ==> disk_ok(*(#[trigger] disks@[i]).1),
        forall|i: int| 0 <= i < zpools@.len() ==> zpool_ok(*(#[trigger] zpools@[i]).1, zpools@[i].0@),
    ensures
        views(commands@) == devices_commands(owned_entries(disks@), owned_entries(zpools@)),
{
    let mut commands = single("#!/usr/bin/env bash\nset -efux".to_owned());
    let ghost ds = owned_entries(disks@);
    let ghost ps = owned_entries(zpools@);
    let mut i: usize = 0;
    assert(ds.take(0) =~= Seq::<(String, Disk)>::empty());
    while i < disks.len()
        invariant
            0 <= i <= disks.len(),
            ds == owned_entries(disks@),
            forall|j: int| 0 <= j < disks@.len() ==> disk_ok(*(#[trigger] disks@[j]).1),
            views(commands@) == seq![script_header()] + disks_commands(ds.take(i as int)),
        decreases disks.len() - i,
    {
        assert(ds.take(i + 1).drop_last() =~= ds.take(i as int));
        assert(ds.take(i + 1).last() == ds[i as int]);
        let disk = disks[i].1;
        assert(disk_ok(*disk));
        let more = disk.create();
        append_texts(&mut commands, more);
        i = i + 1;
    }
    assert(ds.take(disks.len() as int) =~= ds);
    let ghost after_disks = views(commands@);
    let mut i: usize = 0;
    assert(ps.take(0) =~= Seq::<(String, Zpool)>::empty());
    while i < zpools.len()
        invariant
            0 <= i <= zpools.len(),
            ps == owned_entries(zpools@),
            forall|j: int|
                0 <= j < zpools@.len() ==> zpool_ok(*(#[trigger] zpools@[j]).1, zpools@[j].0@),
            views(commands@) == after_disks + zpools_commands(ps.take(i as int)),
        decreases zpools.len() - i,
    {
        assert(ps.take(i + 1).drop_last() =~= ps.take(i as int));
        assert(ps.take(i + 1).last() == ps[i as int]);
        let (name, pool) = zpools[i];
        assert(zpool_ok(*pool, name@));
        let more = pool.create(name.as_str());
        append_texts(&mut commands, more);
        i = i + 1;
    }
    assert(ps.take(zpools.len() as int) =~= ps);
    commands
}

impl Devices {
    /// The whole script for this layout: the header, what each disk holds,
    /// then each pool and its datasets. Disks, and then pools, come each
    /// exactly once, in ascending order of their names.
    pub fn create(&self) -> (commands: Vec<String>)
        requires
            devices_ok(*self),
        ensures
            exists|disks: Seq<(String, Disk)>, pools: Seq<(String, Zpool)>|
                #![trigger devices_commands(disks, pools)]
                lists_map(disks, self.disk@) && sorted_by_name(disks) && lists_pools(pools, self.zpool)
                    && sorted_by_name(pools) && views(commands@) == devices_commands(disks, pools),
    {
        let disks = sort_by_name(map_entries(&self.disk), Ghost(self.disk@));
        let zpools: Vec<(&String, &Zpool)> = match &self.zpool {
            Some(pools) => sort_by_name(map_entries(pools), Ghost(pools@)),
            None => Vec::new(),
        };
        proof {
            assert forall|i: int| 0 <= i < disks@.len() implies disk_ok(*(#[trigger] disks@[i]).1) by {
                assert(owned_entries(disks@)[i] == (*disks@[i].0, *disks@[i].1));
                assert(self.disk@.contains_key(owned_entries(disks@)[i].0));
            }
            assert forall|i: int|
                0 <= i < zpools@.len() implies zpool_ok(*(#[trigger] zpools@[i]).1, zpools@[i].0@) by {
                assert(owned_entries(zpools@)[i] == (*zpools@[i].0, *zpools@[i].1));
                match self.zpool {
                    Some(m) => {
                        assert(m@.contains_key(owned_entries(zpools@)[i].0));
                    },
                    None => {},
                }
            }
        }
        let commands = devices_script(&disks, &zpools);
        assert(lists_pools(owned_entries(zpools@), self.zpool));
        assert(sorted_by_name(owned_entries(zpools@)));
        assert(views(commands@) == devices_commands(owned_entries(disks@), owned_entries(zpools@)));
        commands
    }
}

/// Whether the script for `content` can be made on `device`.
pub fn check_content(content: &Content, device: &DevicePath) -> (ok: bool)
    ensures
        ok == content_ok(*content, device@),
{
    match content {
        Content::Table(table) => {
            if device.is_partition() || table.partitions.len() > 255 {
                return false;
            }
            let mut i: usize = 0;
            while i < table.partitions.len()
                invariant
                    0 <= i <= table.partitions.len(),
                    *content == Content::Table(*table),
                    forall|j: int| 0 <= j < i ==> !(#[trigger] table.partitions@[j].content is Table),
                decreases table.partitions.len() - i,
            {
                match &table.partitions[i].content {
                    Content::Table(_) => {
                        assert(table.partitions@[i as int].content is Table);
                        assert(*content == Content::Table(*table));
                        assert(!content_ok(*content, device@));
                        return false;
                    },
                    _ => {},
                }
                i = i + 1;
            }
            true
        },
        _ => true,
    }
}

/// Whether the script for dataset `dataset_name` of pool `zpool_name` can be
/// made.
pub fn check_dataset(dataset: &ZfsDataset, zpool_name: &str, dataset_name: &str) -> (ok: bool)
    ensures
        ok == dataset_ok(*dataset, zpool_name@, dataset_name@),
{
    match dataset {
        ZfsDataset::Filesystem(_) => true,
        ZfsDataset::Volume(volume) => {
            check_content(&volume.content, &DevicePath(volume_path(zpool_name, dataset_name), None))
        },
    }
}

/// Whether the script for pool `zpool_name` can be made.
pub fn check_zpool(zpool: &Zpool, zpool_name: &str) -> (ok: bool)
    ensures
        ok == zpool_ok(*zpool, zpool_name@),
{
    let ghost entries = dataset_entries(zpool.datasets);
    let n = dataset_count(&zpool.datasets);
    let mut i: usize = 0;
    while i < n
        invariant
            0 <= i <= n,
            n == entries.len(),
            entries == dataset_entries(zpool.datasets),
            forall|j: int|
                0 <= j < i ==> dataset_ok(#[trigger] entries[j].1, zpool_name@, entries[j].0),
        decreases n - i,
    {
        match dataset_at(&zpool.datasets, i) {
            Some((name, dataset)) => {
                if !check_dataset(dataset, zpool_name, name.as_str()) {
                    return false;
                }
            },
            None => {
                assert(false);
            },
        }
        i = i + 1;
    }
    true
}

/// A layout with a pool whose script cannot be made is not one whose script
/// can.
proof fn lemma_pool_not_ok(d: Devices, pools: HashMap<String, Zpool>, k: String)
    requires
        d.zpool == Some(pools),
        pools@.contains_key(k),
        !zpool_ok(pools@[k], k@),
    ensures
        !devices_ok(d),
{
    if devices_ok(d) {
        let p = d.zpool->0;
        assert(p == pools);
        assert(p@ == pools@);
        assert(forall|k2: String| #[trigger] p@.contains_key(k2) ==> zpool_ok(p@[k2], k2@));
        assert(p@.contains_key(k));
        assert(zpool_ok(p@[k], k@));
    }
}

impl Devices {
    /// The whole script for this layout, as `create` makes it, where it can
    /// be made; `None` where a partition table would stand inside a
    /// partition, or would have more than 255 partitions.
    pub fn create_checked(&self) -> (commands: Option<Vec<String>>)
        ensures
            commands is Some <==> devices_ok(*self),
            commands matches Some(commands) ==> exists|
                disks: Seq<(String, Disk)>,
                pools: Seq<(String, Zpool)>,
            |
                #![trigger devices_commands(disks, pools)]
                lists_map(disks, self.disk@) && sorted_by_name(disks) && lists_pools(pools, self.zpool)
                    && sorted_by_name(pools) && views(commands@) == devices_commands(disks, pools),
    {
        let disks = map_entries(&self.disk);
        let ghost ds = owned_entries(disks@);
        let mut i: usize = 0;
        while i < disks.len()
            invariant
                0 <= i <= disks.len(),
                ds == owned_entries(disks@),
                lists_map(ds, self.disk@),
                forall|j: int| 0 <= j < i ==> disk_ok(#[trigger] ds[j].1),
            decreases disks.len() - i,
        {
            let (_, disk) = disks[i];
            assert(ds[i as int] == (*disks@[i as int].0, *disks@[i as int].1));
            if !check_content(&disk.content, &disk.device) {
                assert(self.disk@.contains_key(ds[i as int].0));
                return None;
            }
            i = i + 1;
        }
        assert forall|k: String| #[trigger] self.disk@.contains_key(k) implies disk_ok(self.disk@[k]) by {
            let j = choose|j: int| 0 <= j < ds.len() && #[trigger] ds[j].0 == k;
            assert(disk_ok(ds[j].1));
        }
        match &self.zpool {
            Some(pools) => {
                let entries = map_entries(pools);
                let ghost ps = owned_entries(entries@);
                let mut i: usize = 0;
                while i < entries.len()
                    invariant
                        0 <= i <= entries.len(),
                        ps == owned_entries(entries@),
                        lists_map(ps, pools@),
                        self.zpool == Some(*pools),
                        forall|k: String| #[trigger]
                            self.disk@.contains_key(k) ==> disk_ok(self.disk@[k]),
                        forall|j: int| 0 <= j < i ==> zpool_ok(#[trigger] ps[j].1, ps[j].0@),
                    decreases entries.len() - i,
                {
                    let (name, pool) = entries[i];
                    assert(ps[i as int] == (*entries@[i as int].0, *entries@[i as int].1));
                    if !check_zpool(pool, name.as_str()) {
                        assert(pools@.contains_key(ps[i as int].0));
                        assert(!zpool_ok(pools@[ps[i as int].0], ps[i as int].0@));
                        proof {
                            lemma_pool_not_ok(*self, *pools, ps[i as int].0);
                        }
                        return None;
                    }
                    i = i + 1;
                }
                assert forall|k: String| #[trigger] pools@.contains_key(k) implies zpool_ok(
                    pools@[k],
                    k@,
                ) by {
                    let j = choose|j: int| 0 <= j < ps.len() && #[trigger] ps[j].0 == k;
                    assert(zpool_ok(ps[j].1, ps[j].0@));
                }
            },
            None => {},
        }
        Some(self.create())
    }
}

} // verus!
