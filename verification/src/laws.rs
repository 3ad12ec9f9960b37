use vstd::prelude::*;

use crate::create::{devices_commands, mkpart_candidates, partition_commands, partition_device, zfs_partition_commands, zpool_create_command};
use crate::device::{device_text, is_disk_link, lists_map, partition_separator, sorted_by_name};
use crate::disk::Disk;
use crate::disk::TableFormat;
use crate::partition::Partition;
use crate::text::{
    lemma_text_lt_irreflexive, lemma_text_lt_transitive, text_lt, all_digits, decimal, digit_char, digits_value, is_digit, parse_u8_spec};
use crate::zfs::{ZfsPartition, Zpool};

verus! {

/// A digit character is a digit and stands for its value.
proof fn lemma_digit_char(d: nat)
    requires
        d < 10,
    ensures
        is_digit(digit_char(d)),
        (digit_char(d) as nat) - ('0' as nat) == d,
{
}

/// The digits of a number's decimal notation denote the number.
pub(crate) proof fn lemma_decimal_value(n: nat)
    ensures
        all_digits(decimal(n)),
        digits_value(decimal(n)) == n,
        decimal(n).len() > 0,
    decreases n,
{
    lemma_digit_char(n % 10);
    if n >= 10 {
        lemma_decimal_value(n / 10);
        let s = decimal(n);
        assert(s.drop_last() =~= decimal(n / 10));
        assert(s.last() == digit_char(n % 10));
        assert(digits_value(s) == digits_value(s.drop_last()) * 10 + ((s.last() as nat) - ('0' as nat)) as nat);
        assert(digits_value(s) == (n / 10) * 10 + n % 10);
        assert forall|i: int| 0 <= i < s.len() implies #[trigger] is_digit(s[i]) by {
            if i < s.len() - 1 {
                assert(s[i] == decimal(n / 10)[i]);
            }
        }
    } else {
        assert(decimal(n) =~= seq![digit_char(n)]);
        assert(decimal(n).drop_last() =~= Seq::<char>::empty());
        assert(decimal(n).last() == digit_char(n));
        assert(digits_value(decimal(n)) == digits_value(decimal(n).drop_last()) * 10 + ((decimal(n).last() as nat) - ('0' as nat)) as nat);
    }
}

/// A partition number written in decimal, as a device path's text ends with
/// it, reads back as the same number.
pub proof fn law_partition_number_reads_back(n: u8)
    ensures
        parse_u8_spec(decimal(n as nat)) == Some(n),
{
    lemma_decimal_value(n as nat);
    assert(is_digit(decimal(n as nat)[0]));
}

/// The text of partition `index` of a whole device is the device's text,
/// then `-part` where the device lies under `/dev/disk/`, then the partition
/// number in decimal.
pub proof fn law_partition_text(path: Seq<char>, index: u8)
    ensures
        device_text(partition_device((path, None), index)) == device_text((path, None))
            + partition_separator(path) + decimal(index as nat),
        is_disk_link(path) ==> device_text(partition_device((path, None), index)) == path
            + "-part"@ + decimal(index as nat),
        !is_disk_link(path) ==> device_text(partition_device((path, None), index)) == path
            + decimal(index as nat),
{
    assert(device_text((path, None)) =~= path);
    assert(Seq::<char>::empty() + decimal(index as nat) =~= decimal(index as nat));
}

/// The shell variable that each member device of a pool adds itself to is
/// the one the pool is created from: a member's first command assigns
/// `ZFSDEVICES_<pool>`, and `zpool create` for that pool ends by expanding
/// it.
pub proof fn law_pool_reads_member_devices(member: ZfsPartition, dev: (Seq<char>, Option<u8>), pool: Zpool)
    ensures
        ({
            let var = "ZFSDEVICES_"@ + member.pool@;
            let line = zfs_partition_commands(member, dev)[0];
            let create = zpool_create_command(pool, member.pool@);
            &&& line.take(var.len() + 1int) == var + "="@
            &&& create.skip(create.len() - (var.len() + 3)) == "${"@ + var + "}"@
        }),
{
    reveal_strlit("ZFSDEVICES_");
    reveal_strlit("=");
    reveal_strlit("=\"${ZFSDEVICES_");
    reveal_strlit("${");
    reveal_strlit("}");
    reveal_strlit(" \\\n    ${ZFSDEVICES_");
    let var = "ZFSDEVICES_"@ + member.pool@;
    let line = zfs_partition_commands(member, dev)[0];
    assert(line.take(var.len() + 1int) =~= var + "="@);
    let create = zpool_create_command(pool, member.pool@);
    assert(create.skip(create.len() - (var.len() + 3)) =~= "${"@ + var + "}"@);
}

/// Every partition's part of the script has the same shape: seven commands,
/// one more where it is bootable, and one more for each flag.
pub proof fn law_partition_command_count(p: Partition, dev: (Seq<char>, Option<u8>), format: TableFormat, index: u8)
    ensures
        partition_commands(p, dev, format, index).len() == 7 + (if p.bootable {
            1int
        } else {
            0int
        }) + p.flags@.len(),
{
}

/// Two listings of one map, each in ascending order of names, agree on
/// their first `n` items.
proof fn lemma_sorted_listings_agree<V>(l1: Seq<(String, V)>, l2: Seq<(String, V)>, m: Map<String, V>, n: int)
    requires
        lists_map(l1, m),
        lists_map(l2, m),
        sorted_by_name(l1),
        sorted_by_name(l2),
        0 <= n <= l1.len(),
        n <= l2.len(),
    ensures
        forall|k: int| 0 <= k < n ==> #[trigger] l1[k] == l2[k],
    decreases n,
{
    if n > 0 {
        let i = n - 1;
        lemma_sorted_listings_agree(l1, l2, m, i);
        let a = l1[i].0;
        let b = l2[i].0;
        assert(m.contains_key(a));
        assert(m.contains_key(b));
        let j = choose|j: int| 0 <= j < l2.len() && #[trigger] l2[j].0 == a;
        let j2 = choose|j: int| 0 <= j < l1.len() && #[trigger] l1[j].0 == b;
        if j < i {
            assert(l1[j] == l2[j]);
            assert(l1[j].0@ != l1[i].0@);
        }
        if j2 < i {
            assert(l1[j2] == l2[j2]);
            assert(l2[j2].0@ != l2[i].0@);
        }
        if j > i && j2 > i {
            assert(text_lt(l2[i].0@, l2[j].0@));
            assert(text_lt(l1[i].0@, l1[j2].0@));
            lemma_text_lt_transitive(a@, b@, a@);
            lemma_text_lt_irreflexive(a@);
        }
        assert(a == b);
        assert(l1[i] == (a, m[a]));
        assert(l2[i] == (b, m[b]));
    }
}

/// A map has only one listing in ascending order of names.
pub proof fn law_sorted_listing_unique<V>(l1: Seq<(String, V)>, l2: Seq<(String, V)>, m: Map<String, V>)
    requires
        lists_map(l1, m),
        lists_map(l2, m),
        sorted_by_name(l1),
        sorted_by_name(l2),
    ensures
        l1 == l2,
{
    if l1.len() <= l2.len() {
        lemma_sorted_listings_agree(l1, l2, m, l1.len() as int);
        if l1.len() < l2.len() {
            let k = l1.len() as int;
            assert(m.contains_key(l2[k].0));
            let j = choose|j: int| 0 <= j < l1.len() && #[trigger] l1[j].0 == l2[k].0;
            assert(l1[j] == l2[j]);
            assert(l2[j].0@ != l2[k].0@);
        }
    } else {
        lemma_sorted_listings_agree(l1, l2, m, l2.len() as int);
        let k = l2.len() as int;
        assert(m.contains_key(l1[k].0));
        let j = choose|j: int| 0 <= j < l2.len() && #[trigger] l2[j].0 == l1[k].0;
        assert(l1[j] == l2[j]);
        assert(l1[j].0@ != l1[k].0@);
    }
    assert(l1 =~= l2);
}

/// The script of a layout depends on its disks and pools alone: two layouts
/// with the same disks and the same pools under the same names get the same
/// script, whatever order their maps keep.
pub proof fn law_script_depends_on_contents(
    disks1: Seq<(String, Disk)>,
    pools1: Seq<(String, Zpool)>,
    disks2: Seq<(String, Disk)>,
    pools2: Seq<(String, Zpool)>,
    disk_map: Map<String, Disk>,
    pool_map: Map<String, Zpool>,
)
    requires
        lists_map(disks1, disk_map),
        lists_map(disks2, disk_map),
        sorted_by_name(disks1),
        sorted_by_name(disks2),
        lists_map(pools1, pool_map),
        lists_map(pools2, pool_map),
        sorted_by_name(pools1),
        sorted_by_name(pools2),
    ensures
        devices_commands(disks1, pools1) == devices_commands(disks2, pools2),
{
    law_sorted_listing_unique(disks1, disks2, disk_map);
    law_sorted_listing_unique(pools1, pools2, pool_map);
}

/// In a gpt table a partition's type plays no part, and in an msdos table
/// its name plays none: partitions that differ only there get the same
/// commands.
pub proof fn law_table_format_ignores(
    p: Partition,
    q: Partition,
    dev: (Seq<char>, Option<u8>),
    format: TableFormat,
    index: u8,
)
    requires
        p.fs_type == q.fs_type,
        p.start@ == q.start@,
        p.end@ == q.end@,
        p.flags@ == q.flags@,
        p.bootable == q.bootable,
        p.content == q.content,
        format == TableFormat::Gpt ==> p.name@ == q.name@,
        format == TableFormat::Msdos ==> p.part_type == q.part_type,
    ensures
        partition_commands(p, dev, format, index) == partition_commands(q, dev, format, index),
{
    assert(mkpart_candidates(p, format) =~= mkpart_candidates(q, format));
}

} // verus!
