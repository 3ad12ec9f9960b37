use vstd::prelude::*;

use indexmap::IndexMap;

use crate::disk::Content;
use crate::text::join;

verus! {

#[verifier::external_type_specification]
#[verifier::external_body]
#[verifier::reject_recursive_types(K)]
#[verifier::reject_recursive_types(V)]
#[verifier::reject_recursive_types(S)]
pub struct ExIndexMap<K, V, S>(IndexMap<K, V, S>);

/// The entries of a map of ZFS properties, in the map's order.
pub uninterp spec fn property_entries(m: IndexMap<String, String>) -> Seq<(Seq<char>, Seq<char>)>;

/// The datasets of a pool by name, in the map's order.
pub uninterp spec fn dataset_entries(m: IndexMap<String, ZfsDataset>) -> Seq<(Seq<char>, ZfsDataset)>;

/// `IndexMap::len` on a map of properties. Trusted: the number of entries.
#[verifier::external_body]
fn property_count(m: &IndexMap<String, String>) -> (n: usize)
    ensures
        n == property_entries(*m).len(),
{
    m.len()
}

/// `IndexMap::get_index` on a map of properties. Trusted: the entry at
/// position `i` in the map's order, or `None` past the last one.
#[verifier::external_body]
fn property_at(m: &IndexMap<String, String>, i: usize) -> (e: Option<(&String, &String)>)
    ensures
        match e {
            Some((k, v)) => i < property_entries(*m).len() && k@ == property_entries(*m)[i as int].0
                && v@ == property_entries(*m)[i as int].1,
            None => i >= property_entries(*m).len(),
        },
{
    m.get_index(i)
}

/// `IndexMap::len` on a map of datasets. Trusted: the number of entries.
#[verifier::external_body]
pub(crate) fn dataset_count(m: &IndexMap<String, ZfsDataset>) -> (n: usize)
    ensures
        n == dataset_entries(*m).len(),
{
    m.len()
}

/// `IndexMap::get_index` on a map of datasets. Trusted: the entry at
/// position `i` in the map's order, or `None` past the last one.
#[verifier::external_body]
pub(crate) fn dataset_at(m: &IndexMap<String, ZfsDataset>, i: usize) -> (e: Option<(&String, &ZfsDataset)>)
    ensures
        match e {
            Some((k, v)) => i < dataset_entries(*m).len() && k@ == dataset_entries(*m)[i as int].0
                && *v == dataset_entries(*m)[i as int].1,
            None => i >= dataset_entries(*m).len(),
        },
{
    m.get_index(i)
}

/// A partition or disk that is a member of a ZFS pool.
#[derive(Debug)]
pub struct ZfsPartition {
    pub pool: String,
}

/// A ZFS pool and its datasets.
#[derive(Debug)]
pub struct Zpool {
    pub type_: String,
    pub mode: String,
    pub options: IndexMap<String, String>,
    pub root_fs_options: IndexMap<String, String>,
    pub mountpoint: Option<String>,
    pub mount_options: Vec<String>,
    pub datasets: IndexMap<String, ZfsDataset>,
}

/// A dataset of a ZFS pool.
#[derive(Debug)]
pub enum ZfsDataset {
    Filesystem(ZfsFilesystem),
    Volume(ZfsVolume),
}

/// A ZFS file system dataset.
#[derive(Debug)]
pub struct ZfsFilesystem {
    pub mountpoint: Option<String>,
    pub options: IndexMap<String, String>,
    pub mount_options: Vec<String>,
}

/// A ZFS volume and what it holds.
#[derive(Debug)]
pub struct ZfsVolume {
    pub size: String,
    pub content: Content,
    pub options: IndexMap<String, String>,
    pub mount_options: Vec<String>,
}

/// One property as a command-line argument: `flag name=value`.
pub open spec fn property_argument(flag: Seq<char>, entry: (Seq<char>, Seq<char>)) -> Seq<char> {
    flag + " "@ + entry.0 + "="@ + entry.1
}

/// All properties as command-line arguments, in order, separated by spaces.
pub open spec fn properties_text(entries: Seq<(Seq<char>, Seq<char>)>, flag: Seq<char>) -> Seq<char> {
    join(entries.map_values(|e: (Seq<char>, Seq<char>)| property_argument(flag, e)), " "@)
}

/// The properties of `options` as command-line arguments, each `flag
/// name=value`, separated by spaces.
pub fn make_zfs_options(options: &IndexMap<String, String>, flag: &str) -> (r: String)
    ensures
        r@ == properties_text(property_entries(*options), flag@),
{
    let ghost entries = property_entries(*options);
    let ghost parts = entries.map_values(|e: (Seq<char>, Seq<char>)| property_argument(flag@, e));
    let n = property_count(options);
    let mut r = String::new();
    let mut i: usize = 0;
    assert(parts.take(0) =~= Seq::<Seq<char>>::empty());
    while i < n
        invariant
            0 <= i <= n,
            n == entries.len(),
            entries == property_entries(*options),
            parts == entries.map_values(|e: (Seq<char>, Seq<char>)| property_argument(flag@, e)),
            r@ == join(parts.take(i as int), " "@),
        decreases n - i,
    {
        let (name, value) = match property_at(options, i) {
            Some(e) => e,
            None => {
                assert(false);
                return r;
            },
        };
        let ghost before = r@;
        if i != 0 {
            r.append(" ");
        }
        r.append(flag);
        r.append(" ");
        r.append(name.as_str());
        r.append("=");
        r.append(value.as_str());
        proof {
            assert(parts.take(i + 1).drop_last() =~= parts.take(i as int));
            assert(parts[i as int] == property_argument(flag@, entries[i as int]));
            if i == 0 {
                assert(parts.take(1) =~= seq![parts[0]]);
                assert(r@ =~= parts[0]);
            } else {
                assert(r@ =~= before + " "@ + parts[i as int]);
            }
        }
        i = i + 1;
    }
    assert(parts.take(n as int) =~= parts);
    r
}

} // verus!
