use vstd::prelude::*;

use std::collections::HashMap;

use crate::disk::Disk;
use crate::lvm::LvmVg;
use crate::mdadm::Mdadm;
use crate::nodev::Nodev;
use crate::text::{
    decimal, lemma_text_lt_irreflexive, lemma_text_lt_total, lemma_text_lt_transitive, parse_u8,
    parse_u8_spec, push_decimal, starts_with, text_less, text_lt,
};
use crate::zfs::Zpool;

verus! {

/// Everything a disk layout describes, each kind of device by name.
#[derive(Debug)]
pub struct Devices {
    pub disk: HashMap<String, Disk>,
    pub mdadm: Option<HashMap<String, Mdadm>>,
    pub zpool: Option<HashMap<String, Zpool>>,
    pub lvm_vg: Option<HashMap<String, LvmVg>>,
    pub nodev: Option<HashMap<String, Nodev>>,
}

/// Whether `list` holds each entry of `m` exactly once: every item of the
/// list is an entry of the map, every key of the map is the key of an item,
/// and no two items have keys of the same text.
pub open spec fn lists_map<V>(list: Seq<(String, V)>, m: Map<String, V>) -> bool {
    &&& forall|i: int|
        0 <= i < list.len() ==> m.contains_key(#[trigger] list[i].0) && m[list[i].0] == list[i].1
    &&& forall|k: String| #[trigger]
        m.contains_key(k) ==> exists|i: int| 0 <= i < list.len() && #[trigger] list[i].0 == k
    &&& forall|i: int, j: int|
        0 <= i < j < list.len() ==> (#[trigger] list[i].0)@ != (#[trigger] list[j].0)@
}

/// The items of a list of borrowed entries.
pub open spec fn owned_entries<V>(list: Seq<(&String, &V)>) -> Seq<(String, V)> {
    list.map_values(|e: (&String, &V)| (*e.0, *e.1))
}

/// `HashMap::iter` on a map keyed by name, gathered into a list. Trusted:
/// each entry of the map comes exactly once, and no two keys have the same
/// text (two `String` keys are equal exactly when their texts are). The order
/// is the one in which the map walks its entries, which depends on the hasher
/// that each process seeds; nothing is stated of it.
#[verifier::external_body]
pub(crate) fn map_entries<V>(m: &HashMap<String, V>) -> (list: Vec<(&String, &V)>)
    ensures
        lists_map(owned_entries(list@), m@),
{
    m.iter().collect()
}

/// Whether the items of `list` come in ascending order of their keys' text.
pub open spec fn sorted_by_name<V>(list: Seq<(String, V)>) -> bool {
    forall|i: int, j: int|
        #![trigger list[i], list[j]]
        0 <= i < j < list.len() ==> text_lt(list[i].0@, list[j].0@)
}

/// The entries of a map listed in ascending order of their keys.
pub(crate) fn sort_by_name<'a, V>(list: Vec<(&'a String, &'a V)>, Ghost(m): Ghost<Map<String, V>>) -> (r: Vec<(&'a String, &'a V)>)
    requires
        lists_map(owned_entries(list@), m),
    ensures
        lists_map(owned_entries(r@), m),
        sorted_by_name(owned_entries(r@)),
{
    let ghost inp = owned_entries(list@);
    let mut r: Vec<(&'a String, &'a V)> = Vec::new();
    let mut i: usize = 0;
    while i < list.len()
        invariant
            0 <= i <= list.len(),
            inp == owned_entries(list@),
            lists_map(inp, m),
            forall|k: int|
                0 <= k < r@.len() ==> inp.take(i as int).contains(#[trigger] owned_entries(r@)[k]),
            forall|j: int| 0 <= j < i ==> owned_entries(r@).contains(#[trigger] inp[j]),
            sorted_by_name(owned_entries(r@)),
        decreases list.len() - i,
    {
        let x = list[i];
        let ghost rr = owned_entries(r@);
        let ghost xo = inp[i as int];
        assert(xo == (*x.0, *x.1));
        let mut p: usize = 0;
        loop
            invariant
                0 <= p <= r.len(),
                rr == owned_entries(r@),
                xo == inp[i as int],
                xo == (*x.0, *x.1),
                i < list.len(),
                inp == owned_entries(list@),
                lists_map(inp, m),
                forall|k: int| 0 <= k < r@.len() ==> inp.take(i as int).contains(#[trigger] rr[k]),
                sorted_by_name(rr),
                forall|k: int| 0 <= k < p ==> text_lt((#[trigger] rr[k]).0@, xo.0@),
            ensures
                0 <= p <= r.len(),
                forall|k: int| 0 <= k < p ==> text_lt((#[trigger] rr[k]).0@, xo.0@),
                forall|k: int| p <= k < r.len() ==> text_lt(xo.0@, (#[trigger] rr[k]).0@),
            decreases r.len() - p,
        {
            if p == r.len() {
                break;
            }
            if text_less(x.0.as_str(), r[p].0.as_str()) {
                assert(rr[p as int] == (*r@[p as int].0, *r@[p as int].1));
                proof {
                    assert forall|k: int| p <= k < r.len() implies text_lt(xo.0@, (#[trigger] rr[k]).0@) by {
                        if k > p {
                            lemma_text_lt_transitive(xo.0@, rr[p as int].0@, rr[k].0@);
                        }
                    }
                }
                break;
            }
            proof {
                assert(rr[p as int] == (*r@[p as int].0, *r@[p as int].1));
                assert(inp.take(i as int).contains(rr[p as int]));
                assert(inp.take(i as int).len() == i);
                let j = choose|j: int| 0 <= j < i && #[trigger] inp.take(i as int)[j] == rr[p as int];
                assert(inp[j] == rr[p as int]);
                assert(inp[j].0@ != inp[i as int].0@);
                lemma_text_lt_total(rr[p as int].0@, xo.0@);
            }
            p = p + 1;
        }
        let ghost before = r@;
        r.insert(p, x);
        proof {
            let nr = owned_entries(r@);
            assert(nr =~= rr.insert(p as int, xo));
            assert forall|k: int| 0 <= k < r@.len() implies inp.take(i + 1).contains(#[trigger] nr[k]) by {
                if k < p {
                    assert(nr[k] == rr[k]);
                    let j = choose|j: int| 0 <= j < i && #[trigger] inp.take(i as int)[j] == rr[k];
                    assert(inp.take(i + 1)[j] == nr[k]);
                } else if k == p {
                    assert(inp.take(i + 1)[i as int] == nr[k]);
                } else {
                    assert(nr[k] == rr[k - 1]);
                    assert(inp.take(i as int).contains(rr[k - 1]));
                    let j = choose|j: int| 0 <= j < i && #[trigger] inp.take(i as int)[j] == rr[k - 1];
                    assert(inp.take(i + 1)[j] == nr[k]);
                }
            }
            assert forall|j: int| 0 <= j < i + 1 implies nr.contains(#[trigger] inp[j]) by {
                if j < i {
                    assert(rr.contains(inp[j]));
                    let k = choose|k: int| 0 <= k < rr.len() && #[trigger] rr[k] == inp[j];
                    if k < p {
                        assert(nr[k] == inp[j]);
                    } else {
                        assert(nr[k + 1] == inp[j]);
                    }
                } else {
                    assert(nr[p as int] == inp[j]);
                }
            }
            assert forall|a: int, b: int| 0 <= a < b < nr.len() implies text_lt(
                (#[trigger] nr[a]).0@,
                (#[trigger] nr[b]).0@,
            ) by {
                if b < p {
                    assert(nr[a] == rr[a] && nr[b] == rr[b]);
                } else if b == p {
                    assert(nr[a] == rr[a]);
                } else if a < p {
                    assert(nr[a] == rr[a] && nr[b] == rr[b - 1]);
                    lemma_text_lt_transitive(rr[a].0@, xo.0@, rr[b - 1].0@);
                } else if a == p {
                    assert(nr[b] == rr[b - 1]);
                } else {
                    assert(nr[a] == rr[a - 1] && nr[b] == rr[b - 1]);
                }
            }
        }
        i = i + 1;
    }
    proof {
        let rr = owned_entries(r@);
        assert(inp.take(list.len() as int) =~= inp);
        assert forall|k: int| 0 <= k < rr.len() implies m.contains_key(#[trigger] rr[k].0) && m[rr[k].0]
            == rr[k].1 by {
            assert(inp.contains(rr[k]));
            let j = choose|j: int| 0 <= j < inp.len() && #[trigger] inp[j] == rr[k];
            assert(m.contains_key(inp[j].0));
        }
        assert forall|key: String| #[trigger] m.contains_key(key) implies exists|k: int|
            0 <= k < rr.len() && #[trigger] rr[k].0 == key by {
            let j = choose|j: int| 0 <= j < inp.len() && #[trigger] inp[j].0 == key;
            assert(rr.contains(inp[j]));
            let k = choose|k: int| 0 <= k < rr.len() && #[trigger] rr[k] == inp[j];
            assert(rr[k].0 == key);
        }
        assert forall|a: int, b: int| 0 <= a < b < rr.len() implies (#[trigger] rr[a].0)@ != (
        #[trigger] rr[b].0)@ by {
            assert(text_lt(rr[a].0@, rr[b].0@));
            lemma_text_lt_irreflexive(rr[a].0@);
        }
    }
    r
}

/// A block device: its path, and the number of a partition on it where it
/// names one. `/dev/sdb` is `DevicePath("/dev/sdb", None)`, its third
/// partition `DevicePath("/dev/sdb", Some(3))`.
#[derive(Debug, PartialEq, Eq)]
pub struct DevicePath(pub String, pub Option<u8>);

/// Why a text could not be read as a device path.
#[derive(Debug, PartialEq, Eq, Structural)]
pub enum DevicePathError {
    /// None of the device patterns matches the text.
    NoMatch,
    /// The pattern that matched captured no device path.
    NoPath,
    /// A device pattern is not a valid regular expression.
    InvalidPattern,
}

impl View for DevicePath {
    type V = (Seq<char>, Option<u8>);

    /// The path's text and the partition number.
    open spec fn view(&self) -> (Seq<char>, Option<u8>) {
        (self.0@, self.1)
    }
}

/// Whether `path` lies under `/dev/disk/`, where a partition's path is the
/// disk's path followed by `-part` and the number.
pub open spec fn is_disk_link(path: Seq<char>) -> bool {
    "/dev/disk/"@.len() <= path.len() && path.take("/dev/disk/"@.len() as int) == "/dev/disk/"@
}

/// What stands between a device's path and a partition number: `-part` under
/// `/dev/disk/`, nothing elsewhere (`/dev/sda1`).
pub open spec fn partition_separator(path: Seq<char>) -> Seq<char> {
    if is_disk_link(path) {
        "-part"@
    } else {
        Seq::empty()
    }
}

/// The text of a device path: the path, then, where there is a partition
/// number, the separator and the number in decimal.
pub open spec fn device_text(d: (Seq<char>, Option<u8>)) -> Seq<char> {
    d.0 + match d.1 {
        None => Seq::empty(),
        Some(index) => partition_separator(d.0) + decimal(index as nat),
    }
}

impl DevicePath {
    /// The text of this device path, as it stands in a shell command.
    pub fn to_string(&self) -> (s: String)
        ensures
            s@ == device_text(self@),
    {
        let mut s = self.0.clone();
        match self.1 {
            None => {},
            Some(index) => {
                if starts_with(self.0.as_str(), "/dev/disk/") {
                    s.append("-part");
                }
                push_decimal(&mut s, index);
            },
        }
        s
    }

    /// The partition numbered `index` on this device.
    pub fn with_partition(&self, index: u8) -> (p: Self)
        ensures
            p.0@ == self.0@,
            p.1 == Some(index),
    {
        DevicePath(self.0.clone(), Some(index))
    }

    /// The same partition number on the device at `path`.
    pub fn with_path(&self, path: &str) -> (p: Self)
        ensures
            p.0@ == path@,
            p.1 == self.1,
    {
        DevicePath(path.to_owned(), self.1)
    }

    /// Whether this path names a partition rather than a whole device.
    pub fn is_partition(&self) -> (b: bool)
        ensures
            b == self.1.is_some(),
    {
        self.1.is_some()
    }
}

#[verifier::external_type_specification]
#[verifier::external_body]
pub struct ExRegexError(regex::Error);

/// Whether `regex::Regex::new` accepts `pattern`.
pub uninterp spec fn regex_compiles(pattern: Seq<char>) -> bool;

/// The capture groups, group 0 first, of the leftmost match of the regular
/// expression `pattern` in `text`, as `regex::Regex::captures` finds them;
/// `None` where the expression does not match anywhere in `text`.
pub uninterp spec fn regex_capture_groups(pattern: Seq<char>, text: Seq<char>) -> Option<
    Seq<Option<Seq<char>>>,
>;

/// The text of each captured group.
pub open spec fn groups_view(groups: Seq<Option<String>>) -> Seq<Option<Seq<char>>> {
    groups.map_values(
        |g: Option<String>|
            match g {
                Some(s) => Some(s@),
                None => None,
            },
    )
}

/// Compiles `pattern` with `regex::Regex::new` and runs `Regex::captures` on
/// `text`. Trusted: an error exactly where `Regex::new` rejects the pattern;
/// otherwise the groups of the leftmost match, each as the text that
/// `Match::as_str` gives, or `None` where there is no match. What the groups
/// are is the named result `regex_capture_groups`, which is not spelled out.
#[verifier::external_body]
fn regex_captures(pattern: &str, text: &str) -> (r: Result<Option<Vec<Option<String>>>, regex::Error>)
    ensures
        r is Ok <==> regex_compiles(pattern@),
        r matches Ok(found) ==> match found {
            None => regex_capture_groups(pattern@, text@) is None,
            Some(groups) => regex_capture_groups(pattern@, text@) == Some(groups_view(groups@)),
        },
{
    let re = regex::Regex::new(pattern)?;
    Ok(re.captures(text).map(|caps| caps.iter().map(|m| m.map(|m| m.as_str().to_string())).collect()))
}

/// The patterns that a device path may have, tried in this order:
/// `/dev/sda`-style paths with what follows them, `/dev/disk/...-partN`
/// paths, and `/dev/disk/...` paths.
pub open spec fn device_patterns() -> Seq<Seq<char>> {
    seq![
        "(/dev/[vs]d[a-z]+)(.*)"@,
        "(/dev/disk/.+)-part(\\d+)?"@,
        "(/dev/disk/.+)?"@,
    ]
}

/// The groups of the first of `patterns` that matches `text`; `Err` where a
/// pattern tried before that does not compile.
pub open spec fn first_capture(patterns: Seq<Seq<char>>, text: Seq<char>) -> Result<
    Option<Seq<Option<Seq<char>>>>,
    (),
>
    decreases patterns.len(),
{
    if patterns.len() == 0 {
        Ok(None)
    } else if !regex_compiles(patterns[0]) {
        Err(())
    } else {
        match regex_capture_groups(patterns[0], text) {
            Some(groups) => Ok(Some(groups)),
            None => first_capture(patterns.drop_first(), text),
        }
    }
}

/// The device path read from the groups of a match: group 1 is the path,
/// group 2, where it was captured and reads as a byte, the partition number.
pub open spec fn path_from_groups(groups: Seq<Option<Seq<char>>>) -> Result<
    (Seq<char>, Option<u8>),
    DevicePathError,
> {
    if groups.len() > 1 && groups[1] is Some {
        Ok(
            (
                groups[1]->0,
                if groups.len() > 2 && groups[2] is Some {
                    parse_u8_spec(groups[2]->0)
                } else {
                    None
                },
            ),
        )
    } else {
        Err(DevicePathError::NoPath)
    }
}

/// The device path that a text denotes, as path and partition number.
pub open spec fn parse_device_path(text: Seq<char>) -> Result<(Seq<char>, Option<u8>), DevicePathError> {
    match first_capture(device_patterns(), text) {
        Err(()) => Err(DevicePathError::InvalidPattern),
        Ok(None) => Err(DevicePathError::NoMatch),
        Ok(Some(groups)) => path_from_groups(groups),
    }
}

/// The device path and partition number read from captured groups.
pub fn device_path_from_groups(groups: &Vec<Option<String>>) -> (r: Result<DevicePath, DevicePathError>)
    ensures
        match path_from_groups(groups_view(groups@)) {
            Ok((path, index)) => r matches Ok(d) && d.0@ == path && d.1 == index,
            Err(e) => r == Err::<DevicePath, DevicePathError>(e),
        },
{
    let ghost g = groups_view(groups@);
    if groups.len() > 1 {
        assert(g[1] == (match groups@[1] { Some(s) => Some(s@), None => None }));
        match &groups[1] {
            Some(path) => {
                let mut index = None;
                if groups.len() > 2 {
                    assert(g[2] == (match groups@[2] { Some(s) => Some(s@), None => None }));
                    match &groups[2] {
                        Some(digits) => {
                            index = parse_u8(digits.as_str());
                        },
                        None => {},
                    }
                }
                Ok(DevicePath(path.clone(), index))
            },
            None => Err(DevicePathError::NoPath),
        }
    } else {
        Err(DevicePathError::NoPath)
    }
}

impl DevicePath {
    /// Reads a device path from text: the first of the device patterns that
    /// matches gives the path and, where it captures one that reads as a
    /// byte, the partition number.
    pub fn try_from(value: &str) -> (r: Result<DevicePath, DevicePathError>)
        ensures
            match parse_device_path(value@) {
                Ok((path, index)) => r matches Ok(d) && d.0@ == path && d.1 == index,
                Err(e) => r == Err::<DevicePath, DevicePathError>(e),
            },
    {
        let p0 = "(/dev/[vs]d[a-z]+)(.*)";
        let p1 = "(/dev/disk/.+)-part(\\d+)?";
        let p2 = "(/dev/disk/.+)?";
        let ghost pats = device_patterns();
        proof {
            reveal_with_fuel(first_capture, 4);
        }
        assert(pats.drop_first() =~= seq![p1@, p2@]);
        assert(pats.drop_first().drop_first() =~= seq![p2@]);
        assert(pats.drop_first().drop_first().drop_first() =~= Seq::<Seq<char>>::empty());
        let found = match regex_captures(p0, value) {
            Err(_) => return Err(DevicePathError::InvalidPattern),
            Ok(Some(groups)) => Some(groups),
            Ok(None) => match regex_captures(p1, value) {
                Err(_) => return Err(DevicePathError::InvalidPattern),
                Ok(Some(groups)) => Some(groups),
                Ok(None) => match regex_captures(p2, value) {
                    Err(_) => return Err(DevicePathError::InvalidPattern),
                    Ok(found) => found,
                },
            },
        };
        match found {
            None => Err(DevicePathError::NoMatch),
            Some(groups) => device_path_from_groups(&groups),
        }
    }
}

} // verus!
