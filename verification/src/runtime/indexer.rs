//! The index of each installed app's preloadable files: which directory
//! names an app, which files are worth reading ahead and in what order,
//! and within which limits. The directory walk itself is the runtime's.

use vstd::prelude::*;
use crate::features::preload::RuntimeAbi;
use crate::text::{chars_of, contains_text, ends_with_text, has_infix, has_suffix, last_index_of, push_char};

verus! {

/// Directories visited in one rebuild, at most.
pub const MAX_DIRS_VISITED: usize = 256;
/// Files indexed per package, at most.
pub const MAX_FILES_PER_PACKAGE: usize = 64;
/// Bytes indexed per package, at most.
pub const MAX_BYTES_PER_PACKAGE: u64 = 268435456;
/// Directory depth searched below a package directory.
pub const MAX_DEPTH_UNDER_PKG: usize = 4;

pub struct AppPathEntry {
    pub candidates: Vec<String>,
}

pub struct AppPathIndex {
    pub built_ms: u64,
    pub last_rebuild_ms: u64,
    pub last_build_duration_ms: u64,
    pub entries: Vec<(String, AppPathEntry)>,
    pub stale: bool,
}

/// The package a directory `<package>-<suffix>` holds: the part before the
/// last `-`, if it is not empty and has a dot.
pub open spec fn package_of_dir(name: Seq<char>) -> Option<Seq<char>> {
    match last_index_of(name, '-') {
        Some(i) => {
            let p = name.take(i);
            if p.len() > 0 && p.contains('.') {
                Some(p)
            } else {
                None
            }
        },
        None => None,
    }
}

proof fn lemma_last_index_of(s: Seq<char>, c: char, i: int)
    requires
        0 <= i <= s.len(),
        forall|j: int| i <= j < s.len() ==> s[j] != c,
    ensures
        last_index_of(s, c) == last_index_of(s.take(i), c),
    decreases s.len() - i,
{
    if i < s.len() {
        lemma_last_index_of(s.drop_last(), c, i);
        assert(s.drop_last().take(i) =~= s.take(i));
    } else {
        assert(s.take(i) =~= s);
    }
}

/// Reads the package a directory name holds (see `package_of_dir`).
pub fn package_name_from_dir(name: &str) -> (r: Option<String>)
    ensures
        match r {
            Some(p) => package_of_dir(name@) == Some(p@),
            None => package_of_dir(name@) is None,
        },
{
    let v = chars_of(name);
    let n = v.len();
    let mut i: usize = n;
    while i > 0 && v[i - 1] != '-'
        invariant
            v@ == name@,
            n == name@.len(),
            i <= n,
            forall|j: int| i <= j < n ==> name@[j] != '-',
        decreases i,
    {
        i = i - 1;
    }
    proof {
        lemma_last_index_of(name@, '-', i as int);
    }
    if i == 0 {
        assert(name@.take(0).len() == 0);
        return None;
    }
    let split = i - 1;
    proof {
        assert(name@.take(i as int).last() == '-');
        assert(name@.take(i as int).drop_last() =~= name@.take(split as int));
    }
    let mut out = String::new();
    let mut has_dot = false;
    for k in 0..split
        invariant
            v@ == name@,
            n == name@.len(),
            split < n,
            out@ == name@.take(k as int),
            has_dot == out@.contains('.'),
    {
        let c = v[k];
        push_char(&mut out, c);
        assert(out@ =~= name@.take(k + 1));
        if c == '.' {
            has_dot = true;
            assert(out@[k as int] == '.');
        } else {
            proof {
                if out@.contains('.') {
                    let q = choose|q: int| 0 <= q < out@.len() && out@[q] == '.';
                    assert(q < k);
                    assert(name@.take(k as int)[q] == '.');
                }
            }
        }
    }
    if split == 0 || !has_dot {
        return None;
    }
    Some(out)
}

/// Entries never indexed: caches, temporary files, logs and metadata
/// (by lower-case name).
pub open spec fn is_skipped_name(lower: Seq<char>) -> bool {
    has_infix(lower, "cache"@) || has_infix(lower, "tmp"@) || has_infix(lower, "log"@) || has_infix(lower, "metadata"@)
}

pub fn is_skipped_entry(lower: &str) -> (r: bool)
    ensures
        r == is_skipped_name(lower@),
{
    contains_text(lower, "cache") || contains_text(lower, "tmp") || contains_text(lower, "log") || contains_text(
        lower,
        "metadata",
    )
}

/// Files never indexed: APKs, dex metadata and digests.
pub open spec fn is_excluded_name(lower: Seq<char>) -> bool {
    has_suffix(lower, ".apk"@) || has_suffix(lower, ".dm"@) || has_infix(lower, "digests"@)
}

pub fn is_excluded_file(lower: &str) -> (r: bool)
    ensures
        r == is_excluded_name(lower@),
{
    ends_with_text(lower, ".apk") || ends_with_text(lower, ".dm") || contains_text(lower, "digests")
}

/// How early a file is read ahead (1 first), if at all: compiled code of
/// the device's ABI, then its native libraries, then those of the 32-bit
/// ABI on a 64-bit device.
pub open spec fn preload_priority_spec(lower: Seq<char>, path: Seq<char>, abi: RuntimeAbi) -> Option<u8> {
    let is_odex = has_suffix(lower, ".vdex"@) || has_suffix(lower, ".odex"@) || has_suffix(lower, ".art"@);
    let is_lib = has_suffix(lower, ".so"@);
    match abi {
        RuntimeAbi::Arm64 => if has_infix(path, "/oat/arm64/"@) && is_odex {
            Some(1u8)
        } else if has_infix(path, "/oat/arm/"@) && is_odex {
            Some(3u8)
        } else if has_infix(path, "/lib/arm64/"@) && is_lib {
            Some(2u8)
        } else if has_infix(path, "/lib/arm/"@) && is_lib {
            Some(4u8)
        } else {
            None
        },
        RuntimeAbi::Arm32 => if has_infix(path, "/oat/arm/"@) && is_odex {
            Some(1u8)
        } else if has_infix(path, "/lib/arm/"@) && is_lib {
            Some(2u8)
        } else {
            None
        },
    }
}

pub fn preload_priority(lower: &str, path: &str, abi: RuntimeAbi) -> (r: Option<u8>)
    ensures
        r == preload_priority_spec(lower@, path@, abi),
{
    let is_odex = ends_with_text(lower, ".vdex") || ends_with_text(lower, ".odex") || ends_with_text(lower, ".art");
    let is_lib = ends_with_text(lower, ".so");
    match abi {
        RuntimeAbi::Arm64 => {
            if contains_text(path, "/oat/arm64/") && is_odex {
                Some(1)
            } else if contains_text(path, "/oat/arm/") && is_odex {
                Some(3)
            } else if contains_text(path, "/lib/arm64/") && is_lib {
                Some(2)
            } else if contains_text(path, "/lib/arm/") && is_lib {
                Some(4)
            } else {
                None
            }
        },
        RuntimeAbi::Arm32 => {
            if contains_text(path, "/oat/arm/") && is_odex {
                Some(1)
            } else if contains_text(path, "/lib/arm/") && is_lib {
                Some(2)
            } else {
                None
            }
        },
    }
}

/// Whether a file of `size` bytes still fits a package's byte budget.
pub fn fits_budget(total: u64, size: u64) -> (r: bool)
    ensures
        r == (total + size <= MAX_BYTES_PER_PACKAGE),
{
    size <= MAX_BYTES_PER_PACKAGE && total <= MAX_BYTES_PER_PACKAGE - size
}

/// Candidates sorted by priority.
pub open spec fn sorted_by_priority(s: Seq<(Seq<char>, u8)>) -> bool {
    forall|i: int, j: int| 0 <= i < j < s.len() ==> #[trigger] s[i].1 <= #[trigger] s[j].1
}

pub open spec fn candidates_view(s: Seq<(String, u8)>) -> Seq<(Seq<char>, u8)> {
    s.map_values(|c: (String, u8)| (c.0@, c.1))
}

/// Stable insertion of each candidate after those of no greater priority.
pub fn order_candidates(found: &Vec<(String, u8)>) -> (r: Vec<String>)
    ensures
        ({
            let ordered = r@.map_values(|p: String| p@);
            exists|all: Seq<(Seq<char>, u8)>|
                #![trigger all.to_multiset()]
                {
                    &&& all.to_multiset() == candidates_view(found@).to_multiset()
                    &&& sorted_by_priority(all)
                    &&& ordered == all.map_values(|c: (Seq<char>, u8)| c.0)
                }
        }),
{
    let mut out: Vec<(String, u8)> = Vec::new();
    let n = found.len();
    assert(candidates_view(out@) =~= candidates_view(found@.take(0)));
    for i in 0..n
        invariant
            n == found@.len(),
            sorted_by_priority(candidates_view(out@)),
            candidates_view(out@).to_multiset() == candidates_view(found@.take(i as int)).to_multiset(),
    {
        let pr = found[i].1;
        let m = out.len();
        let mut p: usize = 0;
        while p < m && out[p].1 <= pr
            invariant
                m == out@.len(),
                p <= m,
                forall|j: int| 0 <= j < p ==> #[trigger] out@[j].1 <= pr,
            decreases m - p,
        {
            p = p + 1;
        }
        let ghost before = candidates_view(out@);
        let ghost ev = (found@[i as int].0@, pr);
        out.insert(p, (found[i].0.clone(), pr));
        proof {
            assert(candidates_view(out@) =~= before.insert(p as int, ev));
            assert(candidates_view(found@.take(i + 1)) =~= candidates_view(found@.take(i as int)).push(ev));
            vstd::seq_lib::to_multiset_insert(before, p as int, ev);
            vstd::seq_lib::to_multiset_build(candidates_view(found@.take(i as int)), ev);
            let l = candidates_view(out@);
            assert forall|a: int, b: int| 0 <= a < b < l.len() implies #[trigger] l[a].1 <= #[trigger] l[b].1 by {
                if b < p {
                    assert(l[a] == before[a] && l[b] == before[b]);
                } else if b == p {
                    assert(l[a] == before[a]);
                } else if a == p {
                    assert(l[b] == before[b - 1]);
                    if p < m {
                        assert(before[p as int].1 > pr);
                    }
                } else if a < p {
                    assert(l[a] == before[a] && l[b] == before[b - 1]);
                } else {
                    assert(l[a] == before[a - 1] && l[b] == before[b - 1]);
                }
            }
        }
    }
    proof {
        assert(found@.take(n as int) =~= found@);
    }
    let mut paths: Vec<String> = Vec::new();
    let k = out.len();
    for i in 0..k
        invariant
            k == out@.len(),
            paths@.map_values(|p: String| p@) == candidates_view(out@).take(i as int).map_values(
                |c: (Seq<char>, u8)| c.0,
            ),
    {
        let ghost before = paths@;
        let item = out[i].0.clone();
        let ghost iv = item@;
        paths.push(item);
        proof {
            assert(iv == candidates_view(out@)[i as int].0);
            assert(paths@.map_values(|p: String| p@) =~= before.map_values(|p: String| p@).push(iv));
            assert(candidates_view(out@).take(i + 1).map_values(|c: (Seq<char>, u8)| c.0) =~= candidates_view(
                out@,
            ).take(i as int).map_values(|c: (Seq<char>, u8)| c.0).push(iv));
        }
    }
    proof {
        let all = candidates_view(out@);
        assert(all.take(k as int) =~= all);
        assert(all.to_multiset() == candidates_view(found@).to_multiset() && sorted_by_priority(all)
            && paths@.map_values(|p: String| p@) == all.map_values(|c: (Seq<char>, u8)| c.0));
    }
    paths
}

impl AppPathIndex {
    /// An empty, never built index.
    pub fn new() -> (x: Self)
        ensures
            x.built_ms == 0,
            x.last_rebuild_ms == 0,
            x.last_build_duration_ms == 0,
            x.entries@.len() == 0,
            !x.stale,
    {
        AppPathIndex { built_ms: 0, last_rebuild_ms: 0, last_build_duration_ms: 0, entries: Vec::new(), stale: false }
    }

    /// Installs the entries of a rebuild finished at `built_ms` that took
    /// `duration_ms`; the index is fresh again.
    pub fn record_rebuild(&mut self, entries: Vec<(String, AppPathEntry)>, built_ms: u64, duration_ms: u64)
        ensures
            final(self).entries == entries,
            final(self).built_ms == built_ms,
            final(self).last_rebuild_ms == built_ms,
            final(self).last_build_duration_ms == duration_ms,
            !final(self).stale,
    {
        self.entries = entries;
        self.built_ms = built_ms;
        self.last_rebuild_ms = built_ms;
        self.last_build_duration_ms = duration_ms;
        self.stale = false;
    }

    /// The indexed files of a package, in read-ahead order; none when the
    /// package is not indexed.
    pub fn candidates_for(&self, package: &str) -> (r: Vec<String>)
        ensures
            ({
                let i = crate::features::profile::key_pos(self.entries@, package@);
                match i {
                    Some(k) => r@.map_values(|p: String| p@) == self.entries@[k].1.candidates@.map_values(
                        |p: String| p@,
                    ),
                    None => r@.len() == 0,
                }
            }),
    {
        proof {
            crate::features::profile::lemma_key_pos_found(self.entries@, package@);
        }
        match crate::features::profile::find_key(&self.entries, package) {
            Some(k) => {
                let c = self.entries[k].1.candidates.clone();
                assert(c@.map_values(|p: String| p@) =~= self.entries@[k as int].1.candidates@.map_values(
                    |p: String| p@,
                ));
                c
            },
            None => Vec::new(),
        }
    }
}

} // verus!
