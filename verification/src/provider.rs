//! Where the foreground app's processes are read from on a cgroup v1
//! device: the configured `cpuset` top-app list, or, when that one cannot be
//! read, the `cpuctl` or `stune` top-app list beside it. Which files can be
//! read is the caller's to find out; the choice among them is made here.

use vstd::prelude::*;
use crate::text::{chars_of, has_suffix, last_index_of, push_char, push_str, string_of};

verus! {

/// The cgroup v1 controller a process list belongs to.
#[derive(Clone, Copy, Debug, PartialEq, Eq, Structural)]
pub enum CgroupV1SourceName {
    Cpuset,
    Cpuctl,
    Stune,
}

/// The controller's name.
pub open spec fn source_name_text(n: CgroupV1SourceName) -> Seq<char> {
    match n {
        CgroupV1SourceName::Cpuset => "cpuset"@,
        CgroupV1SourceName::Cpuctl => "cpuctl"@,
        CgroupV1SourceName::Stune => "stune"@,
    }
}

impl CgroupV1SourceName {
    pub fn as_str(self) -> (r: &'static str)
        ensures
            r@ == source_name_text(self),
    {
        match self {
            CgroupV1SourceName::Cpuset => "cpuset",
            CgroupV1SourceName::Cpuctl => "cpuctl",
            CgroupV1SourceName::Stune => "stune",
        }
    }
}

/// A process list that may name the foreground app.
pub struct CgroupV1SourceCandidate {
    pub name: CgroupV1SourceName,
    pub path: String,
}

/// The directory part `cpuset/top-app` that a standard cpuset top-app
/// path ends in, before its file name.
pub open spec fn cpuset_top_app() -> Seq<char> {
    seq!['c', 'p', 'u', 's', 'e', 't', '/', 't', 'o', 'p', '-', 'a', 'p', 'p']
}

/// The cgroup root of a configured path of the form
/// `<root>cpuset/top-app/<file>`, where `<file>` is a non-empty name and
/// `<root>` is empty or ends in `/`; `None` for any other path.
pub open spec fn v1_root(p: Seq<char>) -> Option<Seq<char>> {
    match last_index_of(p, '/') {
        None => None,
        Some(i) => {
            let dir = p.subrange(0, i);
            let n = cpuset_top_app().len();
            if i + 1 < p.len() && has_suffix(dir, cpuset_top_app()) && (dir.len() == n || dir[dir.len() - n
                - 1] == '/') {
                Some(dir.subrange(0, dir.len() - n))
            } else {
                None
            }
        },
    }
}

/// The process lists to try, in order of preference: the configured one,
/// then, for a standard cpuset top-app path, the `cpuctl` and `stune`
/// top-app lists under the same cgroup root.
pub open spec fn v1_candidates(p: Seq<char>) -> Seq<(CgroupV1SourceName, Seq<char>)> {
    match v1_root(p) {
        None => seq![(CgroupV1SourceName::Cpuset, p)],
        Some(root) => seq![
            (CgroupV1SourceName::Cpuset, p),
            (CgroupV1SourceName::Cpuctl, root + "cpuctl/top-app/cgroup.procs"@),
            (CgroupV1SourceName::Stune, root + "stune/top-app/cgroup.procs"@),
        ],
    }
}

/// Candidates as (name, path text) pairs.
pub open spec fn candidates_view(v: Seq<CgroupV1SourceCandidate>) -> Seq<(CgroupV1SourceName, Seq<char>)> {
    v.map_values(|c: CgroupV1SourceCandidate| (c.name, c.path@))
}

/// The first readable candidate, or the first candidate when none is.
pub open spec fn chosen_index(usable: Seq<bool>) -> int
    decreases usable.len(),
{
    if usable.len() == 0 {
        0
    } else if chosen_index(usable.drop_last()) < usable.len() - 1 && usable[chosen_index(usable.drop_last())] {
        chosen_index(usable.drop_last())
    } else if usable.last() {
        usable.len() - 1
    } else {
        0
    }
}

proof fn lemma_chosen_index(usable: Seq<bool>)
    ensures
        0 <= chosen_index(usable),
        usable.len() > 0 ==> chosen_index(usable) < usable.len(),
        (exists|i: int| 0 <= i < usable.len() && usable[i]) ==> {
            &&& usable[chosen_index(usable)]
            &&& forall|j: int| 0 <= j < chosen_index(usable) ==> !usable[j]
        },
        (forall|i: int| 0 <= i < usable.len() ==> !usable[i]) ==> chosen_index(usable) == 0,
    decreases usable.len(),
{
    if usable.len() > 0 {
        let d = usable.drop_last();
        lemma_chosen_index(d);
        let c = chosen_index(d);
        assert forall|j: int| 0 <= j < d.len() implies d[j] == usable[j] by {}
        if exists|i: int| 0 <= i < d.len() && d[i] {
            assert(c < d.len() && usable[c]);
            assert(chosen_index(usable) == c);
        } else {
            assert forall|j: int| 0 <= j < d.len() implies !usable[j] by {
                assert(!d[j]);
            }
            assert(c == 0);
            if usable.last() {
                assert(chosen_index(usable) == usable.len() - 1);
            } else {
                assert(chosen_index(usable) == 0);
                assert forall|i: int| 0 <= i < usable.len() implies !usable[i] by {
                    if i < d.len() {
                        assert(!d[i]);
                    }
                }
            }
        }
    }
}

/// Builds `root` followed by `tail`.
fn joined(sv: &Vec<char>, root_len: usize, tail: &str) -> (r: String)
    requires
        root_len <= sv@.len(),
    ensures
        r@ == sv@.subrange(0, root_len as int) + tail@,
{
    let mut out = String::new();
    let mut k: usize = 0;
    while k < root_len
        invariant
            root_len <= sv@.len(),
            k <= root_len,
            out@ == sv@.subrange(0, k as int),
        decreases root_len - k,
    {
        push_char(&mut out, sv[k]);
        assert(out@ =~= sv@.subrange(0, k + 1));
        k = k + 1;
    }
    push_str(&mut out, tail);
    out
}

/// The index of the last `/` in `sv`.
fn last_slash(sv: &Vec<char>) -> (r: Option<usize>)
    ensures
        match r {
            Some(i) => last_index_of(sv@, '/') == Some(i as int) && i < sv@.len(),
            None => last_index_of(sv@, '/') is None,
        },
{
    let n = sv.len();
    let ghost ps = sv@;
    let mut i: usize = n;
    proof {
        assert(ps.subrange(0, n as int) =~= ps);
    }
    while i > 0 && sv[i - 1] != '/'
        invariant
            sv@ == ps,
            n == ps.len(),
            i <= n,
            last_index_of(ps, '/') == last_index_of(ps.subrange(0, i as int), '/'),
        decreases i,
    {
        proof {
            assert(ps.subrange(0, i - 1) =~= ps.subrange(0, i as int).drop_last());
        }
        i = i - 1;
    }
    if i == 0 {
        proof {
            assert(last_index_of(ps.subrange(0, 0), '/') is None);
        }
        None
    } else {
        proof {
            assert(ps.subrange(0, i as int).last() == ps[i - 1]);
        }
        Some(i - 1)
    }
}

/// Whether the first `end` characters of `sv` end in `cpuset/top-app`.
fn ends_in_cpuset_top_app(sv: &Vec<char>, end: usize) -> (b: bool)
    requires
        end <= sv@.len(),
    ensures
        b == has_suffix(sv@.subrange(0, end as int), cpuset_top_app()),
{
    let ghost dir = sv@.subrange(0, end as int);
    let ghost pt = cpuset_top_app();
    let m: usize = 14;
    if end < m {
        return false;
    }
    let pat = chars_of("cpuset/top-app");
    proof {
        reveal_strlit("cpuset/top-app");
        assert(pat@ =~= pt);
    }
    let base = end - m;
    let mut k: usize = 0;
    while k < m
        invariant
            dir == sv@.subrange(0, end as int),
            pt == cpuset_top_app(),
            end <= sv@.len(),
            pat@ == pt,
            m == pt.len(),
            base + m == end,
            k <= m,
            forall|q: int| 0 <= q < k ==> dir[base + q] == pt[q],
        decreases m - k,
    {
        if sv[base + k] != pat[k] {
            proof {
                assert(dir[base + k] == sv@[base + k]);
                assert(pat@[k as int] == pt[k as int]);
                assert(dir.subrange(base as int, end as int)[k as int] != pt[k as int]);
            }
            return false;
        }
        k = k + 1;
    }
    proof {
        assert(dir.subrange(base as int, end as int) =~= pt);
    }
    true
}

/// The process lists to try for a configured cpuset top-app path, most
/// preferred first.
pub fn cgroup_v1_source_candidates(configured_cpuset_path: &str) -> (r: Vec<CgroupV1SourceCandidate>)
    ensures
        candidates_view(r@) == v1_candidates(configured_cpuset_path@),
{
    let p = configured_cpuset_path;
    let sv = chars_of(p);
    let n = sv.len();
    let ghost ps = p@;
    let mut single: Vec<CgroupV1SourceCandidate> = Vec::new();
    single.push(CgroupV1SourceCandidate { name: CgroupV1SourceName::Cpuset, path: string_of(p) });
    proof {
        assert(candidates_view(single@) =~= seq![(CgroupV1SourceName::Cpuset, ps)]);
    }
    let m: usize = 14;
    let slash = match last_slash(&sv) {
        None => return single,
        Some(i) => i,
    };
    if slash + 1 >= n || !ends_in_cpuset_top_app(&sv, slash) {
        return single;
    }
    let base = slash - m;
    if base > 0 && sv[base - 1] != '/' {
        return single;
    }
    let cpuctl = joined(&sv, base, "cpuctl/top-app/cgroup.procs");
    let stune = joined(&sv, base, "stune/top-app/cgroup.procs");
    let mut all: Vec<CgroupV1SourceCandidate> = Vec::new();
    all.push(CgroupV1SourceCandidate { name: CgroupV1SourceName::Cpuset, path: string_of(p) });
    all.push(CgroupV1SourceCandidate { name: CgroupV1SourceName::Cpuctl, path: cpuctl });
    all.push(CgroupV1SourceCandidate { name: CgroupV1SourceName::Stune, path: stune });
    proof {
        let dir = ps.subrange(0, slash as int);
        assert(dir.subrange(0, dir.len() - m) =~= ps.subrange(0, base as int));
        assert(v1_root(ps) == Some(ps.subrange(0, base as int)));
        assert(candidates_view(all@) =~= v1_candidates(ps));
    }
    all
}

/// Picks the process list to read: the first candidate that can be read,
/// or the first candidate when none can. `usable[i]` says whether
/// `candidates[i]` can be read.
pub fn select_cgroup_v1_source(candidates: Vec<CgroupV1SourceCandidate>, usable: &Vec<bool>) -> (c:
    CgroupV1SourceCandidate)
    requires
        candidates@.len() > 0,
        usable@.len() == candidates@.len(),
    ensures
        (c.name, c.path@) == candidates_view(candidates@)[chosen_index(usable@)],
{
    proof {
        lemma_chosen_index(usable@);
    }
    let mut chosen: usize = 0;
    let mut k: usize = 0;
    while k < usable.len()
        invariant
            usable@.len() == candidates@.len(),
            k <= usable@.len(),
            chosen == chosen_index(usable@.subrange(0, k as int)),
            chosen < candidates@.len(),
        decreases usable@.len() - k,
    {
        proof {
            let s = usable@.subrange(0, k + 1);
            assert(s.drop_last() =~= usable@.subrange(0, k as int));
            lemma_chosen_index(usable@.subrange(0, k as int));
        }
        if !(chosen < k && usable[chosen]) && usable[k] {
            chosen = k;
        } else if !(chosen < k && usable[chosen]) {
            chosen = 0;
        }
        k = k + 1;
    }
    proof {
        assert(usable@.subrange(0, usable@.len() as int) =~= usable@);
    }
    let mut candidates = candidates;
    candidates.swap_remove(chosen)
}

} // verus!
