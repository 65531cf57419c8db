//! Rules for picking the foreground app among the top-app processes.

use vstd::prelude::*;
use vstd::string::StringExecFns;
use crate::codec::{decode_packages, opt_texts_view, packages_of_json};
use crate::text::{
    after_prefix, is_whitespace, is_ws, parse_i32, parse_i32_text, push_char, split_ws, str_eq, strip_text_prefix,
    string_of, words,
};

verus! {

/// The characters of `s` before its first `:` (all of `s` when it has none).
pub open spec fn before_colon(s: Seq<char>) -> Seq<char>
    decreases s.len(),
{
    if s.len() == 0 {
        s
    } else if s[0] == ':' {
        seq![]
    } else {
        seq![s[0]] + before_colon(s.drop_first())
    }
}

/// The package part of a command line: its first word, cut before the first
/// `:` (a process name such as `com.foo.bar:service` names `com.foo.bar`).
pub open spec fn package_of_cmdline(cmdline: Seq<char>) -> Seq<char> {
    if split_ws(cmdline).len() > 0 {
        before_colon(split_ws(cmdline)[0])
    } else {
        seq![]
    }
}

pub fn normalize_package(cmdline: &str) -> (r: String)
    ensures
        r@ == package_of_cmdline(cmdline@),
{
    let ws = words(cmdline);
    if ws.len() == 0 {
        return String::new();
    }
    let token = ws[0].as_str();
    let ghost first = token@;
    let n = token.unicode_len();
    let mut out = String::new();
    let mut i: usize = 0;
    proof {
        assert(first.skip(0) =~= first);
    }
    while i < n
        invariant
            n == first.len(),
            token@ == first,
            split_ws(cmdline@).len() > 0,
            first == split_ws(cmdline@)[0],
            i <= n,
            out@ + before_colon(first.skip(i as int)) == before_colon(first),
        decreases n - i,
    {
        let c = token.get_char(i);
        proof {
            assert(first.skip(i as int)[0] == c);
            assert(first.skip(i as int).drop_first() =~= first.skip(i + 1));
        }
        if c == ':' {
            proof {
                assert(before_colon(first.skip(i as int)) == Seq::<char>::empty());
                assert(out@ + Seq::<char>::empty() =~= out@);
                assert(out@ == before_colon(first));
                assert(first == split_ws(cmdline@)[0]);
            }
            return out;
        }
        let ghost before = out@;
        push_char(&mut out, c);
        proof {
            assert(before_colon(first.skip(i as int)) == seq![c] + before_colon(first.skip(i + 1)));
            assert(out@ + before_colon(first.skip(i + 1)) =~= before + before_colon(first.skip(i as int)));
        }
        i = i + 1;
    }
    proof {
        assert(first.skip(i as int).len() == 0);
        assert(out@ + Seq::<char>::empty() =~= out@);
    }
    out
}


/// Least uid of an app; processes of lower uids are the system's.
pub const FIRST_APP_UID: u32 = 10000;

/// What a top-app process comes to: an app package that may be in front,
/// or why it may not.
pub enum CandidateResult {
    Accept { pid: i32, package: String },
    SkipSystemUid,
    SkipBlacklisted,
    SkipCmdlineFailed,
    SkipMalformed,
    SkipProcStatFailed,
}

/// A candidate as plain values.
pub enum Candidate {
    Accept(i32, Seq<char>),
    SkipSystemUid,
    SkipBlacklisted,
    SkipCmdlineFailed,
    SkipMalformed,
    SkipProcStatFailed,
}

pub open spec fn candidate_view(r: CandidateResult) -> Candidate {
    match r {
        CandidateResult::Accept { pid, package } => Candidate::Accept(pid, package@),
        CandidateResult::SkipSystemUid => Candidate::SkipSystemUid,
        CandidateResult::SkipBlacklisted => Candidate::SkipBlacklisted,
        CandidateResult::SkipCmdlineFailed => Candidate::SkipCmdlineFailed,
        CandidateResult::SkipMalformed => Candidate::SkipMalformed,
        CandidateResult::SkipProcStatFailed => Candidate::SkipProcStatFailed,
    }
}

/// What was read about one top-app process: its uid (`None` when its
/// status could not be read) and its command line (`None` when it could
/// not be read).
pub struct PidProbe {
    pub uid: Option<u32>,
    pub cmdline: Option<String>,
}

/// How many top-app processes a scan looked at, and why each was passed
/// over.
pub struct ScanSummary {
    pub total: usize,
    pub system_uid: usize,
    pub blacklisted: usize,
    pub cmdline_failed: usize,
    pub malformed: usize,
    pub proc_stat_failed: usize,
}

/// Whether a name looks like an app package: it has a dot, no white space,
/// and between 4 and 127 bytes.
pub open spec fn package_like(n: Seq<char>) -> bool {
    &&& n.len() > 0
    &&& n.contains('.')
    &&& forall|i: int| 0 <= i < n.len() ==> !is_ws(#[trigger] n[i])
    &&& vstd::utf8::encode_utf8(n).len() > 3
    &&& vstd::utf8::encode_utf8(n).len() < 128
}

/// Whether a name starts with one of the blacklisted prefixes.
pub open spec fn blacklisted(blacklist: Seq<Seq<char>>, n: Seq<char>) -> bool {
    exists|i: int| 0 <= i < blacklist.len() && #[trigger] after_prefix(n, blacklist[i]) is Some
}

/// The verdict on a top-app process: system uids and unreadable processes
/// are passed over; otherwise the package its command line names is taken
/// unless it is malformed or blacklisted.
pub open spec fn candidate_spec(
    blacklist: Seq<Seq<char>>,
    pid: i32,
    uid: Option<u32>,
    cmdline: Option<Seq<char>>,
) -> Candidate {
    match uid {
        None => Candidate::SkipProcStatFailed,
        Some(u) => if u < FIRST_APP_UID {
            Candidate::SkipSystemUid
        } else {
            match cmdline {
                Some(c) => if c.len() > 0 {
                    let p = package_of_cmdline(c);
                    if !package_like(p) {
                        Candidate::SkipMalformed
                    } else if blacklisted(blacklist, p) {
                        Candidate::SkipBlacklisted
                    } else {
                        Candidate::Accept(pid, p)
                    }
                } else {
                    Candidate::SkipCmdlineFailed
                },
                None => Candidate::SkipCmdlineFailed,
            }
        },
    }
}

/// The pids a top-app list names: its words that read as an `i32`, in
/// order.
pub open spec fn parsed_pids(ws: Seq<Seq<char>>) -> Seq<i32>
    decreases ws.len(),
{
    if ws.len() == 0 {
        seq![]
    } else {
        let rest = parsed_pids(ws.drop_last());
        match parse_i32_text(ws.last()) {
            Some(p) => rest.push(p),
            None => rest,
        }
    }
}

pub open spec fn pids_of(content: Seq<char>) -> Seq<i32> {
    parsed_pids(split_ws(content))
}

pub open spec fn probe_cmdline(p: PidProbe) -> Option<Seq<char>> {
    match p.cmdline {
        Some(c) => Some(c@),
        None => None,
    }
}

/// The verdicts on the pids `pids`, one probe each.
pub open spec fn candidates(blacklist: Seq<Seq<char>>, pids: Seq<i32>, probes: Seq<PidProbe>) -> Seq<Candidate> {
    Seq::new(pids.len(), |k: int| candidate_spec(blacklist, pids[k], probes[k].uid, probe_cmdline(probes[k])))
}

/// The first accepted candidate at or after position `i`.
pub open spec fn first_accept_from(cs: Seq<Candidate>, i: int) -> Option<int>
    decreases cs.len() - i,
{
    if i < 0 || i >= cs.len() {
        None
    } else if cs[i] is Accept {
        Some(i)
    } else {
        first_accept_from(cs, i + 1)
    }
}

/// Whether an accepted app is the one accepted last time.
pub open spec fn repeats_last(r: ForegroundResolver, pid: i32, pkg: Seq<char>) -> bool {
    r.last_accepted_pid == Some(pid) && (r.last_accepted_package matches Some(p) && p@ == pkg)
}

/// The resolver after reporting an accepted app, and what it reports.
pub open spec fn accepted(
    pre: ForegroundResolver,
    post: ForegroundResolver,
    pid: i32,
    pkg: Seq<char>,
    r: Option<ForegroundSnapshot>,
) -> bool {
    &&& post.blacklist == pre.blacklist
    &&& if repeats_last(pre, pid, pkg) {
        &&& r is None
        &&& post.last_accepted_pid == pre.last_accepted_pid
        &&& post.last_accepted_package == pre.last_accepted_package
    } else {
        &&& r is Some
        &&& snapshot_view(r->0) == (Some(pid), Some(pkg), None::<Seq<char>>)
        &&& post.last_accepted_pid == Some(pid)
        &&& post.last_accepted_package matches Some(p) && p@ == pkg
    }
}

/// How many of `cs` equal `c`.
pub open spec fn count_of(cs: Seq<Candidate>, c: Candidate) -> nat
    decreases cs.len(),
{
    if cs.len() == 0 {
        0
    } else {
        count_of(cs.drop_last(), c) + if cs.last() == c { 1nat } else { 0nat }
    }
}


proof fn lemma_parsed_prefix(ws: Seq<Seq<char>>, a: int)
    requires
        0 <= a <= ws.len(),
    ensures
        parsed_pids(ws.take(a)).len() <= parsed_pids(ws).len(),
        forall|k: int| 0 <= k < parsed_pids(ws.take(a)).len() ==> parsed_pids(ws.take(a))[k] == parsed_pids(ws)[k],
    decreases ws.len() - a,
{
    if a == ws.len() {
        assert(ws.take(a) =~= ws);
    } else {
        lemma_parsed_prefix(ws, a + 1);
        assert(ws.take(a + 1).drop_last() =~= ws.take(a));
    }
}

proof fn lemma_first_accept_skips(cs: Seq<Candidate>, i: int)
    requires
        0 <= i <= cs.len(),
        forall|j: int| 0 <= j < i ==> !(#[trigger] cs[j] is Accept),
    ensures
        first_accept_from(cs, 0) == first_accept_from(cs, i),
    decreases i,
{
    if i > 0 {
        lemma_first_accept_skips(cs, i - 1);
    }
}

/// Picks the foreground app among the top-app processes, and remembers the
/// last one accepted.
pub struct ForegroundResolver {
    pub last_accepted_pid: Option<i32>,
    pub last_accepted_package: Option<String>,
    pub blacklist: Vec<String>,
}

pub open spec fn names_view(v: Seq<String>) -> Seq<Seq<char>> {
    v.map_values(|s: String| s@)
}

pub open spec fn snapshot_view(s: ForegroundSnapshot) -> (Option<i32>, Option<Seq<char>>, Option<Seq<char>>) {
    (
        s.pid,
        match s.package {
            Some(p) => Some(p@),
            None => None,
        },
        match s.last_skip_reason {
            Some(r) => Some(r@),
            None => None,
        },
    )
}

impl ForegroundResolver {
    /// A resolver that has accepted nothing yet.
    pub fn new(blacklist: Vec<String>) -> (r: Self)
        ensures
            r.last_accepted_pid is None,
            r.last_accepted_package is None,
            r.blacklist == blacklist,
    {
        ForegroundResolver { last_accepted_pid: None, last_accepted_package: None, blacklist }
    }

    /// Whether a name looks like an app package (see `package_like`).
    pub fn is_package_like(&self, name: &str) -> (r: bool)
        ensures
            r == package_like(name@),
    {
        let n = name.unicode_len();
        if n == 0 {
            return false;
        }
        let mut has_dot = false;
        let mut i: usize = 0;
        while i < n
            invariant
                n == name@.len(),
                i <= n,
                forall|k: int| 0 <= k < i ==> !is_ws(#[trigger] name@[k]),
                has_dot == (exists|k: int| 0 <= k < i && name@[k] == '.'),
            decreases n - i,
        {
            let c = name.get_char(i);
            if is_whitespace(c) {
                assert(is_ws(name@[i as int]));
                return false;
            }
            if c == '.' {
                has_dot = true;
            }
            i = i + 1;
        }
        proof {
            if has_dot {
                let k = choose|k: int| 0 <= k < n && name@[k] == '.';
                assert(name@[k] == '.');
            }
            if name@.contains('.') {
                let k = choose|k: int| 0 <= k < name@.len() && name@[k] == '.';
                assert(name@[k] == '.');
            }
        }
        let bytes = name.as_bytes().len();
        assert(has_dot == name@.contains('.'));
        assert(bytes == vstd::utf8::encode_utf8(name@).len());
        has_dot && bytes > 3 && bytes < 128
    }

    /// Whether a name starts with a blacklisted prefix.
    pub fn is_blacklisted(&self, name: &str) -> (r: bool)
        ensures
            r == blacklisted(names_view(self.blacklist@), name@),
    {
        let ghost bl = names_view(self.blacklist@);
        let mut i: usize = 0;
        while i < self.blacklist.len()
            invariant
                bl == names_view(self.blacklist@),
                i <= self.blacklist@.len(),
                forall|k: int| 0 <= k < i ==> !(#[trigger] after_prefix(name@, bl[k]) is Some),
            decreases self.blacklist@.len() - i,
        {
            if strip_text_prefix(name, self.blacklist[i].as_str()).is_some() {
                assert(after_prefix(name@, bl[i as int]) is Some);
                return true;
            }
            i = i + 1;
        }
        false
    }

    /// The verdict on process `pid` from what was read about it.
    pub fn classify_pid(&self, pid: i32, probe: &PidProbe) -> (r: CandidateResult)
        ensures
            candidate_view(r) == candidate_spec(names_view(self.blacklist@), pid, probe.uid, probe_cmdline(*probe)),
    {
        let uid = match probe.uid {
            Some(u) => u,
            None => return CandidateResult::SkipProcStatFailed,
        };
        if uid < FIRST_APP_UID {
            return CandidateResult::SkipSystemUid;
        }
        match &probe.cmdline {
            Some(cmdline) => {
                if cmdline.as_str().unicode_len() == 0 {
                    return CandidateResult::SkipCmdlineFailed;
                }
                let candidate = normalize_package(cmdline.as_str());
                if !self.is_package_like(candidate.as_str()) {
                    CandidateResult::SkipMalformed
                } else if self.is_blacklisted(candidate.as_str()) {
                    CandidateResult::SkipBlacklisted
                } else {
                    CandidateResult::Accept { pid, package: candidate }
                }
            },
            None => CandidateResult::SkipCmdlineFailed,
        }
    }

    /// Reports an accepted app, unless it is the one accepted last time.
    pub fn accept(&mut self, pid: i32, pkg: &str) -> (r: Option<ForegroundSnapshot>)
        ensures
            accepted(*old(self), *final(self), pid, pkg@, r),
    {
        let same = match (&self.last_accepted_pid, &self.last_accepted_package) {
            (Some(p), Some(name)) => *p == pid && str_eq(name.as_str(), pkg),
            _ => false,
        };
        if same {
            return None;
        }
        self.last_accepted_pid = Some(pid);
        self.last_accepted_package = Some(string_of(pkg));
        Some(ForegroundSnapshot { pid: Some(pid), package: Some(string_of(pkg)), last_skip_reason: None })
    }

    /// The pids a top-app list names (see `pids_of`).
    pub fn top_app_pids(content: &str) -> (r: Vec<i32>)
        ensures
            r@ == pids_of(content@),
    {
        let ws = words(content);
        let ghost wv = split_ws(content@);
        let mut out: Vec<i32> = Vec::new();
        let mut i: usize = 0;
        while i < ws.len()
            invariant
                wv == split_ws(content@),
                ws@.len() == wv.len(),
                forall|k: int| 0 <= k < ws@.len() ==> #[trigger] ws@[k]@ == wv[k],
                i <= ws@.len(),
                out@ == parsed_pids(wv.take(i as int)),
            decreases ws@.len() - i,
        {
            proof {
                assert(wv.take(i + 1).drop_last() =~= wv.take(i as int));
                assert(wv.take(i + 1).last() == ws@[i as int]@);
            }
            match parse_i32(ws[i].as_str()) {
                Some(p) => out.push(p),
                None => {},
            }
            i = i + 1;
        }
        proof {
            assert(wv.take(i as int) =~= wv);
        }
        out
    }

    /// Picks the foreground app among the processes of a top-app list, given
    /// what was read about each pid it names (`probes[k]` for the `k`-th).
    /// The first process accepted is reported (see `accepted`); when none
    /// is but some were looked at, the resolver forgets the last app and
    /// reports why, with how many processes were passed over for each
    /// reason; an empty list reports nothing.
    pub fn scan_pids(&mut self, content: &str, probes: &Vec<PidProbe>) -> (r: (Option<ForegroundSnapshot>, ScanSummary))
        requires
            probes@.len() == pids_of(content@).len(),
        ensures
            ({
                let cs = candidates(names_view(old(self).blacklist@), pids_of(content@), probes@);
                match first_accept_from(cs, 0) {
                    Some(k) => cs[k] matches Candidate::Accept(pid, pkg) && accepted(
                        *old(self),
                        *final(self),
                        pid,
                        pkg,
                        r.0,
                    ),
                    None => if cs.len() > 0 {
                        &&& r.0 is Some
                        &&& snapshot_view(r.0->0) == (None::<i32>, None::<Seq<char>>, Some("no_app_candidate"@))
                        &&& final(self).last_accepted_pid is None
                        &&& final(self).last_accepted_package is None
                        &&& final(self).blacklist == old(self).blacklist
                        &&& r.1.total == cs.len()
                        &&& r.1.system_uid == count_of(cs, Candidate::SkipSystemUid)
                        &&& r.1.blacklisted == count_of(cs, Candidate::SkipBlacklisted)
                        &&& r.1.cmdline_failed == count_of(cs, Candidate::SkipCmdlineFailed)
                        &&& r.1.malformed == count_of(cs, Candidate::SkipMalformed)
                        &&& r.1.proc_stat_failed == count_of(cs, Candidate::SkipProcStatFailed)
                    } else {
                        &&& r.0 is None
                        &&& final(self).last_accepted_pid == old(self).last_accepted_pid
                        &&& final(self).last_accepted_package == old(self).last_accepted_package
                        &&& final(self).blacklist == old(self).blacklist
                    },
                }
            }),
    {
        let ws = words(content);
        let ghost wv = split_ws(content@);
        let ghost pids = pids_of(content@);
        let ghost bl = names_view(self.blacklist@);
        let ghost cs = candidates(bl, pids, probes@);
        let mut summary = ScanSummary {
            total: 0,
            system_uid: 0,
            blacklisted: 0,
            cmdline_failed: 0,
            malformed: 0,
            proc_stat_failed: 0,
        };
        let np = probes.len();
        let mut i: usize = 0;
        let mut j: usize = 0;
        while i < ws.len()
            invariant
                np == probes@.len(),
                wv == split_ws(content@),
                pids == parsed_pids(wv),
                bl == names_view(self.blacklist@),
                self.blacklist == old(self).blacklist,
                self.last_accepted_pid == old(self).last_accepted_pid,
                self.last_accepted_package == old(self).last_accepted_package,
                cs == candidates(bl, pids, probes@),
                probes@.len() == pids.len(),
                ws@.len() == wv.len(),
                forall|k: int| 0 <= k < ws@.len() ==> #[trigger] ws@[k]@ == wv[k],
                i <= ws@.len(),
                j == parsed_pids(wv.take(i as int)).len(),
                j <= pids.len(),
                forall|k: int| 0 <= k < j ==> !(#[trigger] cs[k] is Accept),
                summary.total == j,
                summary.system_uid == count_of(cs.take(j as int), Candidate::SkipSystemUid),
                summary.blacklisted == count_of(cs.take(j as int), Candidate::SkipBlacklisted),
                summary.cmdline_failed == count_of(cs.take(j as int), Candidate::SkipCmdlineFailed),
                summary.malformed == count_of(cs.take(j as int), Candidate::SkipMalformed),
                summary.proc_stat_failed == count_of(cs.take(j as int), Candidate::SkipProcStatFailed),
                summary.system_uid <= j && summary.blacklisted <= j && summary.cmdline_failed <= j
                    && summary.malformed <= j && summary.proc_stat_failed <= j,
            decreases ws@.len() - i,
        {
            proof {
                assert(wv.take(i + 1).drop_last() =~= wv.take(i as int));
                assert(wv.take(i + 1).last() == ws@[i as int]@);
                lemma_parsed_prefix(wv, i + 1);
                lemma_parsed_prefix(wv, i as int);
            }
            let pid = match parse_i32(ws[i].as_str()) {
                Some(p) => p,
                None => {
                    i = i + 1;
                    continue;
                },
            };
            proof {
                assert(parsed_pids(wv.take(i + 1)) == parsed_pids(wv.take(i as int)).push(pid));
                assert(pids[j as int] == pid);
                assert(j < np);
            }
            let verdict = self.classify_pid(pid, &probes[j]);
            proof {
                assert(candidate_view(verdict) == cs[j as int]);
                assert(cs.take(j + 1).drop_last() =~= cs.take(j as int));
            }
            match verdict {
                CandidateResult::Accept { pid, package } => {
                    proof {
                        lemma_first_accept_skips(cs, j as int);
                    }
                    let r = self.accept(pid, package.as_str());
                    return (r, summary);
                },
                CandidateResult::SkipSystemUid => summary.system_uid = summary.system_uid + 1,
                CandidateResult::SkipBlacklisted => summary.blacklisted = summary.blacklisted + 1,
                CandidateResult::SkipCmdlineFailed => summary.cmdline_failed = summary.cmdline_failed + 1,
                CandidateResult::SkipMalformed => summary.malformed = summary.malformed + 1,
                CandidateResult::SkipProcStatFailed => summary.proc_stat_failed = summary.proc_stat_failed + 1,
            }
            summary.total = summary.total + 1;
            j = j + 1;
            i = i + 1;
        }
        proof {
            assert(wv.take(i as int) =~= wv);
            assert(j == pids.len());
            assert(cs.take(j as int) =~= cs);
            lemma_first_accept_skips(cs, j as int);
        }
        if summary.total > 0 {
            let r = self.skip_all();
            (r, summary)
        } else {
            (None, summary)
        }
    }

    /// No top-app process is an app that may be in front: forget the last
    /// one accepted and report why.
    pub fn skip_all(&mut self) -> (r: Option<ForegroundSnapshot>)
        ensures
            r is Some,
            snapshot_view(r->0) == (None::<i32>, None::<Seq<char>>, Some("no_app_candidate"@)),
            final(self).last_accepted_pid is None,
            final(self).last_accepted_package is None,
            final(self).blacklist == old(self).blacklist,
    {
        self.last_accepted_pid = None;
        self.last_accepted_package = None;
        Some(ForegroundSnapshot { pid: None, package: None, last_skip_reason: Some(string_of("no_app_candidate")) })
    }
}

/// A foreground reading: the accepted app, or why none was accepted.
pub struct ForegroundSnapshot {
    pub pid: Option<i32>,
    pub package: Option<String>,
    pub last_skip_reason: Option<String>,
}

/// A change of the foreground app.
pub struct ForegroundEvent {
    pub previous: ForegroundSnapshot,
    pub current: ForegroundSnapshot,
}


/// The package kept out when no blacklist can be read.
pub open spec fn default_blacklist() -> Seq<Seq<char>> {
    seq!["com.android.systemui"@]
}

/// The strings among optional texts, in order.
pub open spec fn present_texts(s: Seq<Option<Seq<char>>>) -> Seq<Seq<char>>
    decreases s.len(),
{
    if s.len() == 0 {
        seq![]
    } else {
        let rest = present_texts(s.drop_last());
        match s.last() {
            Some(t) => rest.push(t),
            None => rest,
        }
    }
}

/// The blacklist a blacklist file gives: the strings of its `packages`
/// array (none when the key is missing); the default when the file is
/// missing or is not JSON.
pub open spec fn blacklist_spec(content: Option<Seq<char>>) -> Seq<Seq<char>> {
    match content {
        None => default_blacklist(),
        Some(t) => match packages_of_json(t) {
            None => default_blacklist(),
            Some(None) => seq![],
            Some(Some(es)) => present_texts(es),
        },
    }
}

/// The blacklist read from the blacklist file's content, `None` when the
/// file could not be read (see `blacklist_spec`).
pub fn blacklist_of(content: Option<&str>) -> (r: Vec<String>)
    ensures
        names_view(r@) == blacklist_spec(match content {
            Some(t) => Some(t@),
            None => None,
        }),
{
    let mut fallback: Vec<String> = Vec::new();
    fallback.push(string_of("com.android.systemui"));
    proof {
        assert(names_view(fallback@) =~= default_blacklist());
    }
    let text = match content {
        Some(t) => t,
        None => return fallback,
    };
    let entries = match decode_packages(text) {
        None => return fallback,
        Some(None) => {
            let v: Vec<String> = Vec::new();
            proof {
                assert(names_view(v@) =~= Seq::<Seq<char>>::empty());
            }
            return v;
        },
        Some(Some(es)) => es,
    };
    let ghost ev = opt_texts_view(entries@);
    let mut out: Vec<String> = Vec::new();
    let mut rest = entries;
    let n = rest.len();
    let mut k: usize = 0;
    while rest.len() > 0
        invariant
            n == ev.len(),
            k <= n,
            opt_texts_view(rest@) == ev.subrange(k as int, n as int),
            names_view(out@) == present_texts(ev.take(k as int)),
        decreases rest@.len(),
    {
        let ghost r0 = rest@;
        let e = rest.remove(0);
        proof {
            assert(r0.len() == opt_texts_view(r0).len());
            assert(k < n);
            assert(opt_texts_view(r0)[0] == ev.subrange(k as int, n as int)[0]);
            assert(opt_texts_view(r0)[0] == ev[k as int]);
            assert(ev.take(k + 1).drop_last() =~= ev.take(k as int));
            assert forall|i: int| 0 <= i < rest@.len() implies #[trigger] opt_texts_view(rest@)[i] == ev[k + 1 + i] by {
                assert(rest@[i] == r0[i + 1]);
                assert(opt_texts_view(r0)[i + 1] == ev.subrange(k as int, n as int)[i + 1]);
            }
            assert(opt_texts_view(rest@) =~= ev.subrange(k + 1, n as int));
        }
        match e {
            Some(t) => {
                let ghost o0 = out@;
                out.push(t);
                proof {
                    assert(names_view(out@) =~= names_view(o0).push(ev[k as int]->0));
                }
            },
            None => {},
        }
        k = k + 1;
    }
    proof {
        assert(ev.take(n as int) =~= ev);
    }
    out
}

} // verus!
