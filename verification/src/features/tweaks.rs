//! Tweak profiles: which kernel, CPU and IO settings each profile writes,
//! how write outcomes are tallied, and the cache of discovered settings.

use vstd::prelude::*;
use vstd::string::StringExecFns;
use crate::text::{decimal_digits, push_char, push_decimal, split_ws, str_eq, words};

verus! {

#[derive(Debug, Clone, Copy, PartialEq, Eq, Structural)]
pub enum TweakProfile {
    Balance,
    Performance,
    Power,
}

pub open spec fn tweak_profile_name(p: TweakProfile) -> Seq<char> {
    match p {
        TweakProfile::Balance => "balance"@,
        TweakProfile::Performance => "performance"@,
        TweakProfile::Power => "power"@,
    }
}

impl TweakProfile {
    /// The profile's name: `balance`, `performance` or `power`.
    pub fn name(&self) -> (r: &'static str)
        ensures
            r@ == tweak_profile_name(*self),
    {
        match self {
            TweakProfile::Balance => "balance",
            TweakProfile::Performance => "performance",
            TweakProfile::Power => "power",
        }
    }

    /// The profile with this name; any other text is refused.
    pub fn from_name(s: &str) -> (r: Result<TweakProfile, &'static str>)
        ensures
            match r {
                Ok(p) => tweak_profile_name(p) == s@,
                Err(e) => e@ == "invalid profile name"@ && s@ != "balance"@ && s@ != "performance"@ && s@
                    != "power"@,
            },
    {
        if str_eq(s, "balance") {
            Ok(TweakProfile::Balance)
        } else if str_eq(s, "performance") {
            Ok(TweakProfile::Performance)
        } else if str_eq(s, "power") {
            Ok(TweakProfile::Power)
        } else {
            Err("invalid profile name")
        }
    }
}

/// The outcome of one settings write.
pub enum WriteResult {
    Success,
    Skipped,
    PathMissing,
    GovernorUnsupported,
    Failed(String),
}

/// A tally of the writes made while applying a profile.
pub struct TweakApplySummary {
    pub profile_name: String,
    pub attempted_writes: u32,
    pub successful_writes: u32,
    pub skipped_writes: u32,
    pub failed_writes: u32,
    pub first_error: Option<String>,
}

impl TweakApplySummary {
    /// Every attempted write is counted once as a success, a skip or a failure.
    pub open spec fn accounted(&self) -> bool {
        self.attempted_writes == self.successful_writes + self.skipped_writes + self.failed_writes
    }

    pub fn new(profile_name: String) -> (s: Self)
        ensures
            s.profile_name == profile_name,
            s.attempted_writes == 0,
            s.successful_writes == 0,
            s.skipped_writes == 0,
            s.failed_writes == 0,
            s.first_error is None,
            s.accounted(),
    {
        TweakApplySummary {
            profile_name,
            attempted_writes: 0,
            successful_writes: 0,
            skipped_writes: 0,
            failed_writes: 0,
            first_error: None,
        }
    }

    /// Counts one write: a success, a skip (also for a missing path or an
    /// unsupported governor) or a failure, whose message is kept when it is
    /// the first.
    pub fn record_write_result(&mut self, result: WriteResult)
        requires
            old(self).attempted_writes < u32::MAX,
            old(self).accounted(),
        ensures
            final(self).accounted(),
            final(self).profile_name == old(self).profile_name,
            final(self).attempted_writes == old(self).attempted_writes + 1,
            final(self).successful_writes == old(self).successful_writes + if result is Success { 1int } else { 0 },
            final(self).skipped_writes == old(self).skipped_writes + if result is Skipped || result is PathMissing
                || result is GovernorUnsupported { 1int } else { 0 },
            final(self).failed_writes == old(self).failed_writes + if result is Failed { 1int } else { 0 },
            final(self).first_error == match (old(self).first_error, result) {
                (None, WriteResult::Failed(e)) => Some(e),
                _ => old(self).first_error,
            },
    {
        self.attempted_writes = self.attempted_writes + 1;
        match result {
            WriteResult::Success => self.successful_writes = self.successful_writes + 1,
            WriteResult::Skipped => self.skipped_writes = self.skipped_writes + 1,
            WriteResult::Failed(e) => {
                self.failed_writes = self.failed_writes + 1;
                if self.first_error.is_none() {
                    self.first_error = Some(e);
                }
            },
            WriteResult::PathMissing => self.skipped_writes = self.skipped_writes + 1,
            WriteResult::GovernorUnsupported => self.skipped_writes = self.skipped_writes + 1,
        }
    }
}

/// The status file written after a profile is applied.
pub struct TweakStatus {
    pub schema_version: u32,
    pub last_profile: String,
    pub last_applied_ms: u64,
    pub summary: TweakApplySummary,
}


/// Discovered settings by name, kept between runs.
pub struct TweakCache {
    pub schema_version: u32,
    pub updated_ms: u64,
    pub entries: Vec<(String, String)>,
    pub dirty: bool,
}

/// The value of the first entry with key `k`, if any.
pub open spec fn cache_value(es: Seq<(String, String)>, k: Seq<char>) -> Option<Seq<char>>
    decreases es.len(),
{
    if es.len() == 0 {
        None
    } else if es[0].0@ == k {
        Some(es[0].1@)
    } else {
        cache_value(es.drop_first(), k)
    }
}

fn find_entry(es: &Vec<(String, String)>, key: &str) -> (r: Option<usize>)
    ensures
        match r {
            Some(i) => i < es@.len() && es@[i as int].0@ == key@ && forall|j: int| 0 <= j < i ==> es@[j].0@ != key@,
            None => forall|j: int| 0 <= j < es@.len() ==> es@[j].0@ != key@,
        },
{
    let mut i: usize = 0;
    while i < es.len()
        invariant
            i <= es@.len(),
            forall|j: int| 0 <= j < i ==> es@[j].0@ != key@,
        decreases es@.len() - i,
    {
        if str_eq(es[i].0.as_str(), key) {
            return Some(i);
        }
        i = i + 1;
    }
    None
}

/// The first entry with key `k` gives its value.
pub proof fn lemma_first_entry(es: Seq<(String, String)>, k: Seq<char>, i: int)
    requires
        0 <= i <= es.len(),
        forall|j: int| 0 <= j < i ==> es[j].0@ != k,
    ensures
        i < es.len() && es[i].0@ == k ==> cache_value(es, k) == Some(es[i].1@),
        i == es.len() ==> cache_value(es, k) is None,
    decreases i,
{
    if i > 0 {
        lemma_first_entry(es.drop_first(), k, i - 1);
    }
}

/// Rewriting the value of entry `i` leaves keys that differ from its key alone.
pub proof fn lemma_update_entry(pre: Seq<(String, String)>, i: int, x: (String, String), k: Seq<char>)
    requires
        0 <= i < pre.len(),
        x.0@ == pre[i].0@,
        k != x.0@,
    ensures
        cache_value(pre.update(i, x), k) == cache_value(pre, k),
    decreases pre.len(),
{
    if i > 0 {
        assert(pre.update(i, x).drop_first() =~= pre.drop_first().update(i - 1, x));
        lemma_update_entry(pre.drop_first(), i - 1, x, k);
    } else {
        assert(pre.update(i, x).drop_first() =~= pre.drop_first());
    }
}

/// Appending an entry changes only the lookups that found nothing.
pub proof fn lemma_push_entry(pre: Seq<(String, String)>, x: (String, String), k: Seq<char>)
    ensures
        cache_value(pre.push(x), k) == match cache_value(pre, k) {
            Some(v) => Some(v),
            None => if x.0@ == k { Some(x.1@) } else { None },
        },
    decreases pre.len(),
{
    if pre.len() > 0 {
        assert(pre.push(x).drop_first() =~= pre.drop_first().push(x));
        assert(pre.push(x)[0] == pre[0]);
        lemma_push_entry(pre.drop_first(), x, k);
    } else {
        assert(pre.push(x).drop_first() =~= Seq::<(String, String)>::empty());
        assert(cache_value(pre.push(x).drop_first(), k) is None);
        assert(pre.push(x)[0] == x);
    }
}

impl TweakCache {
    pub fn new() -> (c: Self)
        ensures
            c.schema_version == 0,
            c.updated_ms == 0,
            c.entries@.len() == 0,
            !c.dirty,
    {
        TweakCache { schema_version: 0, updated_ms: 0, entries: Vec::new(), dirty: false }
    }

    /// A loaded cache is used only when its schema version is 1.
    pub fn validated(self) -> (c: Self)
        ensures
            self.schema_version == 1 ==> c == self,
            self.schema_version != 1 ==> c.schema_version == 0 && c.updated_ms == 0 && c.entries@.len() == 0
                && !c.dirty,
    {
        if self.schema_version == 1 {
            self
        } else {
            Self::new()
        }
    }

    /// The value cached under `key`.
    pub fn get(&self, key: &str) -> (r: Option<&String>)
        ensures
            match r {
                Some(v) => cache_value(self.entries@, key@) == Some(v@),
                None => cache_value(self.entries@, key@) is None,
            },
    {
        match find_entry(&self.entries, key) {
            Some(i) => {
                proof {
                    lemma_first_entry(self.entries@, key@, i as int);
                }
                Some(&self.entries[i].1)
            },
            None => {
                proof {
                    lemma_first_entry(self.entries@, key@, self.entries@.len() as int);
                }
                None
            },
        }
    }

    /// Caches `value` under `key`; the cache turns dirty when the key is new
    /// or its value changes.
    pub fn insert(&mut self, key: String, value: String)
        ensures
            cache_value(final(self).entries@, key@) == Some(value@),
            forall|k: Seq<char>| k != key@ ==> #[trigger] cache_value(final(self).entries@, k) == cache_value(
                old(self).entries@,
                k,
            ),
            final(self).dirty == (old(self).dirty || cache_value(old(self).entries@, key@) != Some(value@)),
            final(self).schema_version == old(self).schema_version,
            final(self).updated_ms == old(self).updated_ms,
    {
        let ghost pre = self.entries@;
        let ghost kv = key@;
        let ghost vv = value@;
        match find_entry(&self.entries, key.as_str()) {
            Some(i) => {
                proof {
                    lemma_first_entry(pre, kv, i as int);
                }
                let changed = !str_eq(self.entries[i].1.as_str(), value.as_str());
                let ghost x = (key, value);
                self.entries.set(i, (key, value));
                if changed {
                    self.dirty = true;
                }
                proof {
                    assert(self.entries@ == pre.update(i as int, x));
                    lemma_first_entry(self.entries@, kv, i as int);
                    assert forall|k: Seq<char>| k != kv implies #[trigger] cache_value(self.entries@, k) == cache_value(pre, k) by {
                        lemma_update_entry(pre, i as int, x, k);
                    }
                }
            },
            None => {
                proof {
                    lemma_first_entry(pre, kv, pre.len() as int);
                }
                let ghost x = (key, value);
                self.entries.push((key, value));
                self.dirty = true;
                proof {
                    assert(self.entries@ == pre.push(x));
                    assert forall|k: Seq<char>| k != kv implies #[trigger] cache_value(self.entries@, k) == cache_value(pre, k) by {
                        lemma_push_entry(pre, x, k);
                    }
                    lemma_push_entry(pre, x, kv);
                }
            },
        }
    }

    /// Prepares a save at time `now_ms`: the schema version becomes 1 and the
    /// time is recorded. A cache of more than 256 entries is not saved.
    pub fn prepare_save(&mut self, now_ms: u64) -> (ok: bool)
        ensures
            final(self).schema_version == 1,
            final(self).updated_ms == now_ms,
            final(self).entries == old(self).entries,
            final(self).dirty == old(self).dirty,
            ok == (old(self).entries@.len() <= 256),
    {
        self.schema_version = 1;
        self.updated_ms = now_ms;
        self.entries.len() <= 256
    }

    /// After a successful save the cache is clean.
    pub fn mark_saved(&mut self)
        ensures
            !final(self).dirty,
            final(self).entries == old(self).entries,
            final(self).schema_version == old(self).schema_version,
            final(self).updated_ms == old(self).updated_ms,
    {
        self.dirty = false;
    }
}

/// Whether `target` is one of the white-space separated names in `available`.
pub open spec fn governor_listed(available: Seq<char>, target: Seq<char>) -> bool {
    split_ws(available).contains(target)
}

pub fn governor_is_available(available: &str, target: &str) -> (r: bool)
    ensures
        r == governor_listed(available@, target@),
{
    let ws = words(available);
    let mut i: usize = 0;
    while i < ws.len()
        invariant
            i <= ws@.len(),
            ws@.len() == split_ws(available@).len(),
            forall|j: int| 0 <= j < ws@.len() ==> #[trigger] ws@[j]@ == split_ws(available@)[j],
            forall|j: int| 0 <= j < i ==> split_ws(available@)[j] != target@,
        decreases ws@.len() - i,
    {
        if str_eq(ws[i].as_str(), target) {
            proof {
                assert(split_ws(available@)[i as int] == target@);
            }
            return true;
        }
        i = i + 1;
    }
    false
}

/// The first name of `prio` that `available` lists.
pub open spec fn best_governor(available: Seq<char>, prio: Seq<Seq<char>>) -> Option<int>
    decreases prio.len(),
{
    if prio.len() == 0 {
        None
    } else if governor_listed(available, prio[0]) {
        Some(0)
    } else {
        match best_governor(available, prio.drop_first()) {
            Some(i) => Some(i + 1),
            None => None,
        }
    }
}

pub fn pick_best<'a>(available: &str, prio: &[&'a str]) -> (r: Option<&'a str>)
    ensures
        match r {
            Some(p) => exists|i: int| 0 <= i < prio@.len() && prio@[i] == p && governor_listed(available@, p@) && forall|j: int|
                0 <= j < i ==> !governor_listed(available@, prio@[j]@),
            None => forall|j: int| 0 <= j < prio@.len() ==> !governor_listed(available@, prio@[j]@),
        },
{
    let mut i: usize = 0;
    while i < prio.len()
        invariant
            i <= prio@.len(),
            forall|j: int| 0 <= j < i ==> !governor_listed(available@, prio@[j]@),
        decreases prio@.len() - i,
    {
        if governor_is_available(available, prio[i]) {
            return Some(prio[i]);
        }
        i = i + 1;
    }
    None
}

/// The decimal ids joined by commas.
pub open spec fn cpu_list_text(cpus: Seq<u32>) -> Seq<char>
    decreases cpus.len(),
{
    if cpus.len() == 0 {
        seq![]
    } else if cpus.len() == 1 {
        decimal_digits(cpus[0] as nat)
    } else {
        cpu_list_text(cpus.drop_last()) + seq![','] + decimal_digits(cpus.last() as nat)
    }
}

pub fn format_cpu_list(cpus: &[u32]) -> (r: String)
    ensures
        r@ == cpu_list_text(cpus@),
{
    let mut s = String::new();
    let mut i: usize = 0;
    while i < cpus.len()
        invariant
            i <= cpus@.len(),
            s@ == cpu_list_text(cpus@.take(i as int)),
        decreases cpus@.len() - i,
    {
        proof {
            assert(cpus@.take(i + 1).drop_last() =~= cpus@.take(i as int));
        }
        if i > 0 {
            push_char(&mut s, ',');
        }
        push_decimal(&mut s, cpus[i] as u64);
        proof {
            if i == 0 {
                assert(s@ =~= cpu_list_text(cpus@.take(1)));
            } else {
                assert(s@ =~= cpu_list_text(cpus@.take(i + 1)));
            }
        }
        i = i + 1;
    }
    proof {
        assert(cpus@.take(i as int) =~= cpus@);
    }
    s
}

} // verus!
