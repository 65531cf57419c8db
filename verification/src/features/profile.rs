//! App profiles: which class an app belongs to, what each class gets under
//! each privilege mode, and how long apps stay in the foreground.

use vstd::prelude::*;
use vstd::string::StringExecFns;
use crate::high_level::addons::keyed::{age, stamps_view};
use crate::text::str_eq;

verus! {

#[derive(Debug, Clone, Copy, PartialEq, Eq, Structural)]
pub enum ProfileClass {
    Game,
    Social,
    Tool,
    Launcher,
    Keyboard,
    System,
    Unknown,
}

pub open spec fn class_name(c: ProfileClass) -> Seq<char> {
    match c {
        ProfileClass::Game => "game"@,
        ProfileClass::Social => "social"@,
        ProfileClass::Tool => "tool"@,
        ProfileClass::Launcher => "launcher"@,
        ProfileClass::Keyboard => "keyboard"@,
        ProfileClass::System => "system"@,
        ProfileClass::Unknown => "unknown"@,
    }
}

impl ProfileClass {
    /// The class's name, in lower case.
    pub fn name(&self) -> (r: &'static str)
        ensures
            r@ == class_name(*self),
    {
        match self {
            ProfileClass::Game => "game",
            ProfileClass::Social => "social",
            ProfileClass::Tool => "tool",
            ProfileClass::Launcher => "launcher",
            ProfileClass::Keyboard => "keyboard",
            ProfileClass::System => "system",
            ProfileClass::Unknown => "unknown",
        }
    }
}

#[derive(Debug, Clone, Copy, PartialEq, Eq, Structural)]
pub enum PrivilegeMode {
    Root,
    Shell,
    Unknown,
}

pub open spec fn privilege_name(p: PrivilegeMode) -> Seq<char> {
    match p {
        PrivilegeMode::Root => "root"@,
        PrivilegeMode::Shell => "shell"@,
        PrivilegeMode::Unknown => "unknown"@,
    }
}

impl PrivilegeMode {
    pub fn name(&self) -> (r: &'static str)
        ensures
            r@ == privilege_name(*self),
    {
        match self {
            PrivilegeMode::Root => "root",
            PrivilegeMode::Shell => "shell",
            PrivilegeMode::Unknown => "unknown",
        }
    }
}

impl Default for PrivilegeMode {
    fn default() -> (r: Self)
        ensures
            r == PrivilegeMode::Unknown,
    {
        PrivilegeMode::Unknown
    }
}

#[derive(Debug, Clone, Copy, PartialEq, Eq, Structural)]
pub enum ProfilePriority {
    Performance,
    Balanced,
    Neutral,
}

pub open spec fn priority_name(p: ProfilePriority) -> Seq<char> {
    match p {
        ProfilePriority::Performance => "performance"@,
        ProfilePriority::Balanced => "balanced"@,
        ProfilePriority::Neutral => "neutral"@,
    }
}

impl ProfilePriority {
    pub fn name(&self) -> (r: &'static str)
        ensures
            r@ == priority_name(*self),
    {
        match self {
            ProfilePriority::Performance => "performance",
            ProfilePriority::Balanced => "balanced",
            ProfilePriority::Neutral => "neutral",
        }
    }
}

impl Default for ProfilePriority {
    fn default() -> (r: Self)
        ensures
            r == ProfilePriority::Neutral,
    {
        ProfilePriority::Neutral
    }
}

/// What a rule does for an app: preload it, give it a priority, run commands.
pub struct ProfileRuleAction {
    pub preload: bool,
    pub priority: ProfilePriority,
    pub commands: Vec<String>,
}

impl ProfileRuleAction {
    /// No preloading, neutral priority, no commands.
    pub fn neutral() -> (a: Self)
        ensures
            !a.preload,
            a.priority == ProfilePriority::Neutral,
            a.commands@.len() == 0,
    {
        ProfileRuleAction { preload: false, priority: ProfilePriority::Neutral, commands: Vec::new() }
    }

    fn with(preload: bool, priority: ProfilePriority) -> (a: Self)
        ensures
            a.preload == preload,
            a.priority == priority,
            a.commands@.len() == 0,
    {
        ProfileRuleAction { preload, priority, commands: Vec::new() }
    }
}

/// The profile chosen for the foreground app.
#[derive(Debug, Clone, Copy, PartialEq, Eq, Structural)]
pub struct SelectedProfile {
    pub preload: bool,
    pub priority: ProfilePriority,
}

impl SelectedProfile {
    /// No preloading and neutral priority.
    pub fn neutral() -> (p: Self)
        ensures
            p == (SelectedProfile { preload: false, priority: ProfilePriority::Neutral }),
    {
        SelectedProfile { preload: false, priority: ProfilePriority::Neutral }
    }

    pub fn from_action(a: &ProfileRuleAction) -> (p: Self)
        ensures
            p == (SelectedProfile { preload: a.preload, priority: a.priority }),
    {
        SelectedProfile { preload: a.preload, priority: a.priority }
    }
}

/// The position of the first entry with key `k`.
pub open spec fn key_pos<V>(es: Seq<(String, V)>, k: Seq<char>) -> Option<int>
    decreases es.len(),
{
    if es.len() == 0 {
        None
    } else if es[0].0@ == k {
        Some(0)
    } else {
        match key_pos(es.drop_first(), k) {
            Some(i) => Some(i + 1),
            None => None,
        }
    }
}

pub proof fn lemma_key_pos<V>(es: Seq<(String, V)>, k: Seq<char>, i: int)
    requires
        0 <= i <= es.len(),
        forall|j: int| 0 <= j < i ==> es[j].0@ != k,
    ensures
        i < es.len() && es[i].0@ == k ==> key_pos(es, k) == Some(i),
        i == es.len() ==> key_pos(es, k) is None,
    decreases i,
{
    if i > 0 {
        lemma_key_pos(es.drop_first(), k, i - 1);
    }
}

pub proof fn lemma_key_pos_found<V>(es: Seq<(String, V)>, k: Seq<char>)
    ensures
        key_pos(es, k) matches Some(i) ==> 0 <= i < es.len() && es[i].0@ == k,
    decreases es.len(),
{
    if es.len() > 0 {
        lemma_key_pos_found(es.drop_first(), k);
    }
}

/// The position of the first entry whose key is `key`.
pub fn find_key<V>(es: &Vec<(String, V)>, key: &str) -> (r: Option<usize>)
    ensures
        match r {
            Some(i) => key_pos(es@, key@) == Some(i as int),
            None => key_pos(es@, key@) is None,
        },
{
    let mut i: usize = 0;
    while i < es.len()
        invariant
            i <= es@.len(),
            forall|j: int| 0 <= j < i ==> es@[j].0@ != key@,
        decreases es@.len() - i,
    {
        if str_eq(es[i].0.as_str(), key) {
            proof {
                lemma_key_pos(es@, key@, i as int);
            }
            return Some(i);
        }
        i = i + 1;
    }
    proof {
        lemma_key_pos(es@, key@, i as int);
    }
    None
}

/// Profile rules by class name, then by privilege mode name.
pub struct ProfileRulesFile {
    pub schema_version: u32,
    pub rules: Vec<(String, Vec<(String, ProfileRuleAction)>)>,
}

/// The rule for a class and a privilege mode, if the rules have one.
pub open spec fn rule_for(
    rules: Seq<(String, Vec<(String, ProfileRuleAction)>)>,
    class_key: Seq<char>,
    privilege_key: Seq<char>,
) -> Option<ProfileRuleAction> {
    match key_pos(rules, class_key) {
        Some(i) => match key_pos(rules[i].1@, privilege_key) {
            Some(j) => Some(rules[i].1@[j].1),
            None => None,
        },
        None => None,
    }
}

fn rule_pair(key: &str, a: ProfileRuleAction) -> (r: (String, ProfileRuleAction))
    ensures
        r.0@ == key@,
        r.1 == a,
{
    (String::from_str(key), a)
}

impl ProfileRulesFile {
    /// The built-in rules: games preload with performance priority as root
    /// and balanced priority as shell; social apps preload with balanced
    /// priority; tools get the neutral rule.
    pub fn default_rules() -> (f: Self)
        ensures
            f.schema_version == 1,
            f.rules@.len() == 3,
            f.rules@[0].0@ == "game"@,
            f.rules@[1].0@ == "social"@,
            f.rules@[2].0@ == "tool"@,
            f.rules@[0].1@.len() == 2 && f.rules@[1].1@.len() == 2 && f.rules@[2].1@.len() == 2,
            f.rules@[0].1@[0].0@ == "root"@ && f.rules@[0].1@[0].1.preload && f.rules@[0].1@[0].1.priority
                == ProfilePriority::Performance,
            f.rules@[0].1@[1].0@ == "shell"@ && f.rules@[0].1@[1].1.preload && f.rules@[0].1@[1].1.priority
                == ProfilePriority::Balanced,
            f.rules@[1].1@[0].0@ == "root"@ && f.rules@[1].1@[0].1.preload && f.rules@[1].1@[0].1.priority
                == ProfilePriority::Balanced,
            f.rules@[1].1@[1].0@ == "shell"@ && f.rules@[1].1@[1].1.preload && f.rules@[1].1@[1].1.priority
                == ProfilePriority::Balanced,
            f.rules@[2].1@[0].0@ == "root"@ && !f.rules@[2].1@[0].1.preload && f.rules@[2].1@[0].1.priority
                == ProfilePriority::Neutral,
            f.rules@[2].1@[1].0@ == "shell"@ && !f.rules@[2].1@[1].1.preload && f.rules@[2].1@[1].1.priority
                == ProfilePriority::Neutral,
    {
        let mut game: Vec<(String, ProfileRuleAction)> = Vec::new();
        game.push(rule_pair("root", ProfileRuleAction::with(true, ProfilePriority::Performance)));
        game.push(rule_pair("shell", ProfileRuleAction::with(true, ProfilePriority::Balanced)));
        let mut social: Vec<(String, ProfileRuleAction)> = Vec::new();
        social.push(rule_pair("root", ProfileRuleAction::with(true, ProfilePriority::Balanced)));
        social.push(rule_pair("shell", ProfileRuleAction::with(true, ProfilePriority::Balanced)));
        let mut tool: Vec<(String, ProfileRuleAction)> = Vec::new();
        tool.push(rule_pair("root", ProfileRuleAction::neutral()));
        tool.push(rule_pair("shell", ProfileRuleAction::neutral()));
        let mut rules: Vec<(String, Vec<(String, ProfileRuleAction)>)> = Vec::new();
        rules.push((String::from_str("game"), game));
        rules.push((String::from_str("social"), social));
        rules.push((String::from_str("tool"), tool));
        ProfileRulesFile { schema_version: 1, rules }
    }

    /// The profile the rules give a class under a privilege mode; neutral
    /// when they have no rule for it.
    pub fn resolve(&self, class: &ProfileClass, privilege: &PrivilegeMode) -> (p: SelectedProfile)
        ensures
            p == match rule_for(self.rules@, class_name(*class), privilege_name(*privilege)) {
                Some(a) => SelectedProfile { preload: a.preload, priority: a.priority },
                None => SelectedProfile { preload: false, priority: ProfilePriority::Neutral },
            },
    {
        proof {
            lemma_key_pos_found(self.rules@, class_name(*class));
        }
        match find_key(&self.rules, class.name()) {
            Some(i) => {
                proof {
                    lemma_key_pos_found(self.rules@[i as int].1@, privilege_name(*privilege));
                }
                match find_key(&self.rules[i].1, privilege.name()) {
                    Some(j) => SelectedProfile::from_action(&self.rules[i].1[j].1),
                    None => SelectedProfile::neutral(),
                }
            },
            None => SelectedProfile::neutral(),
        }
    }
}

/// Foreground statistics: how often the foreground app changed, and the
/// seconds spent in each app.
pub struct ProfileFeature {
    pub foreground_switch_count: u64,
    pub top_apps: Vec<(String, u64)>,
}

/// Most apps whose foreground time is kept.
pub const MAX_TRACKED_APPS: usize = 64;

/// The index of the first entry for `k`.
pub open spec fn index_of_key(s: Seq<(Seq<char>, u64)>, k: Seq<char>) -> Option<int>
    decreases s.len(),
{
    if s.len() == 0 {
        None
    } else if s[0].0 == k {
        Some(0)
    } else {
        match index_of_key(s.drop_first(), k) {
            Some(i) => Some(i + 1),
            None => None,
        }
    }
}

/// Adds `secs` to the time of `k`, which starts at zero.
pub open spec fn credit(s: Seq<(Seq<char>, u64)>, k: Seq<char>, secs: u64) -> Seq<(Seq<char>, u64)> {
    match index_of_key(s, k) {
        Some(i) => s.update(i, (k, (s[i].1 + secs) as u64)),
        None => s.push((k, secs)),
    }
}

/// The index of the first entry with the least time.
pub open spec fn first_min_index(s: Seq<(Seq<char>, u64)>) -> int
    decreases s.len(),
{
    if s.len() <= 1 {
        0
    } else {
        let m = first_min_index(s.drop_last());
        if s.last().1 < s[m].1 {
            s.len() - 1
        } else {
            m
        }
    }
}

/// Whether two optional package names are the same.
pub open spec fn same_package(a: Option<&str>, b: Option<&str>) -> bool {
    text_of(a) == text_of(b)
}

/// The text of an optional name.
pub open spec fn text_of(a: Option<&str>) -> Option<Seq<char>> {
    match a {
        Some(x) => Some(x@),
        None => None,
    }
}

/// Whether a change of the foreground app from `prev` to `new` can be
/// counted and credited without overflow.
pub open spec fn switch_allowed(
    f: ProfileFeature,
    prev: Option<Seq<char>>,
    new: Option<Seq<char>>,
    started: Option<u64>,
    now_ms: u64,
) -> bool {
    prev != new ==> {
        &&& (prev is Some && new is Some ==> f.foreground_switch_count < u64::MAX)
        &&& match (prev, started) {
            (Some(p), Some(st)) => match index_of_key(stamps_view(f.top_apps@), p) {
                Some(i) => stamps_view(f.top_apps@)[i].1 + session_secs(st, now_ms) <= u64::MAX,
                None => true,
            },
            _ => true,
        }
    }
}

/// The seconds credited to the app that leaves the foreground.
pub open spec fn session_secs(started: u64, now_ms: u64) -> u64 {
    (age(now_ms, started) / 1000) as u64
}

/// The app times after a change of the foreground app from `prev`.
pub open spec fn times_after_switch(
    s: Seq<(Seq<char>, u64)>,
    prev: Option<Seq<char>>,
    started: Option<u64>,
    now_ms: u64,
) -> Seq<(Seq<char>, u64)> {
    let t = match (prev, started) {
        (Some(p), Some(st)) => credit(s, p, session_secs(st, now_ms)),
        _ => s,
    };
    if t.len() > MAX_TRACKED_APPS {
        t.remove(first_min_index(t))
    } else {
        t
    }
}

/// App times sorted from the longest.
pub open spec fn sorted_by_time_desc(s: Seq<(Seq<char>, u64)>) -> bool {
    forall|i: int, j: int| 0 <= i < j < s.len() ==> #[trigger] s[i].1 >= #[trigger] s[j].1
}

proof fn lemma_index_of_key(s: Seq<(Seq<char>, u64)>, k: Seq<char>, i: int)
    requires
        0 <= i <= s.len(),
        forall|j: int| 0 <= j < i ==> #[trigger] s[j].0 != k,
    ensures
        index_of_key(s, k) == match index_of_key(s.skip(i), k) {
            Some(q) => Some(q + i),
            None => None::<int>,
        },
    decreases i,
{
    if i > 0 {
        lemma_index_of_key(s, k, i - 1);
        let t = s.skip(i - 1);
        assert(t[0] == s[i - 1]);
        assert(t.drop_first() =~= s.skip(i));
    } else {
        assert(s.skip(0) =~= s);
    }
}

proof fn lemma_first_min_index(s: Seq<(Seq<char>, u64)>)
    requires
        s.len() > 0,
    ensures
        0 <= first_min_index(s) < s.len(),
        forall|j: int| 0 <= j < s.len() ==> s[first_min_index(s)].1 <= #[trigger] s[j].1,
    decreases s.len(),
{
    if s.len() > 1 {
        lemma_first_min_index(s.drop_last());
        let m = first_min_index(s.drop_last());
        assert forall|j: int| 0 <= j < s.len() implies s[first_min_index(s)].1 <= #[trigger] s[j].1 by {
            if j < s.len() - 1 {
                assert(s.drop_last()[j] == s[j]);
            }
        }
    }
}

/// Adds `secs` to the time of `pkg` (see `credit`).
pub fn credit_time(v: &mut Vec<(String, u64)>, pkg: &str, secs: u64)
    requires
        match index_of_key(stamps_view(old(v)@), pkg@) {
            Some(i) => stamps_view(old(v)@)[i].1 + secs <= u64::MAX,
            None => true,
        },
    ensures
        stamps_view(final(v)@) == credit(stamps_view(old(v)@), pkg@, secs),
{
    let ghost s0 = stamps_view(v@);
    let n = v.len();
    let mut found: Option<usize> = None;
    let mut i: usize = 0;
    while i < n
        invariant
            n == v@.len(),
            s0 == stamps_view(v@),
            i <= n,
            match found {
                Some(k) => k < i && s0[k as int].0 == pkg@ && forall|j: int| 0 <= j < k ==> #[trigger] s0[j].0 != pkg@,
                None => forall|j: int| 0 <= j < i ==> #[trigger] s0[j].0 != pkg@,
            },
        decreases n - i,
    {
        if found.is_none() && str_eq(v[i].0.as_str(), pkg) {
            found = Some(i);
        }
        i = i + 1;
    }
    match found {
        Some(k) => {
            proof {
                lemma_index_of_key(s0, pkg@, k as int);
                assert(s0.skip(k as int)[0] == s0[k as int]);
            }
            let key = v[k].0.clone();
            let total = v[k].1 + secs;
            v.set(k, (key, total));
            assert(stamps_view(v@) =~= s0.update(k as int, (pkg@, total)));
        },
        None => {
            proof {
                lemma_index_of_key(s0, pkg@, n as int);
            }
            v.push((String::from_str(pkg), secs));
            assert(stamps_view(v@) =~= s0.push((pkg@, secs)));
        },
    }
}


impl ProfileFeature {
    pub fn new() -> (f: Self)
        ensures
            f.foreground_switch_count == 0,
            f.top_apps@.len() == 0,
    {
        ProfileFeature { foreground_switch_count: 0, top_apps: Vec::new() }
    }

    /// A change of the foreground app from `prev_pkg` to `new_pkg`: the app
    /// leaving is credited the whole seconds of its session, a switch
    /// between two apps is counted, and past `MAX_TRACKED_APPS` apps the one
    /// with the least time (the first such) is forgotten. Nothing changes
    /// when the app stays the same.
    pub fn on_foreground_changed(
        &mut self,
        prev_pkg: Option<&str>,
        new_pkg: Option<&str>,
        prev_session_started_ms: Option<u64>,
        now_ms: u64,
    )
        requires
            switch_allowed(*old(self), text_of(prev_pkg), text_of(new_pkg), prev_session_started_ms, now_ms),
        ensures
            same_package(prev_pkg, new_pkg) ==> {
                &&& final(self).foreground_switch_count == old(self).foreground_switch_count
                &&& stamps_view(final(self).top_apps@) == stamps_view(old(self).top_apps@)
            },
            !same_package(prev_pkg, new_pkg) ==> {
                &&& final(self).foreground_switch_count == old(self).foreground_switch_count + (if prev_pkg is Some
                    && new_pkg is Some { 1int } else { 0int })
                &&& stamps_view(final(self).top_apps@) == times_after_switch(
                    stamps_view(old(self).top_apps@),
                    text_of(prev_pkg),
                    prev_session_started_ms,
                    now_ms,
                )
            },
    {
        let same = match (prev_pkg, new_pkg) {
            (Some(a), Some(b)) => str_eq(a, b),
            (None, None) => true,
            _ => false,
        };
        if same {
            return;
        }
        let ghost s0 = stamps_view(self.top_apps@);
        match (prev_pkg, prev_session_started_ms) {
            (Some(p), Some(st)) => {
                let elapsed: u64 = if now_ms >= st { (now_ms - st) / 1000 } else { 0 };
                credit_time(&mut self.top_apps, p, elapsed);
            },
            _ => {},
        }
        if new_pkg.is_some() && prev_pkg.is_some() {
            self.foreground_switch_count = self.foreground_switch_count + 1;
        }
        if self.top_apps.len() > MAX_TRACKED_APPS {
            let ghost t = stamps_view(self.top_apps@);
            let n = self.top_apps.len();
            let mut best: usize = 0;
            let mut i: usize = 1;
            proof {
                assert(t.take(1).len() == 1);
            }
            while i < n
                invariant
                    n == self.top_apps@.len(),
                    t == stamps_view(self.top_apps@),
                    1 <= i <= n,
                    best == first_min_index(t.take(i as int)),
                    best < i,
                decreases n - i,
            {
                proof {
                    assert(t.take(i + 1).drop_last() =~= t.take(i as int));
                    lemma_first_min_index(t.take(i as int));
                }
                if self.top_apps[i].1 < self.top_apps[best].1 {
                    best = i;
                }
                i = i + 1;
            }
            proof {
                assert(t.take(n as int) =~= t);
            }
            let _dropped = self.top_apps.remove(best);
            assert(stamps_view(self.top_apps@) =~= t.remove(best as int));
        }
    }

    /// The app times, longest first (apps with equal times in the order
    /// they are kept).
    pub fn snapshot_top_apps(&self) -> (r: Vec<(String, u64)>)
        ensures
            sorted_by_time_desc(stamps_view(r@)),
            stamps_view(r@).to_multiset() == stamps_view(self.top_apps@).to_multiset(),
    {
        sort_by_time_desc(&self.top_apps)
    }
}

/// The entries sorted by time, longest first; entries with equal times keep
/// their order.
pub fn sort_by_time_desc(v: &Vec<(String, u64)>) -> (r: Vec<(String, u64)>)
    ensures
        sorted_by_time_desc(stamps_view(r@)),
        stamps_view(r@).to_multiset() == stamps_view(v@).to_multiset(),
{
    broadcast use vstd::seq_lib::group_to_multiset_ensures;

    let mut out: Vec<(String, u64)> = Vec::new();
    let n = v.len();
    for i in 0..n
        invariant
            n == v@.len(),
            sorted_by_time_desc(stamps_view(out@)),
            stamps_view(out@).to_multiset() == stamps_view(v@.take(i as int)).to_multiset(),
    {
        let t = v[i].1;
        let m = out.len();
        let mut p: usize = 0;
        while p < m && out[p].1 >= t
            invariant
                m == out@.len(),
                p <= m,
                forall|j: int| 0 <= j < p ==> #[trigger] out@[j].1 >= t,
            decreases m - p,
        {
            p = p + 1;
        }
        let ghost before = stamps_view(out@);
        let e = (v[i].0.clone(), t);
        let ghost ev = (v@[i as int].0@, t);
        out.insert(p, e);
        proof {
            assert(stamps_view(out@) =~= before.insert(p as int, ev));
            assert(stamps_view(v@.take(i + 1)) =~= stamps_view(v@.take(i as int)).push(ev));
            vstd::seq_lib::to_multiset_insert(before, p as int, ev);
            vstd::seq_lib::to_multiset_build(stamps_view(v@.take(i as int)), ev);
            let l = stamps_view(out@);
            assert forall|a: int, b: int| 0 <= a < b < l.len() implies #[trigger] l[a].1 >= #[trigger] l[b].1 by {
                if b < p {
                    assert(l[a] == before[a] && l[b] == before[b]);
                } else if b == p {
                    assert(l[a] == before[a]);
                } else if a == p {
                    assert(l[b] == before[b - 1]);
                    if p < m {
                        assert(before[p as int].1 < t);
                    }
                } else if a < p {
                    assert(l[a] == before[a] && l[b] == before[b - 1]);
                } else {
                    assert(l[a] == before[a - 1] && l[b] == before[b - 1]);
                }
            }
        }
    }
    proof {
        assert(v@.take(n as int) =~= v@);
    }
    out
}

} // verus!
