//! What the preload addon does, stated over an abstract view of its state:
//! for each event, the next state and the requests it sends.

use vstd::prelude::*;
use vstd::utf8::{decode_utf8, valid_utf8};
use crate::codec::{
    ascii_bytes, json_of_text_list, json_of_text_pair, name_and_list_of_json, text_pair_of_json,
    u64_pair_of_json,
};
use crate::high_level::addons::keyed::{
    age, fresh_entries, keys_distinct, lemma_fresh_distinct, lemma_names_without, lemma_names_without_distinct,
    lemma_names_without_in_order, lemma_with_entry_distinct, lemma_with_entry_value, lemma_with_name_in_order, names_distinct,
    names_in_order, names_without,
    value_of, with_entry, with_name_in_order,
};
use crate::high_level::identity::{Principal, Request};
use crate::high_level::addons::preload::PreloadConfig;
use crate::machine::types::{CauseId, Event, Intent, LogLevel, SystemService};
use crate::text::{after_prefix, decimal_digits, has_infix, signed_decimal};

verus! {

/// The addon id the preload addon sends its requests under.
pub const PRELOAD_ADDON_ID: u32 = 102;

/// Failures after which the addon turns itself off.
pub const MAX_TOTAL_FAILURES: u32 = 50;

/// How often the caches are swept.
pub const CLEANUP_INTERVAL_MS: u64 = 60000;

/// How long a warmup keeps its package out of the next ones.
pub const DEDUP_RETENTION_MS: u64 = 3600000;

/// How long a failure is remembered.
pub const NEGATIVE_RETENTION_MS: u64 = 1800000;

/// The addon's state, with texts in place of strings.
#[verifier::ext_equal]
pub struct PreloadModel {
    pub config: PreloadConfig,
    pub dedup: Seq<(Seq<char>, u64)>,
    pub negative: Seq<(Seq<char>, u64)>,
    pub packages: Seq<(Seq<char>, Seq<char>)>,
    pub dirty: bool,
    pub in_flight: Seq<Seq<char>>,
    pub last_pid: i32,
    pub last_time: u64,
    pub pending: Option<i32>,
    pub last_package: Option<Seq<char>>,
    pub failures: u32,
    pub auto_disabled: bool,
    pub events_seen: u64,
    pub last_cleanup: u64,
    pub skip_stage: Option<Seq<char>>,
    pub skip_reason: Option<Seq<char>>,
    pub skip_package: Option<Seq<char>>,
    pub discovered: usize,
    pub warmup_result: Option<Seq<char>>,
    pub warmup_package: Option<Seq<char>>,
    pub watches: Seq<(Seq<char>, bool)>,
}

/// A request the addon sends, by what it carries.
pub enum Want {
    Log(LogLevel, Seq<char>),
    Sys(SystemService, Seq<u8>),
    Task(Seq<char>, Seq<u8>),
}

/// `r` is the addon's request carrying `w`.
pub open spec fn req_is(r: Request, w: Want) -> bool {
    &&& r.principal == Principal::Addon(PRELOAD_ADDON_ID)
    &&& r.client_id is None
    &&& r.cause == CauseId(0)
    &&& match w {
        Want::Log(l, m) => match r.intent {
            Intent::AddonLog { addon_id, level, msg } => addon_id == PRELOAD_ADDON_ID && level == l && msg@ == m,
            _ => false,
        },
        Want::Sys(k, p) => match r.intent {
            Intent::SystemRequest { request_id, kind, payload } => request_id == 0 && kind == k && payload@ == p,
            _ => false,
        },
        Want::Task(key_text, p) => match r.intent {
            Intent::AddonTask { addon_id, key, payload } => addon_id == PRELOAD_ADDON_ID && key@ == key_text
                && payload@ == p,
            _ => false,
        },
    }
}

/// The requests are exactly the wanted ones, in order.
pub open spec fn reqs_are(rs: Seq<Request>, ws: Seq<Want>) -> bool {
    &&& rs.len() == ws.len()
    &&& forall|i: int| 0 <= i < rs.len() ==> #[trigger] req_is(rs[i], ws[i])
}

pub proof fn lemma_reqs_append(a: Seq<Request>, wa: Seq<Want>, b: Seq<Request>, wb: Seq<Want>)
    requires
        reqs_are(a, wa),
        reqs_are(b, wb),
    ensures
        reqs_are(a + b, wa + wb),
{
    assert forall|i: int| 0 <= i < (a + b).len() implies #[trigger] req_is((a + b)[i], (wa + wb)[i]) by {
        if i < a.len() {
            assert((a + b)[i] == a[i] && (wa + wb)[i] == wa[i]);
        } else {
            assert((a + b)[i] == b[i - a.len()] && (wa + wb)[i] == wb[i - a.len()]);
        }
    }
}

// ---- messages ----

pub open spec fn skip_msg(p: Seq<char>, stage: Seq<char>, reason: Seq<char>) -> Seq<char> {
    "preload skip package="@ + p + " stage="@ + stage + " reason="@ + reason
}

pub open spec fn budget_msg(p: Seq<char>, count: nat) -> Seq<char> {
    skip_msg(p, "identity"@, "global_budget_full"@) + " count="@ + decimal_digits(count)
}

pub open spec fn remaining_msg(p: Seq<char>, reason: Seq<char>, remaining: nat) -> Seq<char> {
    skip_msg(p, "identity"@, reason) + " remaining_ms="@ + decimal_digits(remaining)
}

pub open spec fn resolved_msg(pid: i32, p: Seq<char>) -> Seq<char> {
    "preload_identity_resolved pid="@ + signed_decimal(pid as int) + " package="@ + p
}

pub open spec fn queued_msg(p: Seq<char>, paths: nat, in_flight: nat) -> Seq<char> {
    "preload warmup task queued: package="@ + p + " paths="@ + decimal_digits(paths) + " in_flight="@
        + decimal_digits(in_flight)
}

pub open spec fn identity_failed_msg(pid: i32, err: Seq<char>) -> Seq<char> {
    "identity resolution failed pid="@ + signed_decimal(pid as int) + " err="@ + err
}

pub open spec fn warmup_summary(p: Seq<char>, bytes: u64, duration_ms: u64) -> Seq<char> {
    "package="@ + p + " bytes="@ + decimal_digits(bytes as nat) + " duration_ms="@ + decimal_digits(
        duration_ms as nat,
    )
}

pub open spec fn task_failed_msg(key: Seq<char>, p: Seq<char>, err: Seq<char>, total: nat) -> Seq<char> {
    "preload_task_failed stage="@ + key + " package="@ + p + " err="@ + err + " total_fails="@
        + decimal_digits(total)
}

// ---- decisions ----

/// Packages of the system itself, which are never warmed up.
pub open spec fn is_system_package(p: Seq<char>) -> bool {
    p == "android"@ || p == "system"@ || has_infix(p, "com.android.systemui"@)
}

/// The package a task key names: after `warmup:`, `resolve_dir:` or
/// `discover_paths:`, else `unknown`.
pub open spec fn failed_package(key: Seq<char>) -> Seq<char> {
    match after_prefix(key, "warmup:"@) {
        Some(p) => p,
        None => match after_prefix(key, "resolve_dir:"@) {
            Some(p) => p,
            None => match after_prefix(key, "discover_paths:"@) {
                Some(p) => p,
                None => "unknown"@,
            },
        },
    }
}

/// Records a skip.
pub open spec fn skipped(m: PreloadModel, stage: Seq<char>, reason: Seq<char>, p: Seq<char>) -> PreloadModel {
    PreloadModel { skip_stage: Some(stage), skip_reason: Some(reason), skip_package: Some(p), ..m }
}

/// What every event does first: count it, stay off when turned off, turn off
/// after too many failures, and turn on when the override file is there.
/// The flag says whether the event goes on to its own handling.
pub open spec fn entry_step(m: PreloadModel, override_present: bool) -> (PreloadModel, Seq<Want>, bool) {
    let m0 = PreloadModel { events_seen: (m.events_seen + 1) as u64, ..m };
    if m0.auto_disabled {
        (m0, seq![], false)
    } else if m0.failures >= MAX_TOTAL_FAILURES {
        (
            PreloadModel { auto_disabled: true, ..m0 },
            seq![Want::Log(LogLevel::Error, "CRITICAL: PreloadAddon auto-disabled due to excessive failures"@)],
            false,
        )
    } else if !m0.config.enabled {
        if override_present {
            (
                PreloadModel { config: PreloadConfig { enabled: true, ..m0.config }, ..m0 },
                seq![Want::Log(LogLevel::Info, "Preload enabled via override file"@)],
                true,
            )
        } else {
            (m0, seq![], false)
        }
    } else {
        (m0, seq![], true)
    }
}

/// A tick: a foreground change that has settled for the debounce time is
/// resolved to its package; every minute the caches drop old entries.
pub open spec fn tick_step(m: PreloadModel, now: u64) -> (PreloadModel, Seq<Want>) {
    let (m1, w) = match m.pending {
        Some(pid) => if age(now, m.last_time) >= m.config.debounce_ms {
            (
                PreloadModel { pending: None, ..m },
                seq![Want::Sys(SystemService::ResolveIdentity, ascii_bytes(signed_decimal(pid as int)))],
            )
        } else {
            (m, seq![])
        },
        None => (m, seq![]),
    };
    if age(now, m1.last_cleanup) >= CLEANUP_INTERVAL_MS {
        (
            PreloadModel {
                last_cleanup: now,
                dedup: fresh_entries(m1.dedup, now, DEDUP_RETENTION_MS),
                negative: fresh_entries(m1.negative, now, NEGATIVE_RETENTION_MS),
                ..m1
            },
            w,
        )
    } else {
        (m1, w)
    }
}

/// A new foreground process starts the debounce.
pub open spec fn foreground_step(m: PreloadModel, now: u64, pid: i32) -> PreloadModel {
    if pid != m.last_pid {
        PreloadModel { pending: Some(pid), last_time: now, last_pid: pid, ..m }
    } else {
        m
    }
}

/// Installed packages changed: every cache is dropped.
pub open spec fn packages_step(m: PreloadModel) -> (PreloadModel, Seq<Want>) {
    (
        PreloadModel { packages: seq![], dirty: true, dedup: seq![], negative: seq![], ..m },
        seq![Want::Log(LogLevel::Info, "PKG_EVENT: invalidated caches"@)],
    )
}

/// The foreground process resolved to package `p`: system packages,
/// packages in flight, a full budget, a recent failure or a recent warmup
/// stop here; otherwise the package's directory is looked up, from the cache
/// or from the runtime.
pub open spec fn identity_step(m: PreloadModel, now: u64, p: Seq<char>) -> (PreloadModel, Seq<Want>) {
    if is_system_package(p) {
        (
            skipped(m, "identity_resolution"@, "system_package"@, p),
            seq![Want::Log(LogLevel::Debug, skip_msg(p, "identity"@, "system_package"@))],
        )
    } else {
        let m1 = PreloadModel { last_package: Some(p), ..m };
        let resolved = Want::Log(LogLevel::Debug, resolved_msg(m.last_pid, p));
        if m.in_flight.contains(p) {
            (
                skipped(m1, "identity_resolution"@, "already_in_flight"@, p),
                seq![resolved, Want::Log(LogLevel::Debug, skip_msg(p, "identity"@, "already_in_flight"@))],
            )
        } else if m.in_flight.len() >= m.config.global_max_in_flight {
            (
                skipped(m1, "identity_resolution"@, "global_budget_full"@, p),
                seq![resolved, Want::Log(LogLevel::Warn, budget_msg(p, m.in_flight.len()))],
            )
        } else if value_of(m.negative, p) is Some && age(now, value_of(m.negative, p)->0)
            < m.config.per_package_failure_backoff_ms {
            (
                skipped(m1, "identity_resolution"@, "failure_backoff"@, p),
                seq![
                    resolved,
                    Want::Log(
                        LogLevel::Debug,
                        remaining_msg(
                            p,
                            "failure_backoff"@,
                            (m.config.per_package_failure_backoff_ms - age(now, value_of(m.negative, p)->0)) as nat,
                        ),
                    ),
                ],
            )
        } else if value_of(m.dedup, p) is Some && age(now, value_of(m.dedup, p)->0)
            < m.config.per_package_warmup_cooldown_ms {
            (
                skipped(m1, "identity_resolution"@, "cooldown"@, p),
                seq![
                    resolved,
                    Want::Log(
                        LogLevel::Debug,
                        remaining_msg(
                            p,
                            "cooldown"@,
                            (m.config.per_package_warmup_cooldown_ms - age(now, value_of(m.dedup, p)->0)) as nat,
                        ),
                    ),
                ],
            )
        } else {
            match value_of(m.packages, p) {
                Some(dir) => (m1, seq![resolved, Want::Sys(SystemService::DiscoverPaths, json_of_text_pair(p, dir))]),
                None => (m1, seq![resolved, Want::Sys(SystemService::ResolveDirectory, vstd::utf8::encode_utf8(p))]),
            }
        }
    }
}

/// The package's directory is known: cache it and ask for its files.
pub open spec fn directory_step(m: PreloadModel, p: Seq<char>, dir: Seq<char>) -> (PreloadModel, Seq<Want>) {
    (
        PreloadModel { packages: with_entry(m.packages, p, dir), dirty: false, ..m },
        seq![Want::Sys(SystemService::DiscoverPaths, json_of_text_pair(p, dir))],
    )
}

/// The first `max` paths.
pub open spec fn kept_paths(paths: Seq<Seq<char>>, max: usize) -> Seq<Seq<char>> {
    if paths.len() <= max {
        paths
    } else {
        paths.take(max as int)
    }
}

/// The package's files are known: none is a failure to remember; otherwise
/// the package goes in flight and a warmup task is queued for at most the
/// configured number of paths.
pub open spec fn discovery_step(m: PreloadModel, now: u64, p: Seq<char>, paths: Seq<Seq<char>>) -> (
    PreloadModel,
    Seq<Want>,
) {
    if paths.len() == 0 {
        (
            PreloadModel {
                negative: with_entry(m.negative, p, now),
                ..skipped(m, "path_discovery"@, "no_paths_discovered"@, p)
            },
            seq![Want::Log(LogLevel::Warn, skip_msg(p, "discovery"@, "no_paths"@))],
        )
    } else {
        let kept = kept_paths(paths, m.config.max_paths_per_package);
        let m1 = PreloadModel { discovered: paths.len() as usize, in_flight: with_name_in_order(m.in_flight, p), ..m };
        (
            m1,
            seq![
                Want::Task("warmup:"@ + p, seq![1u8] + json_of_text_list(kept)),
                Want::Log(LogLevel::Info, queued_msg(p, kept.len(), m1.in_flight.len())),
            ],
        )
    }
}

/// Identity resolution failed.
pub open spec fn identity_failure_step(m: PreloadModel, err: Seq<char>) -> (PreloadModel, Seq<Want>) {
    (
        PreloadModel {
            skip_stage: Some("identity_resolution"@),
            skip_reason: Some("system_failure: "@ + err),
            ..m
        },
        seq![Want::Log(LogLevel::Warn, identity_failed_msg(m.last_pid, err))],
    )
}

/// A warmup of `p` finished: it leaves the in-flight set and starts its
/// cooldown; its byte count and duration, when readable, are kept and logged.
pub open spec fn completed_step(m: PreloadModel, now: u64, p: Seq<char>, stats: Option<(u64, u64)>) -> (
    PreloadModel,
    Seq<Want>,
) {
    let m1 = PreloadModel {
        in_flight: names_without(m.in_flight, p),
        dedup: with_entry(m.dedup, p, now),
        warmup_package: Some(p),
        ..m
    };
    match stats {
        Some((bytes, duration)) => (
            PreloadModel { warmup_result: Some(warmup_summary(p, bytes, duration)), ..m1 },
            seq![Want::Log(LogLevel::Info, "preload_success "@ + warmup_summary(p, bytes, duration))],
        ),
        None => (m1, seq![]),
    }
}

/// A task of the addon failed: its package leaves the in-flight set, the
/// failure is remembered and counted.
pub open spec fn failed_step(m: PreloadModel, now: u64, key: Seq<char>, err: Seq<char>) -> (PreloadModel, Seq<Want>) {
    let p = failed_package(key);
    let total = (m.failures + 1) as u32;
    (
        PreloadModel {
            in_flight: names_without(m.in_flight, p),
            negative: with_entry(m.negative, p, now),
            failures: total,
            ..m
        },
        seq![Want::Log(LogLevel::Warn, task_failed_msg(key, p, err, total as nat))],
    )
}

/// What an event does once the entry checks let it through.
pub open spec fn event_step(m: PreloadModel, now: u64, event: Event) -> (PreloadModel, Seq<Want>) {
    match event {
        Event::Tick => tick_step(m, now),
        Event::ForegroundChanged { pid } => (foreground_step(m, now, pid), seq![]),
        Event::PackagesChanged => packages_step(m),
        Event::SystemResponse { kind, payload, .. } => match kind {
            SystemService::ResolveIdentity => if valid_utf8(payload@) {
                identity_step(m, now, decode_utf8(payload@))
            } else {
                (m, seq![])
            },
            SystemService::ResolveDirectory => match text_pair_of_json(payload@) {
                Some((p, dir)) => directory_step(m, p, dir),
                None => (m, seq![]),
            },
            SystemService::DiscoverPaths => match name_and_list_of_json(payload@) {
                Some((p, paths)) => discovery_step(m, now, p, paths),
                None => (m, seq![]),
            },
        },
        Event::SystemFailure { kind, err, .. } => if kind == SystemService::ResolveIdentity {
            identity_failure_step(m, err@)
        } else {
            (m, seq![])
        },
        Event::AddonCompleted { addon_id, key, payload } => if addon_id == PRELOAD_ADDON_ID {
            match after_prefix(key@, "warmup:"@) {
                Some(p) => completed_step(m, now, p, u64_pair_of_json(payload@)),
                None => (m, seq![]),
            }
        } else {
            (m, seq![])
        },
        Event::AddonFailed { addon_id, key, err } => if addon_id == PRELOAD_ADDON_ID {
            failed_step(m, now, key@, err@)
        } else {
            (m, seq![])
        },
        _ => (m, seq![]),
    }
}

/// The whole handling of one event: the entry checks, then the event itself.
pub open spec fn preload_step(m: PreloadModel, now: u64, override_present: bool, event: Event) -> (
    PreloadModel,
    Seq<Want>,
) {
    let (m1, w1, go) = entry_step(m, override_present);
    if go {
        let (m2, w2) = event_step(m1, now, event);
        (m2, w1 + w2)
    } else {
        (m1, w1)
    }
}

// ---- laws ----

/// None of the wanted requests asks the runtime or the task queue for anything.
pub open spec fn no_service_request(ws: Seq<Want>) -> bool {
    forall|i: int| 0 <= i < ws.len() ==> (#[trigger] ws[i]) is Log
}

/// The addon's lists hold no duplicates.
pub open spec fn preload_wf(m: PreloadModel) -> bool {
    &&& names_distinct(m.in_flight)
    &&& names_in_order(m.in_flight)
    &&& keys_distinct(m.dedup)
    &&& keys_distinct(m.negative)
    &&& keys_distinct(m.packages)
}

/// Once the addon has turned itself off, an event is only counted: nothing
/// else changes and nothing is sent.
pub proof fn law_disabled_addon_is_silent(m: PreloadModel, now: u64, override_present: bool, event: Event)
    requires
        m.auto_disabled,
    ensures
        preload_step(m, now, override_present, event).1.len() == 0,
        preload_step(m, now, override_present, event).0 == (PreloadModel {
            events_seen: (m.events_seen + 1) as u64,
            ..m
        }),
{
}

/// A foreground change is resolved only once it has settled for the
/// debounce time: an earlier tick sends nothing and keeps it pending.
pub proof fn law_debounce_holds_back(m: PreloadModel, now: u64)
    requires
        age(now, m.last_time) < m.config.debounce_ms,
    ensures
        tick_step(m, now).1.len() == 0,
        tick_step(m, now).0.pending == m.pending,
{
}

/// The system server (`android`), `system`, and any package whose name holds
/// `com.android.systemui` are system packages: resolving one asks for no
/// directory lookup or warmup, records the skip as `system_package` at the
/// identity stage, and leaves the in-flight set alone.
pub proof fn law_system_packages_are_skipped(m: PreloadModel, now: u64, p: Seq<char>)
    requires
        p == "android"@ || has_infix(p, "com.android.systemui"@) || p == "system"@,
    ensures
        forall|i: int|
            0 <= i < identity_step(m, now, p).1.len() ==> (#[trigger] identity_step(m, now, p).1[i]) is Log,
        identity_step(m, now, p).0.skip_reason == Some("system_package"@),
        identity_step(m, now, p).0.skip_stage == Some("identity_resolution"@),
        identity_step(m, now, p).0.in_flight == m.in_flight,
{
}

/// A package already in flight is not warmed up again: resolving it asks
/// for nothing and leaves the in-flight set as it was.
pub proof fn law_in_flight_not_restarted(m: PreloadModel, now: u64, p: Seq<char>)
    requires
        m.in_flight.contains(p),
    ensures
        no_service_request(identity_step(m, now, p).1),
        identity_step(m, now, p).0.in_flight == m.in_flight,
{
}

/// After a task for a package failed, resolving that package again within
/// the failure backoff asks for nothing.
pub proof fn law_failure_backoff(m: PreloadModel, now: u64, key: Seq<char>, err: Seq<char>, later: u64)
    requires
        age(later, now) < m.config.per_package_failure_backoff_ms,
    ensures
        no_service_request(identity_step(failed_step(m, now, key, err).0, later, failed_package(key)).1),
{
    let p = failed_package(key);
    lemma_with_entry_value(m.negative, p, now, p);
}

/// After a warmup of a package finished, resolving it again within the
/// warmup cooldown asks for nothing.
pub proof fn law_warmup_cooldown(m: PreloadModel, now: u64, p: Seq<char>, stats: Option<(u64, u64)>, later: u64)
    requires
        age(later, now) < m.config.per_package_warmup_cooldown_ms,
    ensures
        no_service_request(identity_step(completed_step(m, now, p, stats).0, later, p).1),
{
    lemma_with_entry_value(m.dedup, p, now, p);
}

/// A change of installed packages empties the package, warmup and failure
/// caches and marks the package cache stale.
pub proof fn law_packages_changed_clears_caches(m: PreloadModel)
    ensures
        packages_step(m).0.packages.len() == 0,
        packages_step(m).0.dedup.len() == 0,
        packages_step(m).0.negative.len() == 0,
        packages_step(m).0.dirty,
        packages_step(m).0.in_flight == m.in_flight,
{
}

/// A finished warmup takes its package out of flight; a failed task takes
/// the package its key names out of flight.
pub proof fn law_finished_work_leaves_flight(
    m: PreloadModel,
    now: u64,
    p: Seq<char>,
    stats: Option<(u64, u64)>,
    key: Seq<char>,
    err: Seq<char>,
)
    ensures
        !completed_step(m, now, p, stats).0.in_flight.contains(p),
        !failed_step(m, now, key, err).0.in_flight.contains(failed_package(key)),
{
    lemma_names_without(m.in_flight, p, p);
    lemma_names_without(m.in_flight, failed_package(key), failed_package(key));
}

/// Every event keeps the addon's lists free of duplicates, and the
/// packages in flight in order.
pub proof fn law_step_keeps_lists_distinct(m: PreloadModel, now: u64, override_present: bool, event: Event)
    requires
        preload_wf(m),
    ensures
        preload_wf(preload_step(m, now, override_present, event).0),
{
    let (m1, w1, go) = entry_step(m, override_present);
    assert(preload_wf(m1));
    if go {
        lemma_event_step_keeps_lists_distinct(m1, now, event);
    }
}

proof fn lemma_event_step_keeps_lists_distinct(m: PreloadModel, now: u64, event: Event)
    requires
        preload_wf(m),
    ensures
        preload_wf(event_step(m, now, event).0),
{
    match event {
        Event::Tick => {
            lemma_fresh_distinct(m.dedup, now, DEDUP_RETENTION_MS);
            lemma_fresh_distinct(m.negative, now, NEGATIVE_RETENTION_MS);
        },
        Event::PackagesChanged => {},
        Event::SystemResponse { kind, payload, .. } => match kind {
            SystemService::ResolveIdentity => {},
            SystemService::ResolveDirectory => match text_pair_of_json(payload@) {
                Some((p, dir)) => {
                    lemma_with_entry_distinct(m.packages, p, dir);
                },
                None => {},
            },
            SystemService::DiscoverPaths => match name_and_list_of_json(payload@) {
                Some((p, paths)) => {
                    lemma_with_entry_distinct(m.negative, p, now);
                    lemma_with_name_in_order(m.in_flight, p);
                },
                None => {},
            },
        },
        Event::AddonCompleted { addon_id, key, payload } => {
            match after_prefix(key@, "warmup:"@) {
                Some(p) => {
                    lemma_names_without_distinct(m.in_flight, p);
                    lemma_names_without_in_order(m.in_flight, p);
                    lemma_with_entry_distinct(m.dedup, p, now);
                },
                None => {},
            }
        },
        Event::AddonFailed { addon_id, key, err } => {
            let p = failed_package(key@);
            lemma_names_without_distinct(m.in_flight, p);
            lemma_names_without_in_order(m.in_flight, p);
            lemma_with_entry_distinct(m.negative, p, now);
        },
        _ => {},
    }
}

} // verus!
