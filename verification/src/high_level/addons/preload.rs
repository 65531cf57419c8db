//! The preload addon: watches foreground changes, resolves the app's
//! package and its files, and asks for them to be read ahead, with
//! debouncing, per-package cooldowns and failure backoff.

use vstd::prelude::*;
use vstd::string::{StrSliceExecFns, StringExecFns};
use crate::codec::{
    decode_name_and_list, decode_text_pair, decode_u64_pair, encode_i32, encode_text_list, encode_text_pair,
    text_of_utf8,
};
use crate::high_level::addons::keyed::{
    add_name_in_order, has_name, keep_fresh, names_view, remove_name, set_stamp, set_text, stamp_lookup, stamps_view,
    text_lookup, texts_view,
};
use crate::high_level::addons::preload_model::{
    completed_step, directory_step, discovery_step, event_step, failed_package, failed_step, foreground_step,
    entry_step, identity_failure_step, identity_step, is_system_package, lemma_reqs_append, packages_step,
    preload_step, remaining_msg, req_is, reqs_are, resolved_msg, skip_msg, budget_msg, queued_msg,
    identity_failed_msg, warmup_summary, task_failed_msg, tick_step, PreloadModel, Want, CLEANUP_INTERVAL_MS,
    DEDUP_RETENTION_MS, MAX_TOTAL_FAILURES, NEGATIVE_RETENTION_MS, PRELOAD_ADDON_ID,
};
use crate::high_level::api::PreloadSnapshot;
use crate::high_level::identity::{Principal, Request};
use crate::machine::state_view::StateView;
use crate::machine::types::{CauseId, Event, Intent, LogLevel, SystemService};
use crate::text::{contains_text, push_decimal, push_signed_decimal, push_str, str_eq, string_of, strip_text_prefix};

verus! {

/// Limits and switches of the preload addon.
#[derive(Clone, Copy, Debug, PartialEq, Eq, Structural)]
pub struct PreloadConfig {
    pub enabled: bool,
    pub global_max_in_flight: usize,
    pub per_package_warmup_cooldown_ms: u64,
    pub per_package_failure_backoff_ms: u64,
    pub max_paths_per_package: usize,
    pub max_file_size_bytes: u64,
    pub debounce_ms: u64,
}

impl Default for PreloadConfig {
    /// Disabled, four warmups at once, a one-minute cooldown, a five-minute
    /// failure backoff, 64 paths per package, 100 MiB per file, 500 ms debounce.
    fn default() -> (c: Self)
        ensures
            c == (PreloadConfig {
                enabled: false,
                global_max_in_flight: 4,
                per_package_warmup_cooldown_ms: 60000,
                per_package_failure_backoff_ms: 300000,
                max_paths_per_package: 64,
                max_file_size_bytes: 104857600,
                debounce_ms: 500,
            }),
    {
        PreloadConfig {
            enabled: false,
            global_max_in_flight: 4,
            per_package_warmup_cooldown_ms: 60000,
            per_package_failure_backoff_ms: 300000,
            max_paths_per_package: 64,
            max_file_size_bytes: 104857600,
            debounce_ms: 500,
        }
    }
}

/// An inotify-watched path and whether its watch is registered.
#[derive(Debug, Clone, PartialEq, Eq)]
pub struct WatchedPath {
    pub path: String,
    pub registered: bool,
}

/// The preload status answered over IPC.
pub struct PreloadStatusReport {
    pub enabled: bool,
    pub warmup_mode_active: bool,
    pub socket_path: String,
    pub mode: String,
    pub enable_preload_file_exists: bool,
    pub enable_preload_path: String,
    pub foreground_path_exists: bool,
    pub last_foreground_pid: i32,
    pub last_foreground_package: Option<String>,
    pub package_cache_count: usize,
    pub dedup_cache_count: usize,
    pub negative_cache_count: usize,
    pub in_flight_count: usize,
    pub total_failures: u32,
    pub auto_disabled: bool,
    pub watched_paths: Vec<WatchedPath>,
    pub last_skip_reason: Option<String>,
    pub last_warmup_result: Option<String>,
}

pub struct PreloadAddon {
    pub config: PreloadConfig,
    pub dedup_cache: Vec<(String, u64)>,
    pub negative_cache: Vec<(String, u64)>,
    pub package_map: Vec<(String, String)>,
    pub package_cache_dirty: bool,
    pub in_flight: Vec<String>,
    pub last_foreground_pid: i32,
    pub last_foreground_time: u64,
    pub pending_foreground_pid: Option<i32>,
    pub last_foreground_package: Option<String>,
    pub total_failures: u32,
    pub auto_disabled: bool,
    pub events_seen: u64,
    pub last_cleanup_time: u64,
    pub last_skip_stage: Option<String>,
    pub last_skip_reason: Option<String>,
    pub last_skip_package: Option<String>,
    pub last_discovered_path_count: usize,
    pub last_warmup_result: Option<String>,
    pub last_warmup_package: Option<String>,
    pub watch_registrations: Vec<WatchedPath>,
}

pub open spec fn opt_text(s: Option<String>) -> Option<Seq<char>> {
    match s {
        Some(x) => Some(x@),
        None => None,
    }
}

pub fn copy_opt(s: &Option<String>) -> (r: Option<String>)
    ensures
        r == *s,
{
    match s {
        Some(x) => Some(x.clone()),
        None => None,
    }
}

/// The watched paths with whether each is registered, in order.
pub open spec fn watch_view(s: Seq<WatchedPath>) -> Seq<(Seq<char>, bool)> {
    s.map_values(|w: WatchedPath| (w.path@, w.registered))
}

/// The same watched paths, in the same order.
pub open spec fn same_watch_list(a: Seq<WatchedPath>, b: Seq<WatchedPath>) -> bool {
    watch_view(a) == watch_view(b)
}

fn copy_watch_list(v: &Vec<WatchedPath>) -> (r: Vec<WatchedPath>)
    ensures
        same_watch_list(r@, v@),
{
    let mut out: Vec<WatchedPath> = Vec::new();
    let mut i: usize = 0;
    while i < v.len()
        invariant
            i <= v@.len(),
            watch_view(out@) == watch_view(v@.take(i as int)),
        decreases v@.len() - i,
    {
        let ghost old_out = out@;
        let item = WatchedPath { path: v[i].path.clone(), registered: v[i].registered };
        out.push(item);
        proof {
            assert(watch_view(out@) =~= watch_view(old_out).push((v@[i as int].path@, v@[i as int].registered)));
            assert(watch_view(v@.take(i + 1)) =~= watch_view(v@.take(i as int)).push(
                (v@[i as int].path@, v@[i as int].registered),
            ));
        }
        i = i + 1;
    }
    proof {
        assert(v@.take(i as int) =~= v@);
    }
    out
}

fn copy_names(v: &Vec<String>) -> (r: Vec<String>)
    ensures
        r@ == v@,
{
    let mut out: Vec<String> = Vec::new();
    let mut i: usize = 0;
    while i < v.len()
        invariant
            i <= v@.len(),
            out@ == v@.take(i as int),
        decreases v@.len() - i,
    {
        out.push(v[i].clone());
        proof {
            assert(out@ =~= v@.take(i + 1));
        }
        i = i + 1;
    }
    proof {
        assert(v@.take(i as int) =~= v@);
    }
    out
}

impl View for PreloadAddon {
    type V = PreloadModel;

    open spec fn view(&self) -> PreloadModel {
        PreloadModel {
            config: self.config,
            dedup: stamps_view(self.dedup_cache@),
            negative: stamps_view(self.negative_cache@),
            packages: texts_view(self.package_map@),
            dirty: self.package_cache_dirty,
            in_flight: names_view(self.in_flight@),
            last_pid: self.last_foreground_pid,
            last_time: self.last_foreground_time,
            pending: self.pending_foreground_pid,
            last_package: opt_text(self.last_foreground_package),
            failures: self.total_failures,
            auto_disabled: self.auto_disabled,
            events_seen: self.events_seen,
            last_cleanup: self.last_cleanup_time,
            skip_stage: opt_text(self.last_skip_stage),
            skip_reason: opt_text(self.last_skip_reason),
            skip_package: opt_text(self.last_skip_package),
            discovered: self.last_discovered_path_count,
            warmup_result: opt_text(self.last_warmup_result),
            warmup_package: opt_text(self.last_warmup_package),
            watches: watch_view(self.watch_registrations@),
        }
    }
}

fn addon_request(intent: Intent) -> (r: Request)
    ensures
        r.principal == Principal::Addon(PRELOAD_ADDON_ID),
        r.client_id is None,
        r.cause == CauseId(0),
        r.intent == intent,
{
    Request { client_id: None, principal: Principal::Addon(PRELOAD_ADDON_ID), intent, cause: CauseId(0) }
}

fn log_request(level: LogLevel, msg: String) -> (r: Request)
    ensures
        req_is(r, Want::Log(level, msg@)),
{
    addon_request(Intent::AddonLog { addon_id: PRELOAD_ADDON_ID, level, msg })
}

fn system_request(kind: SystemService, payload: Vec<u8>) -> (r: Request)
    ensures
        req_is(r, Want::Sys(kind, payload@)),
{
    addon_request(Intent::SystemRequest { request_id: 0, kind, payload })
}

fn task_request(key: String, payload: Vec<u8>) -> (r: Request)
    ensures
        req_is(r, Want::Task(key@, payload@)),
{
    addon_request(Intent::AddonTask { addon_id: PRELOAD_ADDON_ID, key, payload })
}

fn no_requests(Ghost(w): Ghost<Seq<Want>>) -> (r: Vec<Request>)
    requires
        w.len() == 0,
    ensures
        reqs_are(r@, w),
{
    Vec::new()
}

fn one_request(a: Request, Ghost(wa): Ghost<Want>) -> (r: Vec<Request>)
    requires
        req_is(a, wa),
    ensures
        reqs_are(r@, seq![wa]),
{
    let mut v: Vec<Request> = Vec::new();
    v.push(a);
    assert(v@[0] == a);
    v
}

fn two_requests(a: Request, b: Request, Ghost(wa): Ghost<Want>, Ghost(wb): Ghost<Want>) -> (r: Vec<Request>)
    requires
        req_is(a, wa),
        req_is(b, wb),
    ensures
        reqs_are(r@, seq![wa, wb]),
{
    let mut v: Vec<Request> = Vec::new();
    v.push(a);
    v.push(b);
    assert(v@[0] == a && v@[1] == b);
    let ghost w = seq![wa, wb];
    assert(req_is(v@[0], w[0]) && req_is(v@[1], w[1]));
    v
}

fn skip_text(p: &str, stage: &str, reason: &str) -> (r: String)
    ensures
        r@ == skip_msg(p@, stage@, reason@),
{
    let mut s = String::new();
    push_str(&mut s, "preload skip package=");
    push_str(&mut s, p);
    push_str(&mut s, " stage=");
    push_str(&mut s, stage);
    push_str(&mut s, " reason=");
    push_str(&mut s, reason);
    assert(s@ =~= skip_msg(p@, stage@, reason@));
    s
}

fn budget_text(p: &str, count: usize) -> (r: String)
    ensures
        r@ == budget_msg(p@, count as nat),
{
    let mut s = skip_text(p, "identity", "global_budget_full");
    push_str(&mut s, " count=");
    push_decimal(&mut s, count as u64);
    assert(s@ =~= budget_msg(p@, count as nat));
    s
}

fn remaining_text(p: &str, reason: &str, remaining: u64) -> (r: String)
    ensures
        r@ == remaining_msg(p@, reason@, remaining as nat),
{
    let mut s = skip_text(p, "identity", reason);
    push_str(&mut s, " remaining_ms=");
    push_decimal(&mut s, remaining);
    assert(s@ =~= remaining_msg(p@, reason@, remaining as nat));
    s
}

fn resolved_text(pid: i32, p: &str) -> (r: String)
    ensures
        r@ == resolved_msg(pid, p@),
{
    let mut s = String::new();
    push_str(&mut s, "preload_identity_resolved pid=");
    push_signed_decimal(&mut s, pid as i64);
    push_str(&mut s, " package=");
    push_str(&mut s, p);
    assert(s@ =~= resolved_msg(pid, p@));
    s
}

fn queued_text(p: &str, paths: usize, in_flight: usize) -> (r: String)
    ensures
        r@ == queued_msg(p@, paths as nat, in_flight as nat),
{
    let mut s = String::new();
    push_str(&mut s, "preload warmup task queued: package=");
    push_str(&mut s, p);
    push_str(&mut s, " paths=");
    push_decimal(&mut s, paths as u64);
    push_str(&mut s, " in_flight=");
    push_decimal(&mut s, in_flight as u64);
    assert(s@ =~= queued_msg(p@, paths as nat, in_flight as nat));
    s
}

fn identity_failed_text(pid: i32, err: &str) -> (r: String)
    ensures
        r@ == identity_failed_msg(pid, err@),
{
    let mut s = String::new();
    push_str(&mut s, "identity resolution failed pid=");
    push_signed_decimal(&mut s, pid as i64);
    push_str(&mut s, " err=");
    push_str(&mut s, err);
    assert(s@ =~= identity_failed_msg(pid, err@));
    s
}

fn summary_text(p: &str, bytes: u64, duration_ms: u64) -> (r: String)
    ensures
        r@ == warmup_summary(p@, bytes, duration_ms),
{
    let mut s = String::new();
    push_str(&mut s, "package=");
    push_str(&mut s, p);
    push_str(&mut s, " bytes=");
    push_decimal(&mut s, bytes);
    push_str(&mut s, " duration_ms=");
    push_decimal(&mut s, duration_ms);
    assert(s@ =~= warmup_summary(p@, bytes, duration_ms));
    s
}

fn task_failed_text(key: &str, p: &str, err: &str, total: u32) -> (r: String)
    ensures
        r@ == task_failed_msg(key@, p@, err@, total as nat),
{
    let mut s = String::new();
    push_str(&mut s, "preload_task_failed stage=");
    push_str(&mut s, key);
    push_str(&mut s, " package=");
    push_str(&mut s, p);
    push_str(&mut s, " err=");
    push_str(&mut s, err);
    push_str(&mut s, " total_fails=");
    push_decimal(&mut s, total as u64);
    assert(s@ =~= task_failed_msg(key@, p@, err@, total as nat));
    s
}

/// Whether `p` names a package of the system itself.
pub fn is_system_name(p: &str) -> (r: bool)
    ensures
        r == is_system_package(p@),
{
    str_eq(p, "android") || str_eq(p, "system") || contains_text(p, "com.android.systemui")
}

/// The package a task key names (see `failed_package`).
pub fn package_of_task_key(key: &str) -> (r: String)
    ensures
        r@ == failed_package(key@),
{
    match strip_text_prefix(key, "warmup:") {
        Some(p) => p,
        None => match strip_text_prefix(key, "resolve_dir:") {
            Some(p) => p,
            None => match strip_text_prefix(key, "discover_paths:") {
                Some(p) => p,
                None => string_of("unknown"),
            },
        },
    }
}

impl PreloadAddon {
    /// A fresh addon: no foreground seen yet (pid -1), empty caches, no
    /// failures, no watches recorded.
    pub fn new(config: PreloadConfig) -> (a: Self)
        ensures
            a.config == config,
            a.dedup_cache@.len() == 0,
            a.negative_cache@.len() == 0,
            a.package_map@.len() == 0,
            !a.package_cache_dirty,
            a.in_flight@.len() == 0,
            a.last_foreground_pid == -1,
            a.last_foreground_time == 0,
            a.pending_foreground_pid is None,
            a.last_foreground_package is None,
            a.total_failures == 0,
            !a.auto_disabled,
            a.events_seen == 0,
            a.last_cleanup_time == 0,
            a.last_skip_stage is None,
            a.last_skip_reason is None,
            a.last_skip_package is None,
            a.last_discovered_path_count == 0,
            a.last_warmup_result is None,
            a.last_warmup_package is None,
            a.watch_registrations@.len() == 0,
    {
        PreloadAddon {
            config,
            dedup_cache: Vec::new(),
            negative_cache: Vec::new(),
            package_map: Vec::new(),
            package_cache_dirty: false,
            in_flight: Vec::new(),
            last_foreground_pid: -1,
            last_foreground_time: 0,
            pending_foreground_pid: None,
            last_foreground_package: None,
            total_failures: 0,
            auto_disabled: false,
            events_seen: 0,
            last_cleanup_time: 0,
            last_skip_stage: None,
            last_skip_reason: None,
            last_skip_package: None,
            last_discovered_path_count: 0,
            last_warmup_result: None,
            last_warmup_package: None,
            watch_registrations: Vec::new(),
        }
    }

    /// Records the watch registrations made by the runtime.
    pub fn set_watch_registrations(&mut self, regs: Vec<WatchedPath>)
        ensures
            *final(self) == (PreloadAddon { watch_registrations: regs, ..*old(self) }),
    {
        self.watch_registrations = regs;
    }

    /// The addon's own policy state, with no probes of the file system.
    pub fn status_snapshot(&self) -> (s: PreloadSnapshot)
        ensures
            s.enabled == self.config.enabled,
            s.last_foreground_pid == self.last_foreground_pid,
            s.last_foreground_package == self.last_foreground_package,
            s.package_cache_count == self.package_map@.len(),
            s.package_cache_dirty == self.package_cache_dirty,
            s.dedup_cache_count == self.dedup_cache@.len(),
            s.negative_cache_count == self.negative_cache@.len(),
            s.in_flight_count == self.in_flight@.len(),
            s.in_flight_packages@ == self.in_flight@,
            s.total_failures == self.total_failures,
            s.auto_disabled == self.auto_disabled,
            s.events_seen == self.events_seen,
            s.last_skip_stage == self.last_skip_stage,
            s.last_skip_reason == self.last_skip_reason,
            s.last_skip_package == self.last_skip_package,
            s.last_discovered_path_count == self.last_discovered_path_count,
            s.last_warmup_result == self.last_warmup_result,
            s.last_warmup_package == self.last_warmup_package,
    {
        PreloadSnapshot {
            enabled: self.config.enabled,
            last_foreground_pid: self.last_foreground_pid,
            last_foreground_package: copy_opt(&self.last_foreground_package),
            package_cache_count: self.package_map.len(),
            package_cache_dirty: self.package_cache_dirty,
            dedup_cache_count: self.dedup_cache.len(),
            negative_cache_count: self.negative_cache.len(),
            in_flight_count: self.in_flight.len(),
            in_flight_packages: copy_names(&self.in_flight),
            total_failures: self.total_failures,
            auto_disabled: self.auto_disabled,
            events_seen: self.events_seen,
            last_skip_stage: copy_opt(&self.last_skip_stage),
            last_skip_reason: copy_opt(&self.last_skip_reason),
            last_skip_package: copy_opt(&self.last_skip_package),
            last_discovered_path_count: self.last_discovered_path_count,
            last_warmup_result: copy_opt(&self.last_warmup_result),
            last_warmup_package: copy_opt(&self.last_warmup_package),
        }
    }

    /// The preload status served over IPC: the addon's state, the fixed
    /// socket and control-file paths, and the recorded watches. The daemon
    /// runs in preload mode with warmup active; probes of the control file
    /// and the foreground path are left to the runtime, so both read false.
    pub fn status_report(&self) -> (r: PreloadStatusReport)
        ensures
            r.enabled == self.config.enabled,
            r.warmup_mode_active,
            r.socket_path@ == crate::paths::SOCKET_PATH@,
            r.mode@ == "preload"@,
            !r.enable_preload_file_exists,
            r.enable_preload_path@ == crate::paths::ENABLE_PRELOAD_PATH@,
            !r.foreground_path_exists,
            r.last_foreground_pid == self.last_foreground_pid,
            r.last_foreground_package == self.last_foreground_package,
            r.package_cache_count == self.package_map@.len(),
            r.dedup_cache_count == self.dedup_cache@.len(),
            r.negative_cache_count == self.negative_cache@.len(),
            r.in_flight_count == self.in_flight@.len(),
            r.total_failures == self.total_failures,
            r.auto_disabled == self.auto_disabled,
            same_watch_list(r.watched_paths@, self.watch_registrations@),
            r.last_skip_reason == self.last_skip_reason,
            r.last_warmup_result == self.last_warmup_result,
    {
        PreloadStatusReport {
            enabled: self.config.enabled,
            warmup_mode_active: true,
            socket_path: String::from_str(crate::paths::SOCKET_PATH),
            mode: String::from_str("preload"),
            enable_preload_file_exists: false,
            enable_preload_path: String::from_str(crate::paths::ENABLE_PRELOAD_PATH),
            foreground_path_exists: false,
            last_foreground_pid: self.last_foreground_pid,
            last_foreground_package: copy_opt(&self.last_foreground_package),
            package_cache_count: self.package_map.len(),
            dedup_cache_count: self.dedup_cache.len(),
            negative_cache_count: self.negative_cache.len(),
            in_flight_count: self.in_flight.len(),
            total_failures: self.total_failures,
            auto_disabled: self.auto_disabled,
            watched_paths: copy_watch_list(&self.watch_registrations),
            last_skip_reason: copy_opt(&self.last_skip_reason),
            last_warmup_result: copy_opt(&self.last_warmup_result),
        }
    }
}

impl PreloadAddon {
    fn note_skip(&mut self, stage: &str, reason: &str, package: &str)
        ensures
            final(self)@ == (PreloadModel {
                skip_stage: Some(stage@),
                skip_reason: Some(reason@),
                skip_package: Some(package@),
                ..old(self)@
            }),
    {
        self.last_skip_stage = Some(string_of(stage));
        self.last_skip_reason = Some(string_of(reason));
        self.last_skip_package = Some(string_of(package));
        assert(self@ =~= (PreloadModel {
            skip_stage: Some(stage@),
            skip_reason: Some(reason@),
            skip_package: Some(package@),
            ..old(self)@
        }));
    }

    /// A tick (see `tick_step`).
    pub fn on_tick(&mut self, now: u64) -> (r: Vec<Request>)
        ensures
            final(self)@ == tick_step(old(self)@, now).0,
            reqs_are(r@, tick_step(old(self)@, now).1),
    {
        let ghost m = self@;
        let mut reqs: Vec<Request> = Vec::new();
        if let Some(pid) = self.pending_foreground_pid {
            let t = self.last_foreground_time;
            let elapsed: u64 = if now >= t { now - t } else { 0 };
            if elapsed >= self.config.debounce_ms {
                reqs = one_request(
                    system_request(SystemService::ResolveIdentity, encode_i32(pid)),
                    Ghost(tick_step(m, now).1[0]),
                );
                self.pending_foreground_pid = None;
            }
        }
        let ghost m1 = self@;
        let c = self.last_cleanup_time;
        let since: u64 = if now >= c { now - c } else { 0 };
        if since >= CLEANUP_INTERVAL_MS {
            self.last_cleanup_time = now;
            keep_fresh(&mut self.dedup_cache, now, DEDUP_RETENTION_MS);
            keep_fresh(&mut self.negative_cache, now, NEGATIVE_RETENTION_MS);
        }
        assert(self@ =~= tick_step(m, now).0);
        assert(reqs@.len() == 0 ==> reqs@ =~= Seq::<Request>::empty());
        reqs
    }

    /// A new foreground process (see `foreground_step`).
    pub fn on_foreground_changed(&mut self, now: u64, pid: i32)
        ensures
            final(self)@ == foreground_step(old(self)@, now, pid),
    {
        if pid != self.last_foreground_pid {
            self.pending_foreground_pid = Some(pid);
            self.last_foreground_time = now;
            self.last_foreground_pid = pid;
        }
        assert(self@ =~= foreground_step(old(self)@, now, pid));
    }

    /// Installed packages changed (see `packages_step`).
    pub fn on_packages_changed(&mut self) -> (r: Vec<Request>)
        ensures
            final(self)@ == packages_step(old(self)@).0,
            reqs_are(r@, packages_step(old(self)@).1),
    {
        self.package_map = Vec::new();
        self.package_cache_dirty = true;
        self.dedup_cache = Vec::new();
        self.negative_cache = Vec::new();
        assert(self@ =~= packages_step(old(self)@).0);
        one_request(
            log_request(LogLevel::Info, string_of("PKG_EVENT: invalidated caches")),
            Ghost(packages_step(old(self)@).1[0]),
        )
    }

    /// The foreground process resolved to `package` (see `identity_step`).
    pub fn on_identity_resolved(&mut self, now: u64, package: &str) -> (r: Vec<Request>)
        ensures
            final(self)@ == identity_step(old(self)@, now, package@).0,
            reqs_are(r@, identity_step(old(self)@, now, package@).1),
    {
        let ghost m = self@;
        let ghost want = identity_step(m, now, package@).1;
        if is_system_name(package) {
            self.note_skip("identity_resolution", "system_package", package);
            assert(self@ =~= identity_step(m, now, package@).0);
            return one_request(
                log_request(LogLevel::Debug, skip_text(package, "identity", "system_package")),
                Ghost(want[0]),
            );
        }
        self.last_foreground_package = Some(string_of(package));
        let resolved = log_request(LogLevel::Debug, resolved_text(self.last_foreground_pid, package));
        if has_name(&self.in_flight, package) {
            self.note_skip("identity_resolution", "already_in_flight", package);
            assert(self@ =~= identity_step(m, now, package@).0);
            return two_requests(
                resolved,
                log_request(LogLevel::Debug, skip_text(package, "identity", "already_in_flight")),
                Ghost(want[0]),
                Ghost(want[1]),
            );
        }
        if self.in_flight.len() >= self.config.global_max_in_flight {
            let count = self.in_flight.len();
            self.note_skip("identity_resolution", "global_budget_full", package);
            assert(self@ =~= identity_step(m, now, package@).0);
            return two_requests(
                resolved,
                log_request(LogLevel::Warn, budget_text(package, count)),
                Ghost(want[0]),
                Ghost(want[1]),
            );
        }
        if let Some(t) = stamp_lookup(&self.negative_cache, package) {
            let elapsed: u64 = if now >= t { now - t } else { 0 };
            if elapsed < self.config.per_package_failure_backoff_ms {
                let left = self.config.per_package_failure_backoff_ms - elapsed;
                self.note_skip("identity_resolution", "failure_backoff", package);
                assert(self@ =~= identity_step(m, now, package@).0);
                return two_requests(
                    resolved,
                    log_request(LogLevel::Debug, remaining_text(package, "failure_backoff", left)),
                    Ghost(want[0]),
                    Ghost(want[1]),
                );
            }
        }
        if let Some(t) = stamp_lookup(&self.dedup_cache, package) {
            let elapsed: u64 = if now >= t { now - t } else { 0 };
            if elapsed < self.config.per_package_warmup_cooldown_ms {
                let left = self.config.per_package_warmup_cooldown_ms - elapsed;
                self.note_skip("identity_resolution", "cooldown", package);
                assert(self@ =~= identity_step(m, now, package@).0);
                return two_requests(
                    resolved,
                    log_request(LogLevel::Debug, remaining_text(package, "cooldown", left)),
                    Ghost(want[0]),
                    Ghost(want[1]),
                );
            }
        }
        assert(self@ =~= identity_step(m, now, package@).0);
        match text_lookup(&self.package_map, package) {
            Some(dir) => {
                let name = string_of(package);
                let payload = encode_text_pair(&name, &dir);
                two_requests(
                    resolved,
                    system_request(SystemService::DiscoverPaths, payload),
                    Ghost(want[0]),
                    Ghost(want[1]),
                )
            },
            None => {
                let payload = package.as_bytes_vec();
                two_requests(
                    resolved,
                    system_request(SystemService::ResolveDirectory, payload),
                    Ghost(want[0]),
                    Ghost(want[1]),
                )
            },
        }
    }

    /// The directory of `package` is known (see `directory_step`).
    pub fn on_directory_resolved(&mut self, package: String, dir: String) -> (r: Vec<Request>)
        ensures
            final(self)@ == directory_step(old(self)@, package@, dir@).0,
            reqs_are(r@, directory_step(old(self)@, package@, dir@).1),
    {
        let payload = encode_text_pair(&package, &dir);
        let ghost want = directory_step(self@, package@, dir@).1;
        let ghost m = self@;
        set_text(&mut self.package_map, package, dir);
        self.package_cache_dirty = false;
        assert(self@ =~= directory_step(m, package@, dir@).0);
        one_request(system_request(SystemService::DiscoverPaths, payload), Ghost(want[0]))
    }

    /// The files of `package` are known (see `discovery_step`).
    pub fn on_paths_discovered(&mut self, now: u64, package: String, paths: Vec<String>) -> (r: Vec<Request>)
        ensures
            final(self)@ == discovery_step(old(self)@, now, package@, names_view(paths@)).0,
            reqs_are(r@, discovery_step(old(self)@, now, package@, names_view(paths@)).1),
    {
        let ghost m = self@;
        let ghost want = discovery_step(m, now, package@, names_view(paths@)).1;
        if paths.len() == 0 {
            self.note_skip("path_discovery", "no_paths_discovered", package.as_str());
            let msg = skip_text(package.as_str(), "discovery", "no_paths");
            set_stamp(&mut self.negative_cache, package, now);
            assert(self@ =~= discovery_step(m, now, package@, names_view(paths@)).0);
            return one_request(log_request(LogLevel::Warn, msg), Ghost(want[0]));
        }
        let mut paths = paths;
        let ghost all = names_view(paths@);
        self.last_discovered_path_count = paths.len();
        paths.truncate(self.config.max_paths_per_package);
        assert(names_view(paths@) =~= crate::high_level::addons::preload_model::kept_paths(
            all,
            self.config.max_paths_per_package,
        ));
        add_name_in_order(&mut self.in_flight, package.clone());
        let mut key = string_of("warmup:");
        push_str(&mut key, package.as_str());
        let mut payload: Vec<u8> = Vec::new();
        payload.push(1u8);
        let mut json = encode_text_list(&paths);
        payload.append(&mut json);
        let msg = queued_text(package.as_str(), paths.len(), self.in_flight.len());
        assert(self@ =~= discovery_step(m, now, package@, all).0);
        assert(payload@ =~= seq![1u8] + crate::codec::json_of_text_list(names_view(paths@)));
        two_requests(task_request(key, payload), log_request(LogLevel::Info, msg), Ghost(want[0]), Ghost(want[1]))
    }

    /// Identity resolution failed with `err` (see `identity_failure_step`).
    pub fn on_identity_failed(&mut self, err: &str) -> (r: Vec<Request>)
        ensures
            final(self)@ == identity_failure_step(old(self)@, err@).0,
            reqs_are(r@, identity_failure_step(old(self)@, err@).1),
    {
        let ghost m = self@;
        let ghost want = identity_failure_step(m, err@).1;
        let mut reason = string_of("system_failure: ");
        push_str(&mut reason, err);
        self.last_skip_stage = Some(string_of("identity_resolution"));
        self.last_skip_reason = Some(reason);
        assert(self@ =~= identity_failure_step(m, err@).0);
        one_request(
            log_request(LogLevel::Warn, identity_failed_text(self.last_foreground_pid, err)),
            Ghost(want[0]),
        )
    }

    /// A warmup of `package` finished, with its statistics when they could be
    /// read (see `completed_step`).
    pub fn on_warmup_completed(&mut self, now: u64, package: String, stats: Option<(u64, u64)>) -> (r: Vec<Request>)
        ensures
            final(self)@ == completed_step(old(self)@, now, package@, stats).0,
            reqs_are(r@, completed_step(old(self)@, now, package@, stats).1),
    {
        let ghost m = self@;
        let ghost want = completed_step(m, now, package@, stats).1;
        remove_name(&mut self.in_flight, package.as_str());
        set_stamp(&mut self.dedup_cache, package.clone(), now);
        self.last_warmup_package = Some(package.clone());
        match stats {
            Some((bytes, duration_ms)) => {
                let summary = summary_text(package.as_str(), bytes, duration_ms);
                let mut msg = string_of("preload_success ");
                push_str(&mut msg, summary.as_str());
                self.last_warmup_result = Some(summary);
                assert(self@ =~= completed_step(m, now, package@, stats).0);
                one_request(log_request(LogLevel::Info, msg), Ghost(want[0]))
            },
            None => {
                assert(self@ =~= completed_step(m, now, package@, stats).0);
                let v: Vec<Request> = Vec::new();
                assert(v@ =~= Seq::<Request>::empty());
                v
            },
        }
    }

    /// A task of the addon failed (see `failed_step`).
    pub fn on_task_failed(&mut self, now: u64, key: &str, err: &str) -> (r: Vec<Request>)
        requires
            old(self).total_failures < u32::MAX,
        ensures
            final(self)@ == failed_step(old(self)@, now, key@, err@).0,
            reqs_are(r@, failed_step(old(self)@, now, key@, err@).1),
    {
        let ghost m = self@;
        let ghost want = failed_step(m, now, key@, err@).1;
        let package = package_of_task_key(key);
        remove_name(&mut self.in_flight, package.as_str());
        let msg_total = self.total_failures + 1;
        let msg = task_failed_text(key, package.as_str(), err, msg_total);
        set_stamp(&mut self.negative_cache, package, now);
        self.total_failures = msg_total;
        assert(self@ =~= failed_step(m, now, key@, err@).0);
        one_request(log_request(LogLevel::Warn, msg), Ghost(want[0]))
    }

    /// Handles one core event at time `now`: the entry checks first (counting,
    /// auto-disable, enabling through the override file, whose presence the
    /// caller probes), then the event itself (see `preload_step`).
    pub fn on_core_event<S: StateView>(&mut self, state: &S, event: &Event, override_present: bool) -> (r: Vec<
        Request,
    >)
        requires
            old(self).events_seen < u64::MAX,
        ensures
            final(self)@ == preload_step(old(self)@, state.now_view(), override_present, *event).0,
            reqs_are(r@, preload_step(old(self)@, state.now_view(), override_present, *event).1),
    {
        let ghost m = self@;
        let now = state.now();
        self.events_seen = self.events_seen + 1;
        let ghost entry = entry_step(m, override_present);
        if self.auto_disabled {
            assert(self@ =~= entry.0);
            return no_requests(Ghost(entry.1));
        }
        if self.total_failures >= MAX_TOTAL_FAILURES {
            self.auto_disabled = true;
            assert(self@ =~= entry.0);
            return one_request(
                log_request(
                    LogLevel::Error,
                    string_of("CRITICAL: PreloadAddon auto-disabled due to excessive failures"),
                ),
                Ghost(entry.1[0]),
            );
        }
        let mut reqs: Vec<Request> = Vec::new();
        if !self.config.enabled {
            if override_present {
                self.config.enabled = true;
                reqs = one_request(
                    log_request(LogLevel::Info, string_of("Preload enabled via override file")),
                    Ghost(entry.1[0]),
                );
            } else {
                assert(self@ =~= entry.0);
                return no_requests(Ghost(entry.1));
            }
        }
        assert(self@ =~= entry.0);
        assert(reqs_are(reqs@, entry.1)) by {
            if entry.1.len() == 0 {
                assert(reqs@ =~= Seq::<Request>::empty());
            }
        }
        let ghost m1 = self@;
        let mut more: Vec<Request> = match event {
            Event::Tick => self.on_tick(now),
            Event::ForegroundChanged { pid } => {
                self.on_foreground_changed(now, *pid);
                no_requests(Ghost(event_step(m1, now, *event).1))
            },
            Event::PackagesChanged => self.on_packages_changed(),
            Event::SystemResponse { kind, payload, .. } => match kind {
                SystemService::ResolveIdentity => {
                    let bytes = payload.clone();
                    assert(bytes@ =~= payload@);
                    match text_of_utf8(bytes) {
                        Some(name) => self.on_identity_resolved(now, name.as_str()),
                        None => {
                            no_requests(Ghost(event_step(m1, now, *event).1))
                        },
                    }
                },
                SystemService::ResolveDirectory => match decode_text_pair(payload) {
                    Some((name, dir)) => self.on_directory_resolved(name, dir),
                    None => {
                        no_requests(Ghost(event_step(m1, now, *event).1))
                    },
                },
                SystemService::DiscoverPaths => match decode_name_and_list(payload) {
                    Some((name, paths)) => self.on_paths_discovered(now, name, paths),
                    None => {
                        no_requests(Ghost(event_step(m1, now, *event).1))
                    },
                },
            },
            Event::SystemFailure { kind, err, .. } => {
                if *kind == SystemService::ResolveIdentity {
                    self.on_identity_failed(err.as_str())
                } else {
                    no_requests(Ghost(event_step(m1, now, *event).1))
                }
            },
            Event::AddonCompleted { addon_id, key, payload } => {
                if *addon_id == PRELOAD_ADDON_ID {
                    match strip_text_prefix(key.as_str(), "warmup:") {
                        Some(package) => {
                            let stats = decode_u64_pair(payload);
                            self.on_warmup_completed(now, package, stats)
                        },
                        None => {
                            no_requests(Ghost(event_step(m1, now, *event).1))
                        },
                    }
                } else {
                    no_requests(Ghost(event_step(m1, now, *event).1))
                }
            },
            Event::AddonFailed { addon_id, key, err } => {
                if *addon_id == PRELOAD_ADDON_ID {
                    self.on_task_failed(now, key.as_str(), err.as_str())
                } else {
                    no_requests(Ghost(event_step(m1, now, *event).1))
                }
            },
            _ => {
                no_requests(Ghost(event_step(m1, now, *event).1))
            },
        };
        proof {
            lemma_reqs_append(reqs@, entry.1, more@, event_step(m1, now, *event).1);
        }
        reqs.append(&mut more);
        reqs
    }
}

} // verus!
