//! The daemon's own state between events: which parts run, the foreground
//! app and its session, foreground statistics, and which status files are
//! due to be written. Reading the system and writing files is the
//! runtime's; it hands each reading to the functions here and acts on what
//! they return.

use vstd::prelude::*;
use vstd::string::StringExecFns;
use crate::features::categories::{categories_view, classify_spec, CategoryDatabase};
use crate::features::profile::{
    class_name, privilege_name, rule_for, sorted_by_time_desc, switch_allowed, text_of, times_after_switch,
    PrivilegeMode, ProfileClass, ProfileFeature, ProfilePriority, ProfileRulesFile, SelectedProfile,
};
use crate::high_level::addons::keyed::stamps_view;
use crate::high_level::addons::preload::{copy_opt, opt_text};
use crate::runtime::foreground::{ForegroundEvent, ForegroundSnapshot};
use crate::text::{str_eq, string_of};

verus! {

/// Least time between two refreshes of the pressure readings, unless one
/// is forced.
pub const PRESSURE_REFRESH_INTERVAL_MS: u64 = 5000;

/// The optional parts of the daemon.
#[derive(Debug, Clone, Copy, PartialEq, Eq, Structural)]
pub struct DaemonConfig {
    pub preload: bool,
    pub usage: bool,
    pub pressure: bool,
    pub app_index: bool,
    pub profile: bool,
}

impl Default for DaemonConfig {
    /// Everything on.
    fn default() -> (c: Self)
        ensures
            c == (DaemonConfig { preload: true, usage: true, pressure: true, app_index: true, profile: true }),
    {
        DaemonConfig { preload: true, usage: true, pressure: true, app_index: true, profile: true }
    }
}

/// The foreground app as the daemon last saw it, with when its session
/// began.
pub struct ForegroundStatus {
    pub pid: Option<i32>,
    pub package: Option<String>,
    pub session_started_ms: Option<u64>,
}

/// A foreground status as plain values.
pub open spec fn fg_view(f: ForegroundStatus) -> (Option<i32>, Option<Seq<char>>, Option<u64>) {
    (f.pid, opt_text(f.package), f.session_started_ms)
}

/// The foreground status after a reading of `pid` and `package` at
/// `now_ms`: a new app starts a session now (none when no app is in
/// front); the same app keeps its session.
pub open spec fn foreground_after(
    f: ForegroundStatus,
    pid: Option<i32>,
    package: Option<Seq<char>>,
    now_ms: u64,
) -> (Option<i32>, Option<Seq<char>>, Option<u64>) {
    let started = if opt_text(f.package) != package {
        if package is Some {
            Some(now_ms)
        } else {
            None
        }
    } else {
        f.session_started_ms
    };
    (pid, package, started)
}

/// Whether foreground statistics or profiles are kept.
pub open spec fn profile_subsystem(c: DaemonConfig) -> bool {
    c.usage || c.profile
}

/// The daemon's state between events.
pub struct DaemonCore {
    pub features: DaemonConfig,
    pub foreground: ForegroundStatus,
    pub profile: ProfileFeature,
    pub status_dirty: bool,
    pub profile_dirty: bool,
    pub preload_dirty: bool,
    pub last_pressure_refresh_ms: u64,
    pub last_tweak_signature: Option<String>,
}

/// The profile status file: the foreground app's class, the privilege the
/// daemon runs with, the profile chosen, and the foreground statistics
/// (only when they are kept).
pub struct ProfileStatusFile {
    pub schema_version: u32,
    pub current_class: String,
    pub privilege: String,
    pub selected_profile: SelectedProfile,
    pub foreground_switch_count: u64,
    pub top_apps: Vec<(String, u64)>,
}

/// The class of the foreground app: unknown when none is in front.
pub open spec fn foreground_class(db: CategoryDatabase, package: Option<Seq<char>>) -> ProfileClass {
    match package {
        Some(p) => classify_spec(categories_view(db.categories@), p),
        None => ProfileClass::Unknown,
    }
}

/// The profile rules give a class under a privilege (neutral without a rule).
pub open spec fn selected_for(rules: ProfileRulesFile, class: ProfileClass, privilege: PrivilegeMode) -> SelectedProfile {
    match rule_for(rules.rules@, class_name(class), privilege_name(privilege)) {
        Some(a) => SelectedProfile { preload: a.preload, priority: a.priority },
        None => SelectedProfile { preload: false, priority: ProfilePriority::Neutral },
    }
}

/// The privilege the daemon runs with, by user id: root (0), shell (2000),
/// or unknown.
pub fn privilege_mode_from_uid(uid: u32) -> (m: PrivilegeMode)
    ensures
        m == (if uid == 0 {
            PrivilegeMode::Root
        } else if uid == 2000 {
            PrivilegeMode::Shell
        } else {
            PrivilegeMode::Unknown
        }),
{
    match uid {
        0 => PrivilegeMode::Root,
        2000 => PrivilegeMode::Shell,
        _ => PrivilegeMode::Unknown,
    }
}

/// Whether any of the watch descriptors that fired is the one on the
/// foreground cpuset list.
pub fn is_foreground_change(fired: &Vec<i32>, cpuset_watch: Option<i32>) -> (r: bool)
    ensures
        r == match cpuset_watch {
            Some(w) => fired@.contains(w),
            None => false,
        },
{
    let w = match cpuset_watch {
        Some(w) => w,
        None => return false,
    };
    let mut i: usize = 0;
    while i < fired.len()
        invariant
            cpuset_watch == Some(w),
            i <= fired@.len(),
            forall|j: int| 0 <= j < i ==> fired@[j] != w,
        decreases fired@.len() - i,
    {
        if fired[i] == w {
            assert(fired@[i as int] == w);
            return true;
        }
        i = i + 1;
    }
    false
}

fn opt_as_str(o: &Option<String>) -> (r: Option<&str>)
    ensures
        text_of(r) == opt_text(*o),
{
    match o {
        Some(s) => Some(s.as_str()),
        None => None,
    }
}

fn same_text(a: &Option<String>, b: &Option<String>) -> (r: bool)
    ensures
        r == (opt_text(*a) == opt_text(*b)),
{
    match (a, b) {
        (Some(x), Some(y)) => str_eq(x.as_str(), y.as_str()),
        (None, None) => true,
        _ => false,
    }
}

impl DaemonCore {
    /// A daemon just started: nothing in front, no statistics, and every
    /// status file due (the preload one only when preloading runs).
    pub fn new(config: DaemonConfig, app_index_enabled: bool, last_pressure_refresh_ms: u64) -> (d: Self)
        ensures
            d.features == (DaemonConfig { app_index: app_index_enabled, ..config }),
            fg_view(d.foreground) == (None::<i32>, None::<Seq<char>>, None::<u64>),
            d.profile.foreground_switch_count == 0,
            d.profile.top_apps@.len() == 0,
            d.status_dirty,
            d.profile_dirty,
            d.preload_dirty == config.preload,
            d.last_pressure_refresh_ms == last_pressure_refresh_ms,
            d.last_tweak_signature is None,
    {
        DaemonCore {
            features: DaemonConfig {
                preload: config.preload,
                usage: config.usage,
                pressure: config.pressure,
                app_index: app_index_enabled,
                profile: config.profile,
            },
            foreground: ForegroundStatus { pid: None, package: None, session_started_ms: None },
            profile: ProfileFeature::new(),
            status_dirty: true,
            profile_dirty: true,
            preload_dirty: config.preload,
            last_pressure_refresh_ms,
            last_tweak_signature: None,
        }
    }

    /// Whether foreground statistics or profiles are kept.
    pub fn profile_subsystem_enabled(&self) -> (r: bool)
        ensures
            r == profile_subsystem(self.features),
    {
        self.features.usage || self.features.profile
    }

    /// Whether the pressure readings are to be refreshed at `now_ms`: when
    /// forced, or once `PRESSURE_REFRESH_INTERVAL_MS` have passed since the
    /// last refresh.
    pub fn should_refresh_pressure(&self, force: bool, now_ms: u64) -> (r: bool)
        ensures
            r == (force || (if now_ms >= self.last_pressure_refresh_ms {
                now_ms - self.last_pressure_refresh_ms
            } else {
                0
            }) >= PRESSURE_REFRESH_INTERVAL_MS),
    {
        force || now_ms.saturating_sub(self.last_pressure_refresh_ms) >= PRESSURE_REFRESH_INTERVAL_MS
    }

    /// Takes a foreground reading at `now_ms`. The status changes as
    /// `foreground_after` says; a changed status makes the status file due,
    /// and the profile file due exactly when profiles or statistics are
    /// kept. With statistics on, the app that left is credited its session
    /// and a change of app makes the profile file due. With no app in
    /// front, or profiles off, no profile command set counts as applied.
    /// Returns the change to hand to the daemon's features.
    pub fn process_foreground_snapshot(&mut self, snapshot: &ForegroundSnapshot, now_ms: u64) -> (e:
        ForegroundEvent)
        requires
            old(self).features.usage ==> switch_allowed(
                old(self).profile,
                opt_text(old(self).foreground.package),
                opt_text(snapshot.package),
                old(self).foreground.session_started_ms,
                now_ms,
            ),
        ensures
            ({
                let pre = fg_view(old(self).foreground);
                let post = foreground_after(old(self).foreground, snapshot.pid, opt_text(snapshot.package), now_ms);
                let moved = opt_text(old(self).foreground.package) != opt_text(snapshot.package);
                let dirty_after_status = if post != pre {
                    profile_subsystem(old(self).features)
                } else {
                    old(self).profile_dirty
                };
                &&& fg_view(final(self).foreground) == post
                &&& final(self).status_dirty == (old(self).status_dirty || post != pre)
                &&& final(self).profile_dirty == (if old(self).features.usage && moved {
                    true
                } else {
                    dirty_after_status
                })
                &&& if old(self).features.usage && moved {
                    &&& final(self).profile.foreground_switch_count == old(self).profile.foreground_switch_count + (
                    if opt_text(old(self).foreground.package) is Some && snapshot.package is Some {
                        1int
                    } else {
                        0int
                    })
                    &&& stamps_view(final(self).profile.top_apps@) == times_after_switch(
                        stamps_view(old(self).profile.top_apps@),
                        opt_text(old(self).foreground.package),
                        old(self).foreground.session_started_ms,
                        now_ms,
                    )
                } else {
                    &&& final(self).profile.foreground_switch_count == old(self).profile.foreground_switch_count
                    &&& stamps_view(final(self).profile.top_apps@) == stamps_view(old(self).profile.top_apps@)
                }
            }),
            snapshot.package is None || !old(self).features.profile ==> final(self).last_tweak_signature is None,
            snapshot.package is Some && old(self).features.profile ==> final(self).last_tweak_signature
                == old(self).last_tweak_signature,
            e.previous.pid == old(self).foreground.pid,
            e.previous.package == old(self).foreground.package,
            e.previous.last_skip_reason is None,
            e.current.pid == snapshot.pid,
            e.current.package == snapshot.package,
            e.current.last_skip_reason == snapshot.last_skip_reason,
            final(self).features == old(self).features,
            final(self).preload_dirty == old(self).preload_dirty,
            final(self).last_pressure_refresh_ms == old(self).last_pressure_refresh_ms,
    {
        let prev_package = copy_opt(&self.foreground.package);
        let prev_session_started_ms = self.foreground.session_started_ms;
        let prev_pid = self.foreground.pid;
        let moved = !same_text(&prev_package, &snapshot.package);

        self.foreground.pid = snapshot.pid;
        self.foreground.package = copy_opt(&snapshot.package);
        if moved {
            self.foreground.session_started_ms = match snapshot.package {
                Some(_) => Some(now_ms),
                None => None,
            };
        }
        let changed = prev_pid != self.foreground.pid || moved || prev_session_started_ms
            != self.foreground.session_started_ms;
        if changed {
            self.status_dirty = true;
            self.profile_dirty = self.profile_subsystem_enabled();
        }
        if self.features.usage {
            self.profile.on_foreground_changed(
                opt_as_str(&prev_package),
                opt_as_str(&snapshot.package),
                prev_session_started_ms,
                now_ms,
            );
            if moved {
                self.profile_dirty = true;
            }
        }
        if snapshot.package.is_none() || !self.features.profile {
            self.last_tweak_signature = None;
        }
        ForegroundEvent {
            previous: ForegroundSnapshot { pid: prev_pid, package: prev_package, last_skip_reason: None },
            current: ForegroundSnapshot {
                pid: snapshot.pid,
                package: copy_opt(&snapshot.package),
                last_skip_reason: copy_opt(&snapshot.last_skip_reason),
            },
        }
    }

    /// The profile status: the foreground app's class by the category
    /// database, the profile the rules give it under `privilege`, and, when
    /// statistics are kept, the switch count and the app times longest
    /// first (otherwise zero and none).
    pub fn build_profile_status(
        &self,
        db: &CategoryDatabase,
        rules: &ProfileRulesFile,
        privilege: PrivilegeMode,
    ) -> (st: ProfileStatusFile)
        ensures
            ({
                let class = foreground_class(*db, opt_text(self.foreground.package));
                &&& st.schema_version == 1
                &&& st.current_class@ == class_name(class)
                &&& st.privilege@ == privilege_name(privilege)
                &&& st.selected_profile == selected_for(*rules, class, privilege)
            }),
            self.features.usage ==> {
                &&& st.foreground_switch_count == self.profile.foreground_switch_count
                &&& sorted_by_time_desc(stamps_view(st.top_apps@))
                &&& stamps_view(st.top_apps@).to_multiset() == stamps_view(self.profile.top_apps@).to_multiset()
            },
            !self.features.usage ==> st.foreground_switch_count == 0 && st.top_apps@.len() == 0,
    {
        let class = match &self.foreground.package {
            Some(p) => db.classify(p.as_str()),
            None => ProfileClass::Unknown,
        };
        let selected_profile = rules.resolve(&class, &privilege);
        let (foreground_switch_count, top_apps) = if self.features.usage {
            (self.profile.foreground_switch_count, self.profile.snapshot_top_apps())
        } else {
            (0, Vec::new())
        };
        ProfileStatusFile {
            schema_version: 1,
            current_class: string_of(class.name()),
            privilege: string_of(privilege.name()),
            selected_profile,
            foreground_switch_count,
            top_apps,
        }
    }

    /// Whether the foreground app's profile commands are to be applied now.
    /// An empty command set clears the record of the last set applied; a set
    /// whose fingerprint could not be taken (`None`) is skipped; a set with
    /// the fingerprint of the last one applied is not applied again.
    /// Otherwise the set is due and its fingerprint recorded.
    pub fn profile_commands_due(&mut self, commands_empty: bool, fingerprint: Option<String>) -> (due: bool)
        ensures
            commands_empty ==> !due && final(self).last_tweak_signature is None,
            !commands_empty ==> match fingerprint {
                None => !due && final(self).last_tweak_signature == old(self).last_tweak_signature,
                Some(f) => {
                    &&& due == (opt_text(old(self).last_tweak_signature) != Some(f@))
                    &&& opt_text(final(self).last_tweak_signature) == Some(f@)
                },
            },
            final(self).features == old(self).features,
            fg_view(final(self).foreground) == fg_view(old(self).foreground),
            final(self).status_dirty == old(self).status_dirty,
            final(self).profile_dirty == old(self).profile_dirty,
            final(self).preload_dirty == old(self).preload_dirty,
    {
        if commands_empty {
            self.last_tweak_signature = None;
            return false;
        }
        match fingerprint {
            None => false,
            Some(f) => {
                let repeated = match &self.last_tweak_signature {
                    Some(last) => str_eq(last.as_str(), f.as_str()),
                    None => false,
                };
                if repeated {
                    false
                } else {
                    self.last_tweak_signature = Some(f);
                    true
                }
            },
        }
    }
}

} // verus!
