use corepolicy_manager::daemon::runtime::{
    is_foreground_change, privilege_mode_from_uid, DaemonConfig, DaemonCore, PRESSURE_REFRESH_INTERVAL_MS,
};
use corepolicy_manager::features::categories::CategoryDatabase;
use corepolicy_manager::features::profile::{PrivilegeMode, ProfilePriority, ProfileRuleAction, ProfileRulesFile};
use corepolicy_manager::runtime::foreground::ForegroundSnapshot;

fn snapshot(pid: i32, package: &str) -> ForegroundSnapshot {
    ForegroundSnapshot { pid: Some(pid), package: Some(package.to_string()), last_skip_reason: None }
}

fn fresh() -> DaemonCore {
    let config = DaemonConfig::default();
    DaemonCore::new(config, config.app_index, 0)
}

#[test]
fn foreground_event_updates_inline_features_without_extra_worker_logic() {
    let mut daemon = fresh();
    daemon.status_dirty = false;
    daemon.profile_dirty = false;

    let event = daemon.process_foreground_snapshot(&snapshot(1234, "com.example.app"), 50_000);

    assert_eq!(daemon.foreground.package.as_deref(), Some("com.example.app"));
    assert_eq!(daemon.foreground.pid, Some(1234));
    assert!(daemon.foreground.session_started_ms.is_some());
    assert!(daemon.features.usage);
    assert!(daemon.features.profile);
    assert!(daemon.status_dirty);
    assert!(daemon.profile_dirty);
    assert_eq!(event.previous.package, None);
    assert_eq!(event.current.package.as_deref(), Some("com.example.app"));
}

#[test]
fn psi_refresh_is_throttled() {
    let mut daemon = fresh();
    daemon.last_pressure_refresh_ms = 1_700_000_000_000;
    assert!(!daemon.should_refresh_pressure(false, daemon.last_pressure_refresh_ms + 1_000));
    assert!(daemon.should_refresh_pressure(false, daemon.last_pressure_refresh_ms + 5_000));
    assert!(daemon.should_refresh_pressure(true, daemon.last_pressure_refresh_ms + 1_000));
    assert!(!daemon.should_refresh_pressure(false, 0));
    assert_eq!(PRESSURE_REFRESH_INTERVAL_MS, 5_000);
}

#[test]
fn foreground_sessions_are_credited_on_switch() {
    let mut daemon = fresh();
    daemon.process_foreground_snapshot(&snapshot(10, "com.a"), 1_000);
    assert_eq!(daemon.foreground.session_started_ms, Some(1_000));
    // The same app again keeps its session.
    daemon.process_foreground_snapshot(&snapshot(11, "com.a"), 4_000);
    assert_eq!(daemon.foreground.session_started_ms, Some(1_000));
    assert_eq!(daemon.foreground.pid, Some(11));
    daemon.status_dirty = false;
    daemon.profile_dirty = false;
    daemon.process_foreground_snapshot(&snapshot(12, "com.b"), 8_500);
    assert_eq!(daemon.foreground.session_started_ms, Some(8_500));
    assert_eq!(daemon.profile.foreground_switch_count, 1);
    assert_eq!(daemon.profile.snapshot_top_apps(), vec![("com.a".to_string(), 7)]);
    assert!(daemon.status_dirty && daemon.profile_dirty);

    // Nothing in front ends the session without a switch being counted.
    let event = daemon.process_foreground_snapshot(
        &ForegroundSnapshot { pid: None, package: None, last_skip_reason: Some("locked".to_string()) },
        10_000,
    );
    assert_eq!(daemon.foreground.session_started_ms, None);
    assert_eq!(daemon.profile.foreground_switch_count, 1);
    assert_eq!(event.previous.package.as_deref(), Some("com.b"));
    assert_eq!(event.current.last_skip_reason.as_deref(), Some("locked"));
}

#[test]
fn unchanged_reading_leaves_files_clean() {
    let mut daemon = fresh();
    daemon.process_foreground_snapshot(&snapshot(10, "com.a"), 1_000);
    daemon.status_dirty = false;
    daemon.profile_dirty = false;
    daemon.process_foreground_snapshot(&snapshot(10, "com.a"), 2_000);
    assert!(!daemon.status_dirty);
    assert!(!daemon.profile_dirty);
}

#[test]
fn statistics_off_keeps_profile_untouched() {
    let config = DaemonConfig { preload: false, usage: false, pressure: false, app_index: false, profile: false };
    let mut daemon = DaemonCore::new(config, false, 0);
    assert!(!daemon.preload_dirty);
    daemon.profile_dirty = true;
    daemon.process_foreground_snapshot(&snapshot(10, "com.a"), 1_000);
    daemon.process_foreground_snapshot(&snapshot(11, "com.b"), 9_000);
    assert_eq!(daemon.profile.foreground_switch_count, 0);
    assert!(daemon.profile.top_apps.is_empty());
    // A changed status with neither profiles nor statistics clears the
    // profile file's due mark.
    assert!(!daemon.profile_dirty);
}

#[test]
fn profile_commands_execute_on_profile_switch() {
    let mut daemon = fresh();
    daemon.process_foreground_snapshot(&snapshot(100, "com.example.game"), 1_000);
    assert!(daemon.profile_commands_due(false, Some("write /proc/sys/vm/swappiness 5".to_string())));
    assert_eq!(daemon.last_tweak_signature.as_deref(), Some("write /proc/sys/vm/swappiness 5"));
}

#[test]
fn same_profile_command_set_is_not_spammed() {
    let mut daemon = fresh();
    let fingerprint = "write /proc/sys/vm/swappiness 5".to_string();
    daemon.process_foreground_snapshot(&snapshot(100, "com.example.game"), 1_000);
    assert!(daemon.profile_commands_due(false, Some(fingerprint.clone())));
    daemon.process_foreground_snapshot(&snapshot(100, "com.example.game"), 2_000);
    assert!(!daemon.profile_commands_due(false, Some(fingerprint.clone())));

    // An empty set forgets the last one; leaving the foreground empty does too.
    assert!(!daemon.profile_commands_due(true, None));
    assert_eq!(daemon.last_tweak_signature, None);
    assert!(daemon.profile_commands_due(false, Some(fingerprint.clone())));
    assert!(!daemon.profile_commands_due(false, None));
    assert!(daemon.last_tweak_signature.is_some());
    daemon.process_foreground_snapshot(&ForegroundSnapshot { pid: None, package: None, last_skip_reason: None }, 3_000);
    assert_eq!(daemon.last_tweak_signature, None);
}

#[test]
fn privilege_follows_uid() {
    assert_eq!(privilege_mode_from_uid(0), PrivilegeMode::Root);
    assert_eq!(privilege_mode_from_uid(2000), PrivilegeMode::Shell);
    assert_eq!(privilege_mode_from_uid(10123), PrivilegeMode::Unknown);
}

#[test]
fn only_the_cpuset_watch_signals_a_foreground_change() {
    assert!(is_foreground_change(&vec![3, 7], Some(7)));
    assert!(!is_foreground_change(&vec![3, 4], Some(7)));
    assert!(!is_foreground_change(&vec![3, 7], None));
    assert!(!is_foreground_change(&vec![], Some(7)));
}

fn rule(preload: bool, priority: ProfilePriority) -> ProfileRuleAction {
    ProfileRuleAction { preload, priority, commands: vec![] }
}

#[test]
fn profile_rules_select_by_privilege() {
    let mut db = CategoryDatabase::new();
    assert!(db.add("game", "com.example.game"));
    let rules = ProfileRulesFile {
        schema_version: 1,
        rules: vec![(
            "game".to_string(),
            vec![
                ("root".to_string(), rule(true, ProfilePriority::Performance)),
                ("shell".to_string(), rule(false, ProfilePriority::Balanced)),
            ],
        )],
    };
    let privilege = privilege_mode_from_uid(0);

    let mut daemon = fresh();
    daemon.process_foreground_snapshot(&snapshot(1234, "com.example.game"), 1_000);
    let profile_status = daemon.build_profile_status(&db, &rules, privilege);
    assert_eq!(profile_status.current_class, "game");
    assert_eq!(profile_status.privilege, "root");
    assert!(profile_status.selected_profile.preload);
    assert_eq!(profile_status.selected_profile.priority, ProfilePriority::Performance);

    let shell = daemon.build_profile_status(&db, &rules, privilege_mode_from_uid(2000));
    assert!(!shell.selected_profile.preload);
    assert_eq!(shell.selected_profile.priority, ProfilePriority::Balanced);
}

#[test]
fn profile_status_reports_statistics_only_when_kept() {
    let db = CategoryDatabase::new();
    let rules = ProfileRulesFile::default_rules();
    let mut daemon = fresh();
    daemon.process_foreground_snapshot(&snapshot(1, "com.a"), 0);
    daemon.process_foreground_snapshot(&snapshot(2, "com.b"), 3_000);
    daemon.process_foreground_snapshot(&snapshot(3, "com.c"), 13_000);
    let st = daemon.build_profile_status(&db, &rules, PrivilegeMode::Shell);
    assert_eq!(st.schema_version, 1);
    assert_eq!(st.current_class, "unknown");
    assert_eq!(st.privilege, "shell");
    assert!(!st.selected_profile.preload);
    assert_eq!(st.foreground_switch_count, 2);
    assert_eq!(st.top_apps, vec![("com.b".to_string(), 10), ("com.a".to_string(), 3)]);

    daemon.features.usage = false;
    let st = daemon.build_profile_status(&db, &rules, PrivilegeMode::Shell);
    assert_eq!(st.foreground_switch_count, 0);
    assert!(st.top_apps.is_empty());
}
