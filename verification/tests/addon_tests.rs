use corepolicy_manager::high_level::addons::preload::{PreloadAddon, PreloadConfig, WatchedPath};
use corepolicy_manager::paths;
use corepolicy_manager::runtime::foreground::normalize_package;
use corepolicy_manager::runtime::scheduler::Scheduler as TickScheduler;

#[test]
fn preload_status_report_default_fields() {
    let config = PreloadConfig {
        enabled: false,
        ..Default::default()
    };
    let addon = PreloadAddon::new(config);
    let report = addon.status_report();

    assert!(!report.enabled);
    assert!(report.warmup_mode_active);
    assert_eq!(report.last_foreground_pid, -1);
    assert!(report.last_foreground_package.is_none());
    assert_eq!(report.package_cache_count, 0);
    assert_eq!(report.dedup_cache_count, 0);
    assert_eq!(report.negative_cache_count, 0);
    assert_eq!(report.in_flight_count, 0);
    assert_eq!(report.total_failures, 0);
    assert!(!report.auto_disabled);
    assert!(report.watched_paths.is_empty());
    assert!(report.last_skip_reason.is_none());
    assert!(report.last_warmup_result.is_none());
    assert_eq!(report.socket_path, paths::SOCKET_PATH);
    assert_eq!(report.enable_preload_path, paths::ENABLE_PRELOAD_PATH);
}

#[test]
fn preload_addon_set_watch_registrations() {
    let mut addon = PreloadAddon::new(PreloadConfig::default());
    assert!(addon.watch_registrations.is_empty());

    let regs = vec![
        WatchedPath { path: "/dev/cpuset/top-app/cgroup.procs".to_string(), registered: true },
        WatchedPath { path: "/data/system/packages.xml".to_string(), registered: false },
    ];
    addon.set_watch_registrations(regs.clone());

    assert_eq!(addon.watch_registrations.len(), 2);
    assert!(addon.watch_registrations[0].registered);
    assert!(!addon.watch_registrations[1].registered);

    let report = addon.status_report();
    assert_eq!(report.watched_paths, regs);
}

#[test]
fn preload_config_default_values() {
    let c = PreloadConfig::default();
    assert!(!c.enabled);
    assert_eq!(c.global_max_in_flight, 4);
    assert_eq!(c.per_package_warmup_cooldown_ms, 60_000);
    assert_eq!(c.per_package_failure_backoff_ms, 300_000);
    assert_eq!(c.max_paths_per_package, 64);
    assert_eq!(c.max_file_size_bytes, 100 * 1024 * 1024);
    assert_eq!(c.debounce_ms, 500);
}

#[test]
fn preload_snapshot_mirrors_state() {
    let mut addon = PreloadAddon::new(PreloadConfig { enabled: true, ..Default::default() });
    addon.in_flight.push("com.a".to_string());
    addon.last_foreground_pid = 77;
    let snap = addon.status_snapshot();
    assert!(snap.enabled);
    assert_eq!(snap.in_flight_count, 1);
    assert_eq!(snap.in_flight_packages, vec!["com.a".to_string()]);
    assert_eq!(snap.last_foreground_pid, 77);
}

#[test]
fn test_package_normalization_logic() {
    assert_eq!(normalize_package("com.foo.bar"), "com.foo.bar");
    assert_eq!(normalize_package("com.foo.bar:service"), "com.foo.bar");
}

#[test]
fn normalize_package_takes_first_word() {
    assert_eq!(normalize_package("  com.app:remote --flag"), "com.app");
    assert_eq!(normalize_package(""), "");
    assert_eq!(normalize_package("   "), "");
    assert_eq!(normalize_package(":x"), "");
}

#[test]
fn tick_scheduler_waits_for_interval() {
    let mut s = TickScheduler::new(1000, 5000);
    assert!(!s.should_tick(5500));
    assert_eq!(s.timeout_until_next_tick_ms(5500), 500);
    assert!(s.should_tick(6000));
    assert_eq!(s.timeout_until_next_tick_ms(6200), 0);
    s.tick(6200);
    assert!(!s.should_tick(6300));
    assert_eq!(s.timeout_until_next_tick_ms(6300), 900);
}

#[test]
fn test_scheduler_timeout() {
    let scheduler = TickScheduler::new(100, 1_000);

    let timeout = scheduler.timeout_until_next_tick_ms(1_000);
    assert!(timeout > 0);
    assert!(timeout <= 100);

    // 110 ms later.
    assert_eq!(scheduler.timeout_until_next_tick_ms(1_110), 0);
    assert!(scheduler.should_tick(1_110));
}
