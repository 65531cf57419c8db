use corepolicy_manager::high_level::addons::preload::{PreloadAddon, PreloadConfig};
use corepolicy_manager::machine::execution::ExecutionState;
use corepolicy_manager::machine::types::{Event, Intent, LogLevel, SystemService};

fn at(clock: u64) -> ExecutionState {
    let mut s = ExecutionState::new();
    s.clock = clock;
    s
}

fn response(kind: SystemService, payload: Vec<u8>) -> Event {
    Event::SystemResponse { request_id: 0, kind, payload }
}

fn log_text(intent: &Intent) -> Option<(LogLevel, String)> {
    if let Intent::AddonLog { level, msg, .. } = intent {
        Some((*level, msg.clone()))
    } else {
        None
    }
}

#[test]
fn test_preload_addon_debouncing() {
    let config = PreloadConfig { enabled: true, debounce_ms: 100, ..Default::default() };
    let mut addon = PreloadAddon::new(config);
    let state = ExecutionState::new();

    let reqs = addon.on_core_event(&state, &Event::ForegroundChanged { pid: 100 }, false);
    assert!(reqs.is_empty());

    let state50 = at(50);
    let reqs = addon.on_core_event(&state50, &Event::ForegroundChanged { pid: 200 }, false);
    assert!(reqs.is_empty());

    let state140 = at(140);
    let reqs = addon.on_core_event(&state140, &Event::Tick, false);
    assert!(reqs.is_empty());

    let state151 = at(151);
    let reqs = addon.on_core_event(&state151, &Event::Tick, false);
    assert_eq!(reqs.len(), 1);
    if let Intent::SystemRequest { kind, .. } = &reqs[0].intent {
        assert_eq!(*kind, SystemService::ResolveIdentity);
    } else {
        panic!("Expected SystemRequest");
    }
}

#[test]
fn test_preload_addon_deduplication() {
    let config = PreloadConfig { enabled: true, ..Default::default() };
    let mut addon = PreloadAddon::new(config);
    let state = ExecutionState::new();

    let reqs = addon.on_core_event(
        &state,
        &response(SystemService::ResolveIdentity, "com.test".to_string().into_bytes()),
        false,
    );
    assert!(!reqs.is_empty());

    let reqs = addon.on_core_event(
        &state,
        &response(
            SystemService::ResolveDirectory,
            serde_json::to_vec(&("com.test".to_string(), "/data/app/test".to_string())).unwrap(),
        ),
        false,
    );
    assert_eq!(reqs.len(), 1);

    let reqs = addon.on_core_event(
        &state,
        &response(
            SystemService::DiscoverPaths,
            serde_json::to_vec(&("com.test".to_string(), vec!["base.apk".to_string()])).unwrap(),
        ),
        false,
    );
    assert!(reqs.len() >= 2);
    assert!(addon.in_flight.contains(&"com.test".to_string()));

    let reqs = addon.on_core_event(
        &state,
        &response(SystemService::ResolveIdentity, "com.test".to_string().into_bytes()),
        false,
    );
    assert_eq!(reqs.len(), 2);
    if let Intent::AddonLog { msg, .. } = &reqs[1].intent {
        assert!(msg.contains("skip") && msg.contains("already_in_flight"));
    } else {
        panic!("Expected SKIP log");
    }
}

#[test]
fn test_preload_addon_failure_backoff() {
    let config = PreloadConfig { enabled: true, per_package_failure_backoff_ms: 1000, ..Default::default() };
    let mut addon = PreloadAddon::new(config);

    let mut state = at(100);
    addon.in_flight.push("com.fail".to_string());
    let _ = addon.on_core_event(
        &state,
        &Event::AddonFailed { addon_id: 102, key: "warmup:com.fail".to_string(), err: "io error".to_string() },
        false,
    );

    assert!(addon.negative_cache.iter().any(|(k, _)| k == "com.fail"));

    state.clock = 500;
    let reqs = addon.on_core_event(
        &state,
        &response(SystemService::ResolveIdentity, "com.fail".to_string().into_bytes()),
        false,
    );
    assert_eq!(reqs.len(), 2);
    if let Intent::AddonLog { msg, .. } = &reqs[1].intent {
        assert!(msg.contains("skip") && msg.contains("failure_backoff"));
    } else {
        panic!("Expected SKIP log");
    }

    state.clock = 1200;
    let reqs = addon.on_core_event(
        &state,
        &response(SystemService::ResolveIdentity, "com.fail".to_string().into_bytes()),
        false,
    );
    assert_eq!(reqs.len(), 2);
}

#[test]
fn test_preload_addon_cache_invalidation() {
    let config = PreloadConfig { enabled: true, ..Default::default() };
    let mut addon = PreloadAddon::new(config);
    let state = ExecutionState::new();

    addon.package_map.push(("com.test".to_string(), "path".to_string()));
    addon.dedup_cache.push(("com.test".to_string(), 100));

    let _ = addon.on_core_event(&state, &Event::PackagesChanged, false);

    assert!(addon.package_map.is_empty());
    assert!(addon.dedup_cache.is_empty());
}

#[test]
fn preload_status_report_tracks_skip_reason() {
    let config = PreloadConfig { enabled: true, global_max_in_flight: 1, ..Default::default() };
    let mut addon = PreloadAddon::new(config);
    let state = ExecutionState::new();

    addon.in_flight.push("com.first".to_string());

    let _ = addon.on_core_event(
        &state,
        &response(SystemService::ResolveIdentity, "com.second".to_string().into_bytes()),
        false,
    );

    let report = addon.status_report();
    assert_eq!(report.last_skip_reason.as_deref(), Some("global_budget_full"));
    assert_eq!(report.last_foreground_package.as_deref(), Some("com.second"));
}

#[test]
fn preload_status_report_tracks_warmup_result() {
    let config = PreloadConfig { enabled: true, ..Default::default() };
    let mut addon = PreloadAddon::new(config);
    let state = ExecutionState::new();

    addon.in_flight.push("com.warmup".to_string());

    let payload = serde_json::to_vec(&(8192u64, 25u64)).unwrap();
    let _ = addon.on_core_event(
        &state,
        &Event::AddonCompleted { addon_id: 102, key: "warmup:com.warmup".to_string(), payload },
        false,
    );

    let report = addon.status_report();
    let result = report.last_warmup_result.expect("warmup result must be set");
    assert!(result.contains("com.warmup"));
    assert!(result.contains("bytes=8192"));
    assert!(result.contains("duration_ms=25"));
    assert!(!addon.in_flight.contains(&"com.warmup".to_string()));
}

#[test]
fn preload_disabled_addon_stays_quiet_without_override() {
    let mut addon = PreloadAddon::new(PreloadConfig::default());
    let state = ExecutionState::new();
    let reqs = addon.on_core_event(&state, &Event::PackagesChanged, false);
    assert!(reqs.is_empty());
    assert_eq!(addon.events_seen, 1);
    assert!(!addon.config.enabled);
}

#[test]
fn preload_override_file_enables_the_addon() {
    let mut addon = PreloadAddon::new(PreloadConfig::default());
    let state = ExecutionState::new();
    let reqs = addon.on_core_event(&state, &Event::PackagesChanged, true);
    assert!(addon.config.enabled);
    assert_eq!(reqs.len(), 2);
    assert_eq!(
        log_text(&reqs[0].intent),
        Some((LogLevel::Info, "Preload enabled via override file".to_string()))
    );
    assert_eq!(log_text(&reqs[1].intent), Some((LogLevel::Info, "PKG_EVENT: invalidated caches".to_string())));
}

#[test]
fn preload_auto_disables_after_many_failures() {
    let mut addon = PreloadAddon::new(PreloadConfig { enabled: true, ..Default::default() });
    addon.total_failures = 50;
    let state = ExecutionState::new();
    let reqs = addon.on_core_event(&state, &Event::Tick, false);
    assert!(addon.auto_disabled);
    assert_eq!(reqs.len(), 1);
    assert_eq!(
        log_text(&reqs[0].intent),
        Some((LogLevel::Error, "CRITICAL: PreloadAddon auto-disabled due to excessive failures".to_string()))
    );
    let reqs = addon.on_core_event(&state, &Event::PackagesChanged, false);
    assert!(reqs.is_empty());
    assert_eq!(addon.events_seen, 2);
}

#[test]
fn preload_skips_system_packages() {
    let mut addon = PreloadAddon::new(PreloadConfig { enabled: true, ..Default::default() });
    let state = ExecutionState::new();
    let reqs = addon.on_core_event(
        &state,
        &response(SystemService::ResolveIdentity, b"com.android.systemui:ui".to_vec()),
        false,
    );
    assert_eq!(reqs.len(), 1);
    assert_eq!(
        log_text(&reqs[0].intent),
        Some((
            LogLevel::Debug,
            "preload skip package=com.android.systemui:ui stage=identity reason=system_package".to_string()
        ))
    );
    assert_eq!(addon.last_skip_reason.as_deref(), Some("system_package"));
    assert!(addon.last_foreground_package.is_none());
}

#[test]
fn preload_identity_miss_asks_for_directory() {
    let mut addon = PreloadAddon::new(PreloadConfig { enabled: true, ..Default::default() });
    addon.last_foreground_pid = 42;
    let state = ExecutionState::new();
    let reqs = addon.on_core_event(&state, &response(SystemService::ResolveIdentity, b"com.game".to_vec()), false);
    assert_eq!(reqs.len(), 2);
    assert_eq!(
        log_text(&reqs[0].intent),
        Some((LogLevel::Debug, "preload_identity_resolved pid=42 package=com.game".to_string()))
    );
    match &reqs[1].intent {
        Intent::SystemRequest { kind, payload, .. } => {
            assert_eq!(*kind, SystemService::ResolveDirectory);
            assert_eq!(payload, b"com.game");
        }
        _ => panic!("Expected SystemRequest"),
    }
}

#[test]
fn preload_identity_hit_asks_for_paths() {
    let mut addon = PreloadAddon::new(PreloadConfig { enabled: true, ..Default::default() });
    addon.package_map.push(("com.game".to_string(), "/data/app/game".to_string()));
    let state = ExecutionState::new();
    let reqs = addon.on_core_event(&state, &response(SystemService::ResolveIdentity, b"com.game".to_vec()), false);
    assert_eq!(reqs.len(), 2);
    match &reqs[1].intent {
        Intent::SystemRequest { kind, payload, .. } => {
            assert_eq!(*kind, SystemService::DiscoverPaths);
            let (name, dir): (String, String) = serde_json::from_slice(payload).unwrap();
            assert_eq!(name, "com.game");
            assert_eq!(dir, "/data/app/game");
        }
        _ => panic!("Expected SystemRequest"),
    }
}

#[test]
fn preload_discovery_truncates_and_queues_warmup() {
    let mut addon =
        PreloadAddon::new(PreloadConfig { enabled: true, max_paths_per_package: 2, ..Default::default() });
    let state = ExecutionState::new();
    let paths = vec!["a".to_string(), "b".to_string(), "c".to_string()];
    let reqs = addon.on_core_event(
        &state,
        &response(SystemService::DiscoverPaths, serde_json::to_vec(&("com.x".to_string(), paths)).unwrap()),
        false,
    );
    assert_eq!(addon.last_discovered_path_count, 3);
    assert_eq!(reqs.len(), 2);
    match &reqs[0].intent {
        Intent::AddonTask { addon_id, key, payload } => {
            assert_eq!(*addon_id, 102);
            assert_eq!(key, "warmup:com.x");
            assert_eq!(payload[0], 1u8);
            let kept: Vec<String> = serde_json::from_slice(&payload[1..]).unwrap();
            assert_eq!(kept, vec!["a".to_string(), "b".to_string()]);
        }
        _ => panic!("Expected AddonTask"),
    }
    assert_eq!(
        log_text(&reqs[1].intent),
        Some((LogLevel::Info, "preload warmup task queued: package=com.x paths=2 in_flight=1".to_string()))
    );
}

#[test]
fn preload_discovery_without_paths_backs_off() {
    let mut addon = PreloadAddon::new(PreloadConfig { enabled: true, ..Default::default() });
    let state = at(7);
    let empty: Vec<String> = Vec::new();
    let reqs = addon.on_core_event(
        &state,
        &response(SystemService::DiscoverPaths, serde_json::to_vec(&("com.y".to_string(), empty)).unwrap()),
        false,
    );
    assert_eq!(reqs.len(), 1);
    assert_eq!(addon.negative_cache, vec![("com.y".to_string(), 7)]);
    assert_eq!(addon.last_skip_reason.as_deref(), Some("no_paths_discovered"));
}

#[test]
fn preload_cooldown_after_warmup() {
    let mut addon = PreloadAddon::new(PreloadConfig { enabled: true, ..Default::default() });
    let _ = addon.on_core_event(
        &at(1000),
        &Event::AddonCompleted { addon_id: 102, key: "warmup:com.z".to_string(), payload: b"[1,2]".to_vec() },
        false,
    );
    assert_eq!(addon.last_warmup_result.as_deref(), Some("package=com.z bytes=1 duration_ms=2"));
    let reqs = addon.on_core_event(&at(2000), &response(SystemService::ResolveIdentity, b"com.z".to_vec()), false);
    assert_eq!(reqs.len(), 2);
    assert_eq!(
        log_text(&reqs[1].intent),
        Some((LogLevel::Debug, "preload skip package=com.z stage=identity reason=cooldown remaining_ms=59000".to_string()))
    );
}

#[test]
fn preload_failure_messages() {
    let mut addon = PreloadAddon::new(PreloadConfig { enabled: true, ..Default::default() });
    addon.last_foreground_pid = -5;
    let reqs = addon.on_core_event(
        &at(1),
        &Event::SystemFailure { request_id: 0, kind: SystemService::ResolveIdentity, err: "gone".to_string() },
        false,
    );
    assert_eq!(log_text(&reqs[0].intent), Some((LogLevel::Warn, "identity resolution failed pid=-5 err=gone".to_string())));
    assert_eq!(addon.last_skip_reason.as_deref(), Some("system_failure: gone"));

    let reqs = addon.on_core_event(
        &at(2),
        &Event::AddonFailed { addon_id: 102, key: "resolve_dir:com.q".to_string(), err: "e".to_string() },
        false,
    );
    assert_eq!(
        log_text(&reqs[0].intent),
        Some((LogLevel::Warn, "preload_task_failed stage=resolve_dir:com.q package=com.q err=e total_fails=1".to_string()))
    );
    let reqs = addon.on_core_event(
        &at(3),
        &Event::AddonFailed { addon_id: 102, key: "other".to_string(), err: "e".to_string() },
        false,
    );
    assert_eq!(reqs.len(), 1);
    assert!(addon.negative_cache.iter().any(|(k, _)| k == "unknown"));
    assert_eq!(addon.total_failures, 2);
}

#[test]
fn preload_tick_sweeps_old_cache_entries() {
    let mut addon = PreloadAddon::new(PreloadConfig { enabled: true, ..Default::default() });
    addon.dedup_cache.push(("old".to_string(), 0));
    addon.dedup_cache.push(("new".to_string(), 3_600_000));
    addon.negative_cache.push(("old".to_string(), 0));
    addon.negative_cache.push(("new".to_string(), 3_000_000));
    let reqs = addon.on_core_event(&at(3_600_000), &Event::Tick, false);
    assert!(reqs.is_empty());
    assert_eq!(addon.dedup_cache, vec![("new".to_string(), 3_600_000)]);
    assert_eq!(addon.negative_cache, vec![("new".to_string(), 3_000_000)]);
    assert_eq!(addon.last_cleanup_time, 3_600_000);
}

#[test]
fn in_flight_packages_are_listed_in_order() {
    let config = PreloadConfig { enabled: true, ..Default::default() };
    let mut addon = PreloadAddon::new(config);
    let state = ExecutionState::new();
    for name in ["com.b", "com.c", "com.a"] {
        let reqs = addon.on_core_event(
            &state,
            &response(
                SystemService::DiscoverPaths,
                serde_json::to_vec(&(name.to_string(), vec!["base.apk".to_string()])).unwrap(),
            ),
            false,
        );
        assert!(reqs.len() >= 2);
    }
    let snap = addon.status_snapshot();
    assert_eq!(
        snap.in_flight_packages,
        vec!["com.a".to_string(), "com.b".to_string(), "com.c".to_string()]
    );
}
