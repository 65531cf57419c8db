use corepolicy_manager::features::tweaks::{
    format_cpu_list, governor_is_available, pick_best, TweakApplySummary, TweakCache, TweakProfile, WriteResult,
};

#[test]
fn test_cache_dirty_tracking_changed_entry() {
    let mut cache = TweakCache {
        schema_version: 1,
        updated_ms: 1,
        entries: vec![("cpuset_little".to_string(), "0-3".to_string())],
        dirty: false,
    };

    assert!(!cache.dirty);

    cache.insert("cpuset_little".to_string(), "0-2".to_string());
    assert!(cache.dirty);
}

#[test]
fn test_governor_validation_skips_unsupported_target() {
    assert!(!governor_is_available("schedutil powersave", "performance"));
}

#[test]
fn test_governor_validation_accepts_supported_target() {
    assert!(governor_is_available("schedutil performance powersave", "performance"));
}

#[test]
fn cache_insert_same_value_stays_clean() {
    let mut cache = TweakCache {
        schema_version: 1,
        updated_ms: 1,
        entries: vec![("cpuset_all".to_string(), "0-7".to_string())],
        dirty: false,
    };
    cache.insert("cpuset_all".to_string(), "0-7".to_string());
    assert!(!cache.dirty);
    cache.insert("cpuset_little".to_string(), "0-3".to_string());
    assert!(cache.dirty);
    assert_eq!(cache.get("cpuset_little").map(|s| s.as_str()), Some("0-3"));
    assert_eq!(cache.get("cpuset_all").map(|s| s.as_str()), Some("0-7"));
    assert!(cache.get("missing").is_none());
}

#[test]
fn cache_with_other_schema_is_discarded() {
    let cache = TweakCache {
        schema_version: 2,
        updated_ms: 5,
        entries: vec![("a".to_string(), "b".to_string())],
        dirty: true,
    }
    .validated();
    assert_eq!(cache.schema_version, 0);
    assert!(cache.entries.is_empty());
    assert!(!cache.dirty);
}

#[test]
fn summary_accounting_invariant() {
    let mut summary = TweakApplySummary::new("balance".to_string());
    summary.record_write_result(WriteResult::PathMissing);
    assert_eq!(summary.attempted_writes, 1);
    assert_eq!(summary.skipped_writes, 1);
    summary.record_write_result(WriteResult::Skipped);
    summary.record_write_result(WriteResult::Success);
    summary.record_write_result(WriteResult::Failed("permission denied".to_string()));
    summary.record_write_result(WriteResult::Failed("second".to_string()));
    summary.record_write_result(WriteResult::GovernorUnsupported);
    assert_eq!(summary.attempted_writes, 6);
    assert_eq!(summary.successful_writes, 1);
    assert_eq!(summary.skipped_writes, 3);
    assert_eq!(summary.failed_writes, 2);
    assert_eq!(summary.first_error.as_deref(), Some("permission denied"));
    assert_eq!(
        summary.attempted_writes,
        summary.successful_writes + summary.skipped_writes + summary.failed_writes
    );
}

#[test]
fn pick_best_prefers_earlier_entries() {
    let prio = ["schedutil", "simple_ondemand", "schedhorizon", "sugov_ext"];
    assert_eq!(pick_best("performance simple_ondemand schedutil", &prio), Some("schedutil"));
    assert_eq!(pick_best("performance\tsugov_ext\n", &prio), Some("sugov_ext"));
    assert_eq!(pick_best("performance powersave", &prio), None);
    assert!(!governor_is_available("", "performance"));
    assert!(!governor_is_available("performance", ""));
}

#[test]
fn cpu_list_and_profile_names() {
    assert_eq!(format_cpu_list(&[0, 1, 2, 3]), "0,1,2,3");
    assert_eq!(format_cpu_list(&[7]), "7");
    assert_eq!(format_cpu_list(&[]), "");
    assert_eq!(TweakProfile::Balance.name(), "balance");
    assert_eq!(TweakProfile::from_name("power"), Ok(TweakProfile::Power));
    assert_eq!(TweakProfile::from_name("turbo"), Err("invalid profile name"));
}

#[test]
fn test_cache_dirty_save_path_new_entry() {
    let mut cache = TweakCache {
        schema_version: 1,
        updated_ms: 1,
        entries: vec![("cpuset_little".to_string(), "0-3".to_string())],
        dirty: false,
    };

    // Saving: the file is written between these two steps.
    assert!(cache.prepare_save(2));
    cache.mark_saved();
    assert!(!cache.dirty);

    // What loading the saved file gives back.
    let mut reloaded = TweakCache {
        schema_version: cache.schema_version,
        updated_ms: cache.updated_ms,
        entries: cache.entries.clone(),
        dirty: false,
    }
    .validated();
    reloaded.insert("cpuset_all".to_string(), "0-7".to_string());
    assert!(reloaded.dirty);
}

#[test]
fn test_summary_accounting_invariant() {
    let mut summary = TweakApplySummary::new("balanced".to_string());

    // A write to a path that does not exist.
    summary.record_write_result(WriteResult::PathMissing);
    assert_eq!(summary.attempted_writes, 1);
    assert_eq!(summary.skipped_writes, 1);
    assert_eq!(summary.successful_writes, 0);
    assert_eq!(summary.failed_writes, 0);

    // A write of the value the file already holds.
    summary.record_write_result(WriteResult::Skipped);
    assert_eq!(summary.attempted_writes, 2);
    assert_eq!(summary.skipped_writes, 2);
    assert_eq!(summary.successful_writes, 0);
    assert_eq!(summary.failed_writes, 0);

    // A write of a new value.
    summary.record_write_result(WriteResult::Success);
    assert_eq!(summary.attempted_writes, 3);
    assert_eq!(summary.successful_writes, 1);
    assert_eq!(summary.skipped_writes, 2);
    assert_eq!(summary.failed_writes, 0);

    summary.record_write_result(WriteResult::Failed("permission denied".to_string()));
    assert_eq!(summary.attempted_writes, 4);
    assert_eq!(summary.successful_writes, 1);
    assert_eq!(summary.skipped_writes, 2);
    assert_eq!(summary.failed_writes, 1);
    assert!(summary.first_error.is_some());
    assert_eq!(
        summary.attempted_writes,
        summary.successful_writes + summary.skipped_writes + summary.failed_writes
    );
}
