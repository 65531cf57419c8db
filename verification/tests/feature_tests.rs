use corepolicy_manager::features::categories::CategoryDatabase;
use corepolicy_manager::features::preload::{preload_result, PreloadFeature, PreloadStatusFile};
use corepolicy_manager::features::profile::{ProfileClass, ProfileFeature};
use corepolicy_manager::runtime::status::{elapsed_secs, public_app_index, public_top_apps, PreloadResult};

#[test]
fn test_cooldown_skip_updates_status() {
    let mut preload = PreloadFeature::new();
    let mut status = PreloadStatusFile::new();
    preload.cooldowns.push(("com.example.app".to_string(), 1_000));

    let left = preload.on_foreground_package(1_000, "com.example.app", &mut status);

    assert_eq!(left, Some(300));
    assert_eq!(status.last_package.as_deref(), Some("com.example.app"));
    assert_eq!(status.result, Some(PreloadResult::Cooldown));
}

#[test]
fn test_cached_candidates_no_scan_no_candidates() {
    let mut preload = PreloadFeature::new();
    let mut status = PreloadStatusFile::new();

    assert_eq!(preload.on_foreground_package(5, "com.example.app", &mut status), None);
    preload.record_no_candidates(5, "com.example.app", 0, &mut status);

    assert_eq!(status.result, Some(PreloadResult::NoCandidates));
    assert_eq!(status.discovery_ms, 0);
    assert_eq!(preload.on_foreground_package(6, "com.example.app", &mut status), Some(299));
}

#[test]
fn preload_feature_records_warmups_and_sweeps_cooldowns() {
    let mut preload = PreloadFeature::new();
    let mut status = PreloadStatusFile::new();
    preload.record_warmup(0, "a", 2, 1, 4096, 7, 9, &mut status);
    assert_eq!(status.result, Some(PreloadResult::Partial));
    assert_eq!(status.file_count, 2);
    assert_eq!(status.bytes, 4096);
    assert_eq!(status.total_ms, 9);
    assert_eq!(preload.on_foreground_package(300_000, "a", &mut status), None);
    assert_eq!(preload.cooldowns.len(), 1);
    assert_eq!(preload.on_foreground_package(600_000, "b", &mut status), None);
    assert!(preload.cooldowns.is_empty());
    assert_eq!(preload_result(0, 3), PreloadResult::Failed);
    assert_eq!(preload_result(3, 0), PreloadResult::Success);
}

#[test]
fn category_add_classifies_and_moves_packages() {
    let mut db = CategoryDatabase::default();
    assert!(db.add("game", "com.example.game"));
    assert_eq!(db.classify("com.example.game"), ProfileClass::Game);
    assert!(db.add("social", "com.example.game"));
    assert_eq!(db.classify("com.example.game"), ProfileClass::Social);
    assert!(db.categories.iter().find(|(c, _)| c == "game").unwrap().1.is_empty());
    assert!(!db.add("weird", "x"));
    assert!(!CategoryDatabase::is_supported_category("weird"));
    assert!(CategoryDatabase::is_supported_category("keyboard"));
    db.remove("com.example.game");
    assert_eq!(db.classify("com.example.game"), ProfileClass::Unknown);
}

#[test]
fn category_lists_stay_sorted_and_unique() {
    let mut db = CategoryDatabase::default();
    assert!(db.add("tool", "b"));
    assert!(db.add("tool", "a"));
    assert!(db.add("tool", "c"));
    assert!(db.add("tool", "a"));
    let tools = &db.categories.iter().find(|(c, _)| c == "tool").unwrap().1;
    assert_eq!(tools, &vec!["a".to_string(), "b".to_string(), "c".to_string()]);
    db.categories.retain(|(c, _)| c != "launcher");
    assert!(db.add("launcher", "l"));
    assert_eq!(db.categories.last().unwrap().0, "launcher");
}

#[test]
fn profile_feature_tracks_sessions() {
    let mut p = ProfileFeature::new();
    p.on_foreground_changed(None, Some("a"), None, 0);
    assert_eq!(p.foreground_switch_count, 0);
    p.on_foreground_changed(Some("a"), Some("b"), Some(0), 5_500);
    assert_eq!(p.foreground_switch_count, 1);
    assert_eq!(p.top_apps, vec![("a".to_string(), 5)]);
    p.on_foreground_changed(Some("b"), Some("b"), Some(0), 99_000);
    assert_eq!(p.foreground_switch_count, 1);
    p.on_foreground_changed(Some("b"), Some("a"), Some(5_500), 20_000);
    p.on_foreground_changed(Some("a"), None, Some(20_000), 21_999);
    assert_eq!(p.foreground_switch_count, 2);
    assert_eq!(p.top_apps, vec![("a".to_string(), 6), ("b".to_string(), 14)]);
    assert_eq!(p.snapshot_top_apps(), vec![("b".to_string(), 14), ("a".to_string(), 6)]);
}

#[test]
fn profile_feature_forgets_least_used_app_past_limit() {
    let mut p = ProfileFeature::new();
    for i in 0..64u64 {
        p.top_apps.push((format!("app{}", i), 100 + i));
    }
    p.top_apps[10].1 = 1;
    p.on_foreground_changed(Some("new"), None, Some(0), 50_000);
    assert_eq!(p.top_apps.len(), 64);
    assert!(!p.top_apps.iter().any(|(k, _)| k == "app10"));
    assert!(p.top_apps.iter().any(|(k, v)| k == "new" && *v == 50));
}

#[test]
fn public_status_parts() {
    let mut p = ProfileFeature::new();
    p.top_apps = vec![("a".to_string(), 10), ("b".to_string(), 30), ("c".to_string(), 20), ("d".to_string(), 5)];
    let top = public_top_apps(&p, Some("d"), 0, 40_000);
    let shown: Vec<(String, u64)> = top.iter().map(|s| (s.package.clone(), s.total_secs)).collect();
    assert_eq!(shown, vec![("d".to_string(), 45), ("b".to_string(), 30), ("c".to_string(), 20)]);
    let top = public_top_apps(&p, None, 0, 40_000);
    assert_eq!(top.len(), 3);
    assert_eq!(top[0].package, "b");
    assert_eq!(elapsed_secs(1_000, 3_999), 2);
    assert_eq!(elapsed_secs(5_000, 1_000), 0);
    assert!(public_app_index(false, 1, 7).ready);
    assert!(!public_app_index(true, 1, 7).ready);
    assert!(!public_app_index(false, 0, 7).ready);
}
