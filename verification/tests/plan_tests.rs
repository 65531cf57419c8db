use corepolicy_manager::api::config::{all_features, daemon_config_from_features, Feature};
use corepolicy_manager::daemon::runtime::DaemonConfig;
use corepolicy_manager::features::preload::RuntimeAbi;
use corepolicy_manager::features::tweak_plan::{
    balance_governor, block_scheduler, cpu_id_of_entry, cpuset_tweak_writes, devfreq_governor, is_little_core,
    is_virtual_block_device, kernel_tweak_writes, named_governor_for, profile_config, uclamp_tweak_writes,
};
use corepolicy_manager::features::tweaks::{TweakCache, TweakProfile};
use corepolicy_manager::runtime::indexer::{
    fits_budget, is_excluded_file, is_skipped_entry, order_candidates, package_name_from_dir, preload_priority,
    AppPathEntry, AppPathIndex,
};
use corepolicy_manager::runtime::logging::{goes_to_file, Level, LogDedup};

#[test]
fn feature_sets_make_configs() {
    assert_eq!(daemon_config_from_features(&all_features()), DaemonConfig::default());
    let c = daemon_config_from_features(&vec![Feature::Preload, Feature::Profile]);
    assert!(c.preload && c.profile && !c.usage && !c.pressure && !c.app_index);
    assert_eq!(all_features().len(), 5);
}

#[test]
fn profile_configs_and_kernel_writes() {
    let c = profile_config(TweakProfile::Power);
    assert_eq!(c.swappiness, 60);
    assert_eq!(c.thp_enabled, "never");
    let w = kernel_tweak_writes(&c, &vec!["policy0".to_string(), "boost".to_string(), "policy4".to_string()]);
    assert_eq!(w.len(), 14 + 6 + 1);
    assert_eq!(w[0].path, "/proc/sys/kernel/sched_migration_cost_ns");
    assert_eq!(w[0].value, "10000000");
    assert_eq!(w[14].path, "/sys/devices/system/cpu/cpufreq/policy0/schedutil/up_rate_limit_us");
    assert_eq!(w[14].value, "2000");
    assert_eq!(w[16].path, "/sys/devices/system/cpu/cpufreq/policy0/schedutil/iowait_boost_enable");
    assert_eq!(w[16].value, "0");
    assert_eq!(w[17].path, "/sys/devices/system/cpu/cpufreq/policy4/schedutil/up_rate_limit_us");
    assert_eq!(w[20].path, "/sys/block/zram0/max_comp_streams");
    let b = kernel_tweak_writes(&profile_config(TweakProfile::Balance), &vec!["policy0".to_string()]);
    assert_eq!(b[16].value, "1");
    let u = uclamp_tweak_writes(&profile_config(TweakProfile::Performance));
    assert_eq!(u.len(), 8);
    assert_eq!(u[6].value, "60");
}

#[test]
fn cpuset_writes_follow_the_cache() {
    let mut cache = TweakCache::new();
    let w = cpuset_tweak_writes(&cache);
    assert_eq!(w.len(), 9);
    assert!(w.iter().all(|x| x.is_none()));
    cache.insert("cpuset_little".to_string(), "0,1".to_string());
    let w = cpuset_tweak_writes(&cache);
    assert_eq!(w[0].as_ref().unwrap().value, "0,1");
    assert_eq!(w[2].as_ref().unwrap().path, "/dev/cpuset/background/sched_load_balance");
    assert!(w[4].is_none());
}

#[test]
fn governor_and_scheduler_choices() {
    assert_eq!(devfreq_governor(TweakProfile::Performance), "performance");
    assert_eq!(devfreq_governor(TweakProfile::Balance), "powersave");
    assert_eq!(named_governor_for(TweakProfile::Power, "powersave performance"), None);
    assert_eq!(named_governor_for(TweakProfile::Performance, "powersave performance"), Some("performance".to_string()));

    let mut cache = TweakCache::new();
    assert_eq!(balance_governor(&mut cache, "policy0", Some("performance sugov_ext schedutil")), Some("schedutil".to_string()));
    assert!(cache.dirty);
    assert_eq!(cache.get("policy0_governor").map(|s| s.as_str()), Some("schedutil"));
    assert_eq!(balance_governor(&mut cache, "policy0", None), Some("schedutil".to_string()));
    assert_eq!(balance_governor(&mut cache, "policy1", Some("performance")), None);
    assert_eq!(block_scheduler(&mut cache, "sda", Some("none [mq-deadline] kyber")), Some("kyber".to_string()));
    assert!(is_virtual_block_device("zram0"));
    assert!(is_virtual_block_device("loop3"));
    assert!(!is_virtual_block_device("sda"));
}

#[test]
fn cpu_topology_rules() {
    assert_eq!(cpu_id_of_entry("cpu7"), Some(7));
    assert_eq!(cpu_id_of_entry("cpufreq"), None);
    assert_eq!(cpu_id_of_entry("cpu"), None);
    assert_eq!(cpu_id_of_entry("cpu99999999999"), None);
    assert!(is_little_core(300));
    assert!(!is_little_core(0));
    assert!(!is_little_core(512));
}

#[test]
fn log_dedup_rules() {
    let mut d = LogDedup::new();
    assert!(d.should_log(Level::Info, false, "k", 1000, 30_000));
    assert!(!d.should_log(Level::Info, false, "k", 2000, 30_000));
    assert!(d.should_log(Level::Info, false, "k", 31_000, 30_000));
    assert!(!d.should_log(Level::Debug, false, "other", 40_000, 0));
    assert!(d.should_log(Level::Debug, true, "other", 40_000, 0));
    assert_eq!(Level::Warn.as_str(), "WARN");
    assert!(goes_to_file(Level::Error));
    assert!(!goes_to_file(Level::Debug));
}

#[test]
fn indexer_rules() {
    assert_eq!(package_name_from_dir("com.termux-hashvalue"), Some("com.termux".to_string()));
    assert_eq!(package_name_from_dir("com.a-b-c"), Some("com.a-b".to_string()));
    assert_eq!(package_name_from_dir("nodot-x"), None);
    assert_eq!(package_name_from_dir("-x"), None);
    assert_eq!(package_name_from_dir("com.termux"), None);
    assert!(is_skipped_entry("code_cache"));
    assert!(!is_skipped_entry("lib"));
    assert!(is_excluded_file("base.apk"));
    assert!(is_excluded_file("base.dm"));
    assert!(!is_excluded_file("base.vdex"));
    assert_eq!(preload_priority("base.vdex", "/x/oat/arm64/base.vdex", RuntimeAbi::Arm64), Some(1));
    assert_eq!(preload_priority("libt.so", "/x/lib/arm64/libt.so", RuntimeAbi::Arm64), Some(2));
    assert_eq!(preload_priority("base.odex", "/x/oat/arm/base.odex", RuntimeAbi::Arm64), Some(3));
    assert_eq!(preload_priority("libt.so", "/x/lib/arm/libt.so", RuntimeAbi::Arm32), Some(2));
    assert_eq!(preload_priority("libt.so", "/x/lib/arm64/libt.so", RuntimeAbi::Arm32), None);
    assert!(fits_budget(0, 256 * 1024 * 1024));
    assert!(!fits_budget(1, 256 * 1024 * 1024));
    let ordered = order_candidates(&vec![
        ("lib".to_string(), 2),
        ("vdex".to_string(), 1),
        ("lib2".to_string(), 2),
        ("arm".to_string(), 4),
    ]);
    assert_eq!(ordered, vec!["vdex".to_string(), "lib".to_string(), "lib2".to_string(), "arm".to_string()]);
    let mut idx = AppPathIndex::new();
    idx.record_rebuild(vec![("com.a".to_string(), AppPathEntry { candidates: vec!["p".to_string()] })], 5, 2);
    assert_eq!(idx.candidates_for("com.a"), vec!["p".to_string()]);
    assert!(idx.candidates_for("com.b").is_empty());
    assert_eq!(idx.last_rebuild_ms, 5);
}
