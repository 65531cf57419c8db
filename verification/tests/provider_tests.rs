use corepolicy_manager::provider::{
    cgroup_v1_source_candidates, select_cgroup_v1_source, CgroupV1SourceCandidate, CgroupV1SourceName,
};

fn v1_paths(root: &str) -> (String, String, String) {
    (
        format!("{}/cpuset/top-app/cgroup.procs", root),
        format!("{}/cpuctl/top-app/cgroup.procs", root),
        format!("{}/stune/top-app/cgroup.procs", root),
    )
}

/// Selects among the candidates for `configured`, where `readable` lists
/// the process lists that can be read.
fn select(configured: &str, readable: &[&str]) -> CgroupV1SourceCandidate {
    let candidates = cgroup_v1_source_candidates(configured);
    let usable: Vec<bool> = candidates.iter().map(|c| readable.contains(&c.path.as_str())).collect();
    select_cgroup_v1_source(candidates, &usable)
}

#[test]
fn cgroup_v1_selector_prefers_cpuset_over_cpuctl_and_stune() {
    let (cpuset, cpuctl, stune) = v1_paths("/tmp/v1-cpuset");
    let selected = select(&cpuset, &[&cpuset, &cpuctl, &stune]);
    assert_eq!(selected.name, CgroupV1SourceName::Cpuset);
    assert_eq!(selected.path, cpuset);
}

#[test]
fn cgroup_v1_selector_falls_back_to_cpuctl_before_stune() {
    let (cpuset, cpuctl, stune) = v1_paths("/tmp/v1-cpuctl");
    let selected = select(&cpuset, &[&cpuctl, &stune]);
    assert_eq!(selected.name, CgroupV1SourceName::Cpuctl);
    assert_eq!(selected.path, cpuctl);
}

#[test]
fn cgroup_v1_selector_falls_back_to_stune_after_cpuctl() {
    let (cpuset, _cpuctl, stune) = v1_paths("/tmp/v1-stune");
    let selected = select(&cpuset, &[&stune]);
    assert_eq!(selected.name, CgroupV1SourceName::Stune);
    assert_eq!(selected.path, stune);
}

#[test]
fn cgroup_v1_selector_skips_unusable_cpuset() {
    // The cpuset entry is a directory, which cannot be read as a list.
    let (cpuset, cpuctl, _stune) = v1_paths("/tmp/v1-unusable-cpuset");
    let selected = select(&cpuset, &[&cpuctl]);
    assert_eq!(selected.name, CgroupV1SourceName::Cpuctl);
    assert_eq!(selected.path, cpuctl);
}

#[test]
fn cgroup_v1_selector_returns_cpuset_when_no_source_usable() {
    let (cpuset, _cpuctl, _stune) = v1_paths("/tmp/v1-none");
    let selected = select(&cpuset, &[]);
    assert_eq!(selected.name, CgroupV1SourceName::Cpuset);
    assert_eq!(selected.path, cpuset);
}

#[test]
fn cgroup_v1_selector_ignores_tasks_without_cgroup_procs() {
    let root = "/tmp/v1-tasks-ignored";
    let (cpuset, _cpuctl, _stune) = v1_paths(root);
    let cpuctl_tasks = format!("{}/cpuctl/top-app/tasks", root);
    let stune_tasks = format!("{}/stune/top-app/tasks", root);
    let selected = select(&cpuset, &[&cpuctl_tasks, &stune_tasks]);
    assert_eq!(selected.name, CgroupV1SourceName::Cpuset);
    assert_eq!(selected.path, cpuset);
}

#[test]
fn cgroup_v1_selector_keeps_custom_path_single_source() {
    let configured = "/tmp/v1-custom/custom.procs".to_string();
    assert_eq!(cgroup_v1_source_candidates(&configured).len(), 1);
    let selected = select(&configured, &[&configured]);
    assert_eq!(selected.name, CgroupV1SourceName::Cpuset);
    assert_eq!(selected.path, configured);
}

#[test]
fn cgroup_v1_candidates_follow_the_cgroup_root() {
    let c = cgroup_v1_source_candidates("/dev/cpuset/top-app/cgroup.procs");
    let paths: Vec<&str> = c.iter().map(|c| c.path.as_str()).collect();
    assert_eq!(
        paths,
        vec!["/dev/cpuset/top-app/cgroup.procs", "/dev/cpuctl/top-app/cgroup.procs", "/dev/stune/top-app/cgroup.procs"]
    );
    let c = cgroup_v1_source_candidates("cpuset/top-app/cgroup.procs");
    assert_eq!(c[1].path, "cpuctl/top-app/cgroup.procs");
    // A directory merely ending in "cpuset" is not the cpuset controller.
    assert_eq!(cgroup_v1_source_candidates("/dev/mycpuset/top-app/cgroup.procs").len(), 1);
    assert_eq!(cgroup_v1_source_candidates("/dev/cpuset/top-app/").len(), 1);
    assert_eq!(cgroup_v1_source_candidates("/dev/cpuset/foreground/cgroup.procs").len(), 1);
    assert_eq!(CgroupV1SourceName::Stune.as_str(), "stune");
}
