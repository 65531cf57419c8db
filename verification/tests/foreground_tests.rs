use corepolicy_manager::runtime::foreground::blacklist_of;
use corepolicy_manager::runtime::foreground::{CandidateResult, ForegroundResolver, PidProbe};

fn probe(uid: Option<u32>, cmdline: Option<&str>) -> PidProbe {
    PidProbe { uid, cmdline: cmdline.map(|c| c.to_string()) }
}

fn resolver() -> ForegroundResolver {
    ForegroundResolver::new(vec!["com.android.systemui".to_string()])
}

#[test]
fn resolver_accepts_first_app_process() {
    let mut r = resolver();
    let content = "12abc  x 345\n678";
    assert_eq!(ForegroundResolver::top_app_pids(content), vec![345, 678]);
    let probes = vec![probe(Some(1000), Some("system_server")), probe(Some(10123), Some("com.example.game:render"))];
    let (snap, _) = r.scan_pids(content, &probes);
    let snap = snap.expect("an app is in front");
    assert_eq!(snap.pid, Some(678));
    assert_eq!(snap.package.as_deref(), Some("com.example.game"));
    assert_eq!(snap.last_skip_reason, None);

    // The same app again is not reported twice.
    let (again, _) = r.scan_pids(content, &probes);
    assert!(again.is_none());
}

#[test]
fn resolver_reports_when_no_app_qualifies() {
    let mut r = resolver();
    let content = "1 2 3 4 5";
    let probes = vec![
        probe(None, None),
        probe(Some(0), Some("init")),
        probe(Some(10001), Some("com.android.systemui")),
        probe(Some(10002), Some("")),
        probe(Some(10003), Some("nodots")),
    ];
    let (snap, summary) = r.scan_pids(content, &probes);
    let snap = snap.expect("a skip is reported");
    assert_eq!(snap.pid, None);
    assert_eq!(snap.last_skip_reason.as_deref(), Some("no_app_candidate"));
    assert_eq!(summary.total, 5);
    assert_eq!(summary.proc_stat_failed, 1);
    assert_eq!(summary.system_uid, 1);
    assert_eq!(summary.blacklisted, 1);
    assert_eq!(summary.cmdline_failed, 1);
    assert_eq!(summary.malformed, 1);
    assert!(r.last_accepted_pid.is_none());

    // An empty list reports nothing.
    let (none, summary) = r.scan_pids("  ", &vec![]);
    assert!(none.is_none());
    assert_eq!(summary.total, 0);
}

#[test]
fn package_names_are_checked() {
    let r = resolver();
    assert!(r.is_package_like("com.foo"));
    assert!(!r.is_package_like("a.b"));
    assert!(!r.is_package_like("com foo.bar"));
    assert!(!r.is_package_like("comfoobar"));
    assert!(!r.is_package_like(&format!("com.{}", "x".repeat(124))));
    assert!(r.is_package_like(&format!("com.{}", "x".repeat(123))));
    assert!(r.is_blacklisted("com.android.systemui.plugin"));
    assert!(!r.is_blacklisted("com.android.settings"));
    assert!(matches!(
        r.classify_pid(7, &probe(Some(10050), Some("com.foo.bar:svc --flag"))),
        CandidateResult::Accept { pid: 7, ref package } if package == "com.foo.bar"
    ));
    assert!(matches!(r.classify_pid(7, &probe(Some(10050), None)), CandidateResult::SkipCmdlineFailed));
}

#[test]
fn blacklist_file_contents_give_the_packages_kept_out() {
    let default = vec!["com.android.systemui".to_string()];
    assert_eq!(blacklist_of(None), default);
    assert_eq!(blacklist_of(Some("not json")), default);
    assert_eq!(blacklist_of(Some(r#"{"other": 1}"#)), Vec::<String>::new());
    assert_eq!(blacklist_of(Some(r#"{"packages": ["com.a", 3, "com.b"]}"#)), vec!["com.a".to_string(), "com.b".to_string()]);
}
