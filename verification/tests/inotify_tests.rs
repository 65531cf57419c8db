use corepolicy_manager::runtime::inotify::{
    parse_top_app_pid, BatchStep, InotifyEvent, InotifySource, InotifyStep, PreloadInotify, PreloadInotifyEvent,
    DELETE_SELF_MASK, IGNORED_MASK, MODIFY_MASK, PACKAGES_LIST_PATH, PACKAGES_XML_PATH, QUEUE_OVERFLOW_MASK,
    UNMOUNT_MASK,
};

fn watcher() -> PreloadInotify {
    PreloadInotify::new(3, 10, 11, 12)
}

fn done(step: InotifyStep) -> (Vec<PreloadInotifyEvent>, bool) {
    match step {
        InotifyStep::Done { events, cgroup_modified } => (events, cgroup_modified),
        InotifyStep::Rewatch { .. } => panic!("expected a finished record"),
    }
}

#[test]
fn top_app_pid_is_first_number_when_positive() {
    assert_eq!(parse_top_app_pid("1234\n5678\n"), Some(1234));
    assert_eq!(parse_top_app_pid("  x 42 7"), Some(42));
    assert_eq!(parse_top_app_pid("+17"), Some(17));
    assert_eq!(parse_top_app_pid("-5 7"), None);
    assert_eq!(parse_top_app_pid("0"), None);
    assert_eq!(parse_top_app_pid(""), None);
    assert_eq!(parse_top_app_pid("99999999999 3"), Some(3));
    assert_eq!(parse_top_app_pid("2147483647"), Some(2147483647));
}

#[test]
fn source_names() {
    assert_eq!(InotifySource::Cgroup.as_str(), "cgroup");
    assert_eq!(InotifySource::PackagesXml.as_str(), "packages_xml");
    assert_eq!(InotifySource::PackagesList.as_str(), "packages_list");
    assert_eq!(InotifySource::Unknown.as_str(), "unknown");
}

#[test]
fn package_file_changes_mark_packages_stale() {
    let mut w = watcher();
    let (events, cg) = done(w.handle_decoded_event(&InotifyEvent { wd: 11, mask: MODIFY_MASK, name_len: 0 }));
    assert!(!cg);
    assert_eq!(events, vec![PreloadInotifyEvent::PackagesChanged { path: PACKAGES_XML_PATH }]);
    assert!(w.packages_dirty());
    let (events, _) =
        done(w.handle_decoded_event(&InotifyEvent { wd: 12, mask: DELETE_SELF_MASK, name_len: 0 }));
    assert_eq!(
        events,
        vec![
            PreloadInotifyEvent::Exceptional {
                source: InotifySource::PackagesList,
                description: "watch_target_replaced",
                mask: DELETE_SELF_MASK
            },
            PreloadInotifyEvent::PackagesChanged { path: PACKAGES_LIST_PATH },
        ]
    );
    let status = w.status();
    assert_eq!(status.events_seen, 2);
    assert_eq!(status.last_source.as_deref(), Some("packages_list"));
    assert_eq!(status.last_exception.as_deref(), Some("watch_target_replaced"));
    assert!(status.fd_active);
    assert_eq!(status.wd_cgroup, Some(10));
}

#[test]
fn cgroup_change_reports_new_foreground_once() {
    let mut w = watcher();
    let (events, cg) = done(w.handle_decoded_event(&InotifyEvent { wd: 10, mask: MODIFY_MASK, name_len: 0 }));
    assert!(cg);
    assert!(events.is_empty());
    assert_eq!(
        w.foreground_from_cgroup("321\n"),
        Some(PreloadInotifyEvent::ForegroundChanged { old_pid: None, new_pid: 321 })
    );
    assert_eq!(w.foreground_from_cgroup("321\n"), None);
    assert_eq!(
        w.foreground_from_cgroup("322\n"),
        Some(PreloadInotifyEvent::ForegroundChanged { old_pid: Some(321), new_pid: 322 })
    );
}

#[test]
fn exceptional_records() {
    let mut w = watcher();
    let (events, _) =
        done(w.handle_decoded_event(&InotifyEvent { wd: -1, mask: QUEUE_OVERFLOW_MASK, name_len: 0 }));
    assert_eq!(
        events,
        vec![PreloadInotifyEvent::Exceptional {
            source: InotifySource::Unknown,
            description: "queue_overflow",
            mask: QUEUE_OVERFLOW_MASK
        }]
    );
    assert!(w.packages_dirty());

    let mut w = watcher();
    let (events, _) = done(w.handle_decoded_event(&InotifyEvent { wd: 10, mask: UNMOUNT_MASK, name_len: 0 }));
    assert_eq!(events.len(), 1);
    assert!(!w.packages_dirty());

    match w.handle_decoded_event(&InotifyEvent { wd: 11, mask: IGNORED_MASK, name_len: 0 }) {
        InotifyStep::Rewatch { source, mask } => {
            assert_eq!(source, InotifySource::PackagesXml);
            let e = w.rewatched(source, mask, Some(20));
            assert_eq!(
                e,
                PreloadInotifyEvent::Exceptional { source, description: "ignored_reregistered", mask: IGNORED_MASK }
            );
            assert_eq!(w.wd_pkg_xml, 20);
        }
        _ => panic!("expected a rewatch"),
    }
    let e = w.rewatched(InotifySource::Cgroup, IGNORED_MASK, None);
    assert_eq!(
        e,
        PreloadInotifyEvent::Exceptional { source: InotifySource::Cgroup, description: "ignored", mask: IGNORED_MASK }
    );
    let (events, _) = done(w.handle_decoded_event(&InotifyEvent { wd: 99, mask: IGNORED_MASK, name_len: 0 }));
    assert_eq!(events.len(), 1);
}

#[test]
fn a_batch_stops_at_a_dropped_watch_and_resumes_after_it() {
    let mut w = watcher();
    let raw = vec![
        InotifyEvent { wd: 11, mask: MODIFY_MASK, name_len: 0 },
        InotifyEvent { wd: 10, mask: IGNORED_MASK, name_len: 0 },
        InotifyEvent { wd: 10, mask: MODIFY_MASK, name_len: 0 },
    ];
    let mut out = Vec::new();
    let step = w.handle_decoded_events(&raw, 0, false, &mut out);
    let (index, cgroup) = match step {
        BatchStep::Rewatch { index, source, mask, cgroup_modified } => {
            assert_eq!(source, InotifySource::Cgroup);
            assert_eq!(mask, IGNORED_MASK);
            (index, cgroup_modified)
        }
        BatchStep::Finished { .. } => panic!("expected a rewatch"),
    };
    assert_eq!(index, 1);
    assert!(!cgroup);
    assert_eq!(out.len(), 1);
    assert!(matches!(out[0], PreloadInotifyEvent::PackagesChanged { path } if path == PACKAGES_XML_PATH));
    assert_eq!(w.events_seen, 2);
    out.push(w.rewatched(InotifySource::Cgroup, IGNORED_MASK, Some(20)));
    assert_eq!(w.wd_cgroup, 20);
    let step = w.handle_decoded_events(&raw, index + 1, cgroup, &mut out);
    // the cgroup watch moved to a new descriptor, so the old one is unknown now
    assert!(matches!(step, BatchStep::Finished { cgroup_modified: false }));
    assert_eq!(w.events_seen, 3);
    assert_eq!(out.len(), 2);
}

#[test]
fn a_batch_reports_each_record_in_order() {
    let mut w = watcher();
    let raw = vec![
        InotifyEvent { wd: 12, mask: MODIFY_MASK, name_len: 0 },
        InotifyEvent { wd: 99, mask: QUEUE_OVERFLOW_MASK, name_len: 0 },
        InotifyEvent { wd: 11, mask: DELETE_SELF_MASK, name_len: 0 },
        InotifyEvent { wd: 10, mask: MODIFY_MASK, name_len: 0 },
    ];
    let mut out = Vec::new();
    let step = w.handle_decoded_events(&raw, 0, false, &mut out);
    assert!(matches!(step, BatchStep::Finished { cgroup_modified: true }));
    assert_eq!(out.len(), 4);
    assert!(matches!(out[0], PreloadInotifyEvent::PackagesChanged { path } if path == PACKAGES_LIST_PATH));
    assert!(matches!(out[1], PreloadInotifyEvent::Exceptional { description: "queue_overflow", .. }));
    assert!(matches!(out[2], PreloadInotifyEvent::Exceptional { description: "watch_target_replaced", .. }));
    assert!(matches!(out[3], PreloadInotifyEvent::PackagesChanged { path } if path == PACKAGES_XML_PATH));
    let fg = w.foreground_from_cgroup("4321\n");
    assert!(matches!(fg, Some(PreloadInotifyEvent::ForegroundChanged { old_pid: None, new_pid: 4321 })));
}
