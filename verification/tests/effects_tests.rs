use corepolicy_manager::runtime::effects::warmup_task_paths;
use corepolicy_manager::machine::types::{Event, Handle, IoStream};
use corepolicy_manager::runtime::effects::{io_round_outcome, EffectExecutor, ReadyEvent};

fn io(index: u32) -> Handle<corepolicy_manager::machine::types::IoTag> {
    Handle::new(index, 1)
}

fn ready(token: u64) -> ReadyEvent {
    ReadyEvent { token, readable: true, writable: false, error: false }
}

#[test]
fn reactor_events_follow_the_routes() {
    let mut x = EffectExecutor::new();
    x.watch_stream(io(0), IoStream::Stdout, 3);
    x.watch_stream(io(0), IoStream::Stderr, 1);
    assert_eq!(x.fd_map.len(), 4);
    let events = x.process_reactor_events(&vec![ready(3), ready(2), ready(9), ready(1)]);
    assert_eq!(events.len(), 2);
    assert!(matches!(events[0], Event::IoReady { stream: IoStream::Stdout, readable: true, .. }));
    assert!(matches!(events[1], Event::IoReady { stream: IoStream::Stderr, .. }));

    x.unwatch_stream(io(0), IoStream::Stdout);
    assert!(x.fd_map[3].is_none());
    assert!(x.fd_map[1].is_some());
    // Another drain's stream of the same kind is not touched.
    x.watch_stream(io(5), IoStream::Stderr, 2);
    x.unwatch_stream(io(0), IoStream::Stderr);
    assert!(x.fd_map[1].is_none());
    assert!(x.fd_map[2].is_some());
    assert_eq!(x.process_reactor_events(&vec![ready(3), ready(2)]).len(), 1);
}

#[test]
fn io_rounds_come_to_one_event() {
    let h = io(4);
    assert!(io_round_outcome(h, None, None, None).is_none());
    assert!(io_round_outcome(h, Some(Ok(true)), Some(Ok(true)), None).is_none());
    assert!(matches!(io_round_outcome(h, Some(Ok(false)), None, None), Some(Event::IoClosed { .. })));
    match io_round_outcome(h, Some(Err("EIO".to_string())), None, Some(Err("EPIPE".to_string()))) {
        Some(Event::IoFailed { reason, .. }) => assert_eq!(reason, "stdin write: EPIPE"),
        _ => panic!("expected a failure"),
    }
    match io_round_outcome(h, Some(Err("EIO".to_string())), Some(Ok(true)), None) {
        Some(Event::IoFailed { reason, .. }) => assert_eq!(reason, "stdout read: EIO"),
        _ => panic!("expected a failure"),
    }
}

#[test]
fn warmup_payloads_are_decoded_or_refused_with_their_reason() {
    assert_eq!(warmup_task_paths(&vec![]), Err("empty payload".to_string()));
    assert_eq!(warmup_task_paths(&vec![2, b'[', b']']), Err("unknown task type".to_string()));
    let mut ok = vec![1u8];
    ok.extend_from_slice(br#"["/a/base.apk","/a/lib.so"]"#);
    assert_eq!(warmup_task_paths(&ok), Ok(vec!["/a/base.apk".to_string(), "/a/lib.so".to_string()]));
    let mut bad = vec![1u8];
    bad.extend_from_slice(b"{not json");
    assert_eq!(warmup_task_paths(&bad), Err("failed to decode paths".to_string()));
}
