use corepolicy_manager::low_level::inotify::{decode_events, InotifyEvent};
use corepolicy_manager::low_level::sys::{parse_proc_status, ProcStatusError};

#[test]
fn test_decode_inotify_events() {
    let mut buf = Vec::new();

    buf.extend_from_slice(&1i32.to_ne_bytes());
    buf.extend_from_slice(&2u32.to_ne_bytes());
    buf.extend_from_slice(&0u32.to_ne_bytes());
    buf.extend_from_slice(&0u32.to_ne_bytes());

    buf.extend_from_slice(&2i32.to_ne_bytes());
    buf.extend_from_slice(&4u32.to_ne_bytes());
    buf.extend_from_slice(&0u32.to_ne_bytes());
    buf.extend_from_slice(&8u32.to_ne_bytes());
    buf.extend_from_slice(&[0u8; 8]);

    let events = decode_events(&buf);
    assert_eq!(events.len(), 2);
    assert_eq!(events[0], InotifyEvent { wd: 1, mask: 2, name_len: 0 });
    assert_eq!(events[1], InotifyEvent { wd: 2, mask: 4, name_len: 8 });
}

#[test]
fn decode_drops_partial_records() {
    let mut buf = Vec::new();
    buf.extend_from_slice(&(-1i32).to_ne_bytes());
    buf.extend_from_slice(&0x4000u32.to_ne_bytes());
    buf.extend_from_slice(&0u32.to_ne_bytes());
    buf.extend_from_slice(&0u32.to_ne_bytes());
    buf.extend_from_slice(&[1u8, 2, 3]);
    let events = decode_events(&buf);
    assert_eq!(events, vec![InotifyEvent { wd: -1, mask: 0x4000, name_len: 0 }]);

    let mut long = Vec::new();
    long.extend_from_slice(&3i32.to_ne_bytes());
    long.extend_from_slice(&2u32.to_ne_bytes());
    long.extend_from_slice(&0u32.to_ne_bytes());
    long.extend_from_slice(&100u32.to_ne_bytes());
    assert!(decode_events(&long).is_empty());
    assert!(decode_events(&[]).is_empty());
}

#[test]
fn test_parse_proc_status() {
    let content = "Name:\tcore_daemon\nState:\tR (running)\nUid:\t1000\t1000\t1000\t1000\nGid:\t1000\t1000\t1000\t1000\n";
    let status = parse_proc_status(content).unwrap();
    assert_eq!(status.name, "core_daemon");
    assert_eq!(status.uid, 1000);
}

#[test]
fn parse_proc_status_needs_name_and_uid() {
    assert_eq!(parse_proc_status("Name:\tx\n").err(), Some(ProcStatusError::Malformed));
    assert_eq!(parse_proc_status("Uid:\tabc\nName:\tx\n").err(), Some(ProcStatusError::Malformed));
}
