use corepolicy_manager::high_level::api::Command;
use corepolicy_manager::machine::types::{Action, ExecError, ExecOutcome, ExecResult};
use corepolicy_manager::mid_level::ipc::{
    decode_request, Conn, EventPlan, Frame, IpcModule, ReadState, Token, WireRequest, MAX_PACKET_SIZE,
    MAX_WRITE_BUF,
};

fn framed(body: &[u8]) -> Vec<u8> {
    let mut v = (body.len() as u32).to_le_bytes().to_vec();
    v.extend_from_slice(body);
    v
}

fn module_with_client() -> (IpcModule, u32) {
    let mut ipc = IpcModule::new(Token(1));
    let id = ipc.register_client(Token(2), 1000);
    (ipc, id)
}

#[test]
fn ipc_preload_status_response_encodes_and_decodes() {
    let (mut ipc, client_id) = module_with_client();
    assert_eq!(client_id, 1);
    assert_eq!(ipc.clients.get(&client_id).unwrap().state, ReadState::Header { needed: 4 });

    let status_json = r#"{"enabled":true,"mode":"preload"}"#.to_string();
    ipc.send_preload_status(client_id, status_json.clone());

    let conn = ipc.clients.get(&client_id).expect("client must remain");
    let frame = &conn.write_buf;
    assert!(frame.len() >= 5);
    let body_len = u32::from_le_bytes([frame[0], frame[1], frame[2], frame[3]]) as usize;
    assert_eq!(body_len, 1 + status_json.len());
    assert_eq!(frame[4], 5u8);
    let decoded = std::str::from_utf8(&frame[5..]).expect("valid utf8");
    assert_eq!(decoded, status_json);
}

#[test]
fn ipc_reads_requests_split_across_reads() {
    let (mut ipc, id) = module_with_client();
    let mut body = vec![2u8];
    body.extend_from_slice(&77u64.to_le_bytes());
    let bytes = framed(&body);
    assert!(ipc.receive(id, &bytes[..3]));
    assert!(matches!(ipc.next_request(id), Some(Frame::Incomplete)));
    assert!(ipc.receive(id, &bytes[3..6]));
    assert!(matches!(ipc.next_request(id), Some(Frame::Incomplete)));
    assert_eq!(ipc.clients.get(&id).unwrap().state, ReadState::Body { len: 9 });
    assert!(ipc.receive(id, &bytes[6..]));
    match ipc.next_request(id) {
        Some(Frame::Request(WireRequest::GetResult(77))) => {}
        _ => panic!("expected a result query"),
    }
    assert!(ipc.clients.get(&id).unwrap().read_buf.is_empty());
    assert_eq!(ipc.clients.get(&id).unwrap().state, ReadState::Header { needed: 4 });
}

#[test]
fn ipc_rejects_bad_lengths_and_kinds() {
    let (mut ipc, id) = module_with_client();
    assert!(ipc.receive(id, &0u32.to_le_bytes()));
    assert!(matches!(ipc.next_request(id), Some(Frame::Invalid)));

    let (mut ipc, id) = module_with_client();
    assert!(ipc.receive(id, &((MAX_PACKET_SIZE as u32) + 1).to_le_bytes()));
    assert!(matches!(ipc.next_request(id), Some(Frame::Invalid)));

    let (mut ipc, id) = module_with_client();
    assert!(ipc.receive(id, &framed(&[9u8, 1, 2])));
    assert!(matches!(ipc.next_request(id), Some(Frame::Invalid)));

    assert!(ipc.next_request(42).is_none());
}

#[test]
fn ipc_decodes_each_request_kind() {
    match decode_request(&vec![1u8, b'{', b'}']) {
        Some(WireRequest::Json(b)) => assert_eq!(b, b"{}".to_vec()),
        _ => panic!("expected json"),
    }
    let mut cancel = vec![3u8];
    cancel.extend_from_slice(&5u64.to_le_bytes());
    assert!(matches!(decode_request(&cancel), Some(WireRequest::Cancel(5))));
    assert!(decode_request(&vec![2u8, 1]).is_none());
    assert!(decode_request(&vec![]).is_none());
}

#[test]
fn ipc_message_carries_client_and_uid() {
    let (ipc, id) = module_with_client();
    let m = ipc.message_for(id, WireRequest::Cancel(9), None).unwrap();
    assert_eq!(m.client_id, id);
    assert_eq!(m.uid, 1000);
    assert!(matches!(m.command, Command::Cancel { id: 9 }));
    assert!(ipc.message_for(id, WireRequest::Json(vec![]), None).is_none());
    let m = ipc.message_for(id, WireRequest::Json(vec![]), Some(Command::PreloadStatus)).unwrap();
    assert!(matches!(m.command, Command::PreloadStatus));
}

#[test]
fn ipc_read_buffer_limit() {
    let (mut ipc, id) = module_with_client();
    let chunk = vec![0u8; 200 * 1024];
    assert!(ipc.receive(id, &chunk));
    assert!(!ipc.receive(id, &chunk));
}

#[test]
fn ipc_plans_events() {
    let (ipc, id) = module_with_client();
    assert_eq!(ipc.plan_event(Token(1), true, false), EventPlan::AcceptClients);
    assert_eq!(ipc.plan_event(Token(2), true, false), EventPlan::Serve(id));
    assert_eq!(ipc.plan_event(Token(2), false, true), EventPlan::Disconnect(id));
    assert_eq!(ipc.plan_event(Token(3), true, false), EventPlan::Ignore);
}

#[test]
fn ipc_replies_to_actions() {
    let (mut ipc, id) = module_with_client();
    assert!(ipc.intercept_action(&Action::Started { id: 7 }, Some(id)).is_none());
    let mut expected = framed(&{
        let mut b = vec![1u8];
        b.extend_from_slice(&7u64.to_le_bytes());
        b
    });
    assert_eq!(ipc.clients.get(&id).unwrap().write_buf, expected);
    assert!(ipc.intercept_action(&Action::Controlled { id: 7 }, Some(id)).is_none());
    expected.extend_from_slice(&framed(&[3u8]));
    assert_eq!(ipc.clients.get(&id).unwrap().write_buf, expected);
    assert!(ipc.intercept_action(&Action::Started { id: 8 }, None).is_none());
    assert_eq!(ipc.clients.get(&id).unwrap().write_buf, expected);

    let finished = Action::Finished {
        id: 7,
        owner: 0,
        was_submitted: true,
        result: Err(ExecError::SpawnFailed),
    };
    let pending = ipc.intercept_action(&finished, Some(id)).expect("result owed");
    assert_eq!(pending.client_id, id);
    match pending.result {
        Some(ExecOutcome { id: 7, result: Err(ExecError::SpawnFailed) }) => {}
        _ => panic!("expected the finished outcome"),
    }
    ipc.queue_result(id, &b"null".to_vec());
    expected.extend_from_slice(&framed(b"\x02null"));
    assert_eq!(ipc.clients.get(&id).unwrap().write_buf, expected);

    ipc.consume_written(id, 4);
    assert_eq!(ipc.clients.get(&id).unwrap().write_buf, expected[4..].to_vec());

    let query = Action::QueryResult {
        id: 3,
        result: Some(ExecOutcome {
            id: 3,
            result: Ok(ExecResult { status: Some(0), stdout: b"ok".to_vec(), stderr: vec![], timed_out: false }),
        }),
    };
    let pending = ipc.intercept_action(&query, Some(id)).unwrap();
    match pending.result {
        Some(ExecOutcome { id: 3, result: Ok(r) }) => assert_eq!(r.stdout, b"ok".to_vec()),
        _ => panic!("expected the queried outcome"),
    }
}

#[test]
fn ipc_disconnect_forgets_client() {
    let (mut ipc, id) = module_with_client();
    assert_eq!(ipc.disconnect(id), Some(Token(2)));
    assert!(ipc.clients.is_empty());
    assert!(ipc.client_tokens.is_empty());
    assert_eq!(ipc.disconnect(id), None);
}

#[test]
fn ipc_client_ids_wrap_past_zero() {
    let mut ipc = IpcModule::new(Token(1));
    ipc.next_client_id = u32::MAX;
    assert_eq!(ipc.register_client(Token(5), 1), u32::MAX);
    assert_eq!(ipc.next_client_id, 1);
    assert!(ipc.has_room());
}

fn insert_conn(ipc: &mut IpcModule, id: u32, token: Token, read_buf: Vec<u8>, write_buf: Vec<u8>, uid: u32) {
    ipc.clients.insert(
        id,
        Conn { token, read_buf, write_buf, state: ReadState::Header { needed: 4 }, uid },
    );
    ipc.client_tokens.insert(token.0, id);
}

#[test]
fn test_ipc_malformed_flood() {
    let mut ipc = IpcModule::new(Token(1));
    let token = Token(2);
    // Already over the read limit.
    insert_conn(&mut ipc, 1, token, vec![0u8; 1024 * 1024], vec![], 1000);
    let mut msgs = Vec::new();
    if ipc.receive(1, &[]) {
        if let Some(Frame::Request(req)) = ipc.next_request(1) {
            msgs.extend(ipc.message_for(1, req, None));
        }
    } else {
        ipc.disconnect(1);
    }
    assert!(msgs.is_empty());
    assert!(ipc.clients.is_empty());
}

#[test]
fn test_ipc_partial_frame_waits_for_complete_body() {
    let mut ipc = IpcModule::new(Token(1));
    let token = Token(2);
    insert_conn(&mut ipc, 1, token, Vec::new(), Vec::new(), 1000);

    let mut payload = vec![3u8];
    payload.extend_from_slice(&7u64.to_le_bytes());
    let mut frame = Vec::new();
    frame.extend_from_slice(&(payload.len() as u32).to_le_bytes());
    frame.extend_from_slice(&payload);

    assert!(ipc.receive(1, &frame[..6]));
    assert!(matches!(ipc.next_request(1), Some(Frame::Incomplete)));
    assert!(ipc.clients.contains_key(&1));

    assert!(ipc.receive(1, &frame[6..]));
    let msg = match ipc.next_request(1) {
        Some(Frame::Request(req)) => ipc.message_for(1, req, None).expect("a message"),
        _ => panic!("expected a whole request"),
    };
    match msg.command {
        Command::Cancel { id } => assert_eq!(id, 7),
        _ => panic!("unexpected command"),
    }
}

#[test]
fn test_ipc_response_overflow_drops_client() {
    let mut ipc = IpcModule::new(Token(1));
    let token = Token(2);
    insert_conn(&mut ipc, 1, token, Vec::new(), vec![0u8; (1024 * 1024) - 12], 1000);

    ipc.intercept_action(&Action::Started { id: 42 }, Some(1));
    assert!(!ipc.clients.contains_key(&1));
    assert!(!ipc.client_tokens.contains_key(&token.0));
}

#[test]
fn ipc_response_that_fits_exactly_is_queued() {
    let mut ipc = IpcModule::new(Token(1));
    insert_conn(&mut ipc, 1, Token(2), Vec::new(), vec![0u8; MAX_WRITE_BUF - 13], 1000);
    ipc.intercept_action(&Action::Started { id: 42 }, Some(1));
    assert_eq!(ipc.clients.get(&1).unwrap().write_buf.len(), MAX_WRITE_BUF);
    assert_eq!(ipc.queue_result(1, &b"null".to_vec()), Some(Token(2)));
    assert!(ipc.clients.is_empty());
    assert!(ipc.client_tokens.is_empty());
}

#[test]
fn test_ipc_writable_event_handles_partial_write() {
    let mut ipc = IpcModule::new(Token(1));
    let token = Token(2);
    let original_len = 256 * 1024;
    insert_conn(&mut ipc, 1, token, Vec::new(), vec![7u8; original_len], 1000);

    // The socket took one chunk of the pending output.
    ipc.consume_written(1, 4096);
    let remaining = ipc.clients.get(&1).expect("client must remain connected").write_buf.len();
    assert!(remaining > 0);
    assert!(remaining < original_len);
}

#[test]
fn test_ipc_oversized_packet() {
    let mut ipc = IpcModule::new(Token(1));
    let token = Token(2);
    insert_conn(&mut ipc, 1, token, vec![], vec![], 1000);

    let len = (128 * 1024 + 1) as u32; // MAX_PACKET_SIZE + 1
    assert!(ipc.receive(1, &len.to_le_bytes()));
    let mut msgs = Vec::new();
    match ipc.next_request(1) {
        Some(Frame::Request(req)) => msgs.extend(ipc.message_for(1, req, None)),
        Some(Frame::Incomplete) => {}
        Some(Frame::Invalid) | None => {
            ipc.disconnect(1);
        }
    }
    assert!(msgs.is_empty());
    assert!(ipc.clients.is_empty());
}

#[test]
fn test_ipc_multiple_clients() {
    let mut ipc = IpcModule::new(Token(1));
    for i in 2..10 {
        insert_conn(&mut ipc, i as u32, Token(i as u64), vec![], vec![], 1000 + i as u32);
    }
    assert_eq!(ipc.clients.len(), 8);
}
