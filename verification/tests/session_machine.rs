use graphql_ws::envelope::{decode, encode, Envelope, MsgType};
use graphql_ws::session::{SessionAction, SessionEvent, SessionState, WebSocketSession};
use graphql_ws::{CLIENT_TIMEOUT, HEARTBEAT_INTERVAL};

fn start_frame(id: &[u8]) -> Vec<u8> {
    encode(&Envelope {
        msg_type: MsgType::Start,
        operation_id: Some(id.to_vec()),
        payload: Some(b"{\"query\":\"{users{id}}\"}".to_vec()),
    })
}

fn stop_frame(id: &[u8]) -> Vec<u8> {
    encode(&Envelope { msg_type: MsgType::Stop, operation_id: Some(id.to_vec()), payload: None })
}

fn active_session() -> WebSocketSession {
    let mut s = WebSocketSession::new(0);
    let out = s.handle(SessionEvent::Registered { id: 42 });
    assert!(out.is_empty());
    assert_eq!(s.state, SessionState::Active);
    s
}

fn sent_envelopes(out: &[SessionAction]) -> Vec<&Envelope> {
    out.iter()
        .filter_map(|a| match a {
            SessionAction::Send { env } => Some(env),
            _ => None,
        })
        .collect()
}

#[test]
fn start_runs_a_stream_under_its_id() {
    let mut s = active_session();
    let out = s.handle(SessionEvent::Text { bytes: start_frame(b"a") });
    assert_eq!(out.len(), 1);
    match &out[0] {
        SessionAction::StartStream { op_id, request } => {
            assert_eq!(op_id, &b"a".to_vec());
            assert_eq!(request.query, b"{users{id}}".to_vec());
        }
        other => panic!("expected a stream start, got {:?}", other),
    }
    assert!(s.has_operation(&b"a".to_vec()));
}

#[test]
fn stream_items_are_forwarded_only_for_live_ids() {
    let mut s = active_session();
    s.handle(SessionEvent::Text { bytes: start_frame(b"a") });
    let out = s.handle(SessionEvent::StreamItem {
        op_id: b"a".to_vec(),
        payload: b"{\"id\":0}".to_vec(),
        is_error: false,
    });
    let sent = sent_envelopes(&out);
    assert_eq!(sent.len(), 1);
    assert_eq!(sent[0].msg_type, MsgType::Data);
    assert_eq!(sent[0].operation_id, Some(b"a".to_vec()));
    assert_eq!(sent[0].payload, Some(b"{\"id\":0}".to_vec()));

    // An id that was never started produces nothing.
    let out = s.handle(SessionEvent::StreamItem {
        op_id: b"ghost".to_vec(),
        payload: b"{}".to_vec(),
        is_error: false,
    });
    assert!(out.is_empty());
}

#[test]
fn error_items_become_error_envelopes() {
    let mut s = active_session();
    s.handle(SessionEvent::Text { bytes: start_frame(b"a") });
    let out = s.handle(SessionEvent::StreamItem {
        op_id: b"a".to_vec(),
        payload: b"\"boom\"".to_vec(),
        is_error: true,
    });
    let sent = sent_envelopes(&out);
    assert_eq!(sent.len(), 1);
    assert_eq!(sent[0].msg_type, MsgType::Error);
    assert_eq!(sent[0].operation_id, Some(b"a".to_vec()));
    // A failed item does not remove the operation.
    assert!(s.has_operation(&b"a".to_vec()));
}

#[test]
fn duplicate_start_is_rejected_and_first_stream_undisturbed() {
    let mut s = active_session();
    let first = s.handle(SessionEvent::Text { bytes: start_frame(b"a") });
    assert_eq!(first.len(), 1);
    let second = s.handle(SessionEvent::Text { bytes: start_frame(b"a") });
    let sent = sent_envelopes(&second);
    assert_eq!(second.len(), 1);
    assert_eq!(sent.len(), 1);
    assert_eq!(sent[0].msg_type, MsgType::Error);
    assert_eq!(sent[0].operation_id, Some(b"a".to_vec()));
    // The first operation is still live and still produces.
    assert!(s.has_operation(&b"a".to_vec()));
    let out = s.handle(SessionEvent::StreamItem {
        op_id: b"a".to_vec(),
        payload: b"{\"id\":1}".to_vec(),
        is_error: false,
    });
    assert_eq!(sent_envelopes(&out).len(), 1);
}

#[test]
fn stop_of_unknown_id_is_a_no_op() {
    let mut s = active_session();
    let out = s.handle(SessionEvent::Text { bytes: stop_frame(b"zz") });
    assert!(out.is_empty());
    assert_eq!(s.state, SessionState::Active);
}

#[test]
fn stop_after_completion_is_a_no_op() {
    let mut s = active_session();
    s.handle(SessionEvent::Text { bytes: start_frame(b"a") });
    let out = s.handle(SessionEvent::StreamComplete { op_id: b"a".to_vec() });
    assert!(out.is_empty());
    assert!(!s.has_operation(&b"a".to_vec()));
    let out = s.handle(SessionEvent::Text { bytes: stop_frame(b"a") });
    assert!(out.is_empty());
    assert_eq!(s.state, SessionState::Active);
}

#[test]
fn stop_cancels_and_no_envelope_follows() {
    let mut s = active_session();
    s.handle(SessionEvent::Text { bytes: start_frame(b"1") });
    // Three items arrive and are forwarded.
    for i in 0..3u8 {
        let out = s.handle(SessionEvent::StreamItem {
            op_id: b"1".to_vec(),
            payload: vec![b'{', b'0' + i, b'}'],
            is_error: false,
        });
        assert_eq!(sent_envelopes(&out).len(), 1);
    }
    // The client stops the operation.
    let out = s.handle(SessionEvent::Text { bytes: stop_frame(b"1") });
    assert_eq!(out.len(), 1);
    match &out[0] {
        SessionAction::CancelStream { op_id } => assert_eq!(op_id, &b"1".to_vec()),
        other => panic!("expected a cancellation, got {:?}", other),
    }
    assert!(!s.has_operation(&b"1".to_vec()));
    // A late item of the stopped stream is not forwarded.
    let out = s.handle(SessionEvent::StreamItem {
        op_id: b"1".to_vec(),
        payload: b"{3}".to_vec(),
        is_error: false,
    });
    assert!(out.is_empty());
}

#[test]
fn interleaved_streams_keep_their_own_order() {
    let mut s = active_session();
    s.handle(SessionEvent::Text { bytes: start_frame(b"a") });
    s.handle(SessionEvent::Text { bytes: start_frame(b"b") });
    let script: &[(&[u8], &[u8])] = &[
        (b"a", b"a0"),
        (b"b", b"b0"),
        (b"a", b"a1"),
        (b"b", b"b1"),
        (b"a", b"a2"),
    ];
    let mut wire: Vec<Envelope> = Vec::new();
    for (id, payload) in script {
        let out = s.handle(SessionEvent::StreamItem {
            op_id: id.to_vec(),
            payload: payload.to_vec(),
            is_error: false,
        });
        for a in out {
            if let SessionAction::Send { env } = a {
                wire.push(env);
            }
        }
    }
    let of = |id: &[u8]| -> Vec<Vec<u8>> {
        wire.iter()
            .filter(|e| e.operation_id.as_deref() == Some(id))
            .map(|e| e.payload.clone().unwrap())
            .collect()
    };
    assert_eq!(of(b"a"), vec![b"a0".to_vec(), b"a1".to_vec(), b"a2".to_vec()]);
    assert_eq!(of(b"b"), vec![b"b0".to_vec(), b"b1".to_vec()]);
}

#[test]
fn malformed_start_payload_yields_one_error_and_changes_nothing() {
    let mut s = active_session();
    let frame = encode(&Envelope {
        msg_type: MsgType::Start,
        operation_id: Some(b"x".to_vec()),
        payload: Some(b"oops".to_vec()),
    });
    let out = s.handle(SessionEvent::Text { bytes: frame });
    let sent = sent_envelopes(&out);
    assert_eq!(out.len(), 1);
    assert_eq!(sent.len(), 1);
    assert_eq!(sent[0].msg_type, MsgType::Error);
    assert_eq!(sent[0].operation_id, Some(b"x".to_vec()));
    assert_eq!(s.state, SessionState::Active);
    assert!(!s.has_operation(&b"x".to_vec()));
}

#[test]
fn malformed_envelope_yields_error_with_null_id_and_session_lives_on() {
    let mut s = active_session();
    let out = s.handle(SessionEvent::Text { bytes: b"this is not an envelope".to_vec() });
    let sent = sent_envelopes(&out);
    assert_eq!(sent.len(), 1);
    assert_eq!(sent[0].msg_type, MsgType::Error);
    assert_eq!(sent[0].operation_id, None);
    assert_eq!(s.state, SessionState::Active);
    // The error envelope itself is well formed on the wire.
    let wire = encode(sent[0]);
    assert!(decode(&wire).is_some());
}

#[test]
fn heartbeat_before_timeout_sends_a_probe() {
    let mut s = active_session();
    let out = s.hb(HEARTBEAT_INTERVAL);
    assert_eq!(out.len(), 1);
    assert!(matches!(out[0], SessionAction::SendPing));
    assert_eq!(s.state, SessionState::Active);
}

#[test]
fn heartbeat_timeout_cancels_everything_and_deregisters() {
    let mut s = active_session();
    s.handle(SessionEvent::Text { bytes: start_frame(b"a") });
    s.handle(SessionEvent::Text { bytes: start_frame(b"b") });
    let out = s.hb(CLIENT_TIMEOUT + 1);
    // Every live operation's cancellation token fires, then the registry is
    // told, then the connection goes.
    assert_eq!(out.len(), 4);
    match (&out[0], &out[1], &out[2], &out[3]) {
        (
            SessionAction::CancelStream { op_id: a },
            SessionAction::CancelStream { op_id: b },
            SessionAction::Deregister { id },
            SessionAction::CloseConnection,
        ) => {
            assert_eq!(a, &b"a".to_vec());
            assert_eq!(b, &b"b".to_vec());
            assert_eq!(*id, 42);
        }
        other => panic!("unexpected actions {:?}", other),
    }
    assert_eq!(s.state, SessionState::Closing);
    assert!(!s.has_operation(&b"a".to_vec()));
    assert!(!s.has_operation(&b"b".to_vec()));
}

#[test]
fn ping_and_pong_refresh_the_heartbeat() {
    let mut s = active_session();
    let out = s.handle(SessionEvent::Ping { data: b"hi".to_vec(), now: 7 });
    assert_eq!(out.len(), 1);
    match &out[0] {
        SessionAction::SendPong { data } => assert_eq!(data, &b"hi".to_vec()),
        other => panic!("expected a pong, got {:?}", other),
    }
    assert_eq!(s.hb, 7);
    let out = s.handle(SessionEvent::Pong { now: 9 });
    assert!(out.is_empty());
    assert_eq!(s.hb, 9);
    // A refreshed session is not evicted at the next tick.
    let out = s.hb(9 + CLIENT_TIMEOUT);
    assert!(matches!(out[0], SessionAction::SendPing));
    assert_eq!(s.state, SessionState::Active);
}

#[test]
fn close_frame_cancels_and_stopping_deregisters() {
    let mut s = active_session();
    s.handle(SessionEvent::Text { bytes: start_frame(b"a") });
    let out = s.handle(SessionEvent::CloseFrame);
    assert_eq!(out.len(), 2);
    assert!(matches!(&out[0], SessionAction::CancelStream { op_id } if op_id == &b"a".to_vec()));
    assert!(matches!(out[1], SessionAction::CloseConnection));
    assert_eq!(s.state, SessionState::Closing);
    let out = s.stopping();
    assert_eq!(out.len(), 1);
    assert!(matches!(out[0], SessionAction::Deregister { id: 42 }));
    assert_eq!(s.state, SessionState::Closed);
    // Tearing down twice does nothing the second time.
    let out = s.stopping();
    assert!(out.is_empty());
    // A closed session processes no envelopes.
    let out = s.handle(SessionEvent::Text { bytes: start_frame(b"late") });
    assert!(out.is_empty());
}

#[test]
fn liveness_runs_before_registration_completes() {
    let mut s = WebSocketSession::new(0);
    assert_eq!(s.state, SessionState::Connecting);
    let out = s.handle(SessionEvent::Ping { data: b"x".to_vec(), now: 3 });
    assert!(matches!(&out[0], SessionAction::SendPong { data } if data == &b"x".to_vec()));
    assert_eq!(s.hb, 3);
    // Envelopes, though, are processed only once the session is active.
    let out = s.handle(SessionEvent::Text { bytes: start_frame(b"early") });
    assert!(out.is_empty());
    assert!(!s.has_operation(&b"early".to_vec()));
}

#[test]
fn registration_failure_closes_without_deregistering() {
    let mut s = WebSocketSession::new(0);
    let out = s.handle(SessionEvent::RegisterFailed);
    assert_eq!(out.len(), 1);
    assert!(matches!(out[0], SessionAction::CloseConnection));
    assert_eq!(s.state, SessionState::Closed);
}

#[test]
fn inbound_data_envelope_is_a_protocol_error() {
    let mut s = active_session();
    let frame = encode(&Envelope {
        msg_type: MsgType::Data,
        operation_id: Some(b"a".to_vec()),
        payload: Some(b"{}".to_vec()),
    });
    let out = s.handle(SessionEvent::Text { bytes: frame });
    let sent = sent_envelopes(&out);
    assert_eq!(sent.len(), 1);
    assert_eq!(sent[0].msg_type, MsgType::Error);
    assert_eq!(sent[0].operation_id, Some(b"a".to_vec()));
    assert_eq!(s.state, SessionState::Active);
}

#[test]
fn connection_init_is_accepted_unconditionally() {
    let mut s = active_session();
    let frame = encode(&Envelope {
        msg_type: MsgType::ConnectionInit,
        operation_id: None,
        payload: None,
    });
    let out = s.handle(SessionEvent::Text { bytes: frame });
    assert!(out.is_empty());
    assert_eq!(s.state, SessionState::Active);
}
