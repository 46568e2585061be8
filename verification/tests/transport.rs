use moobius::{
    ConnectionState, JsonValue, RecvStep, TransportError, WebSocket, WireEvent, encode_json,
    str_get,
};

fn connected() -> WebSocket {
    let mut ws = WebSocket::new();
    ws.begin_connect().unwrap();
    ws.complete_connect(true).unwrap();
    ws
}

fn field<'a>(frame: &'a JsonValue, name: &str) -> &'a String {
    str_get(frame, name).expect("frame field must be a string")
}

#[test]
fn fresh_transport_is_disconnected() {
    let ws = WebSocket::new();
    assert_eq!(ws.state(), ConnectionState::Disconnected);
}

#[test]
fn send_fails_before_connect_completes() {
    let mut ws = WebSocket::new();
    let frame = JsonValue::Null;
    assert_eq!(ws.send(&frame), Err(TransportError::Closed));
    ws.begin_connect().unwrap();
    assert_eq!(ws.state(), ConnectionState::Connecting);
    assert_eq!(ws.send(&frame), Err(TransportError::Closed));
}

#[test]
fn receive_fails_before_connect_completes() {
    let mut ws = WebSocket::new();
    match ws.receive_event(WireEvent::Ping) {
        RecvStep::Failed(e) => assert_eq!(e, TransportError::Closed),
        _ => panic!("receive before connect must fail"),
    }
}

#[test]
fn handshake_success_connects() {
    let ws = connected();
    assert_eq!(ws.state(), ConnectionState::Connected);
    let text = ws.send(&JsonValue::Bool(true)).unwrap();
    assert_eq!(text, "true");
}

#[test]
fn handshake_failure_closes_for_good() {
    let mut ws = WebSocket::new();
    ws.begin_connect().unwrap();
    assert_eq!(
        ws.complete_connect(false),
        Err(TransportError::Unreachable)
    );
    assert_eq!(ws.state(), ConnectionState::Closed);
    assert_eq!(ws.begin_connect(), Err(TransportError::Unreachable));
    assert_eq!(ws.state(), ConnectionState::Closed);
}

#[test]
fn send_encodes_the_frame() {
    let ws = connected();
    let frame = JsonValue::Obj(vec![("type".to_string(), JsonValue::Str("x".to_string()))]);
    assert_eq!(ws.send(&frame).unwrap(), "{\"type\":\"x\"}");
}

#[test]
fn keepalives_are_consumed_transparently() {
    let mut ws = connected();
    assert!(matches!(ws.receive_event(WireEvent::Ping), RecvStep::Continue));
    assert!(matches!(ws.receive_event(WireEvent::Pong), RecvStep::Continue));
    assert_eq!(ws.state(), ConnectionState::Connected);
}

#[test]
fn messages_are_delivered() {
    let mut ws = connected();
    match ws.receive_event(WireEvent::Text("{\"type\":\"update\"}".to_string())) {
        RecvStep::Deliver(t) => assert_eq!(t, "{\"type\":\"update\"}"),
        _ => panic!("a text message must be delivered"),
    }
    match ws.receive_event(WireEvent::Binary(vec![1, 2, 3])) {
        RecvStep::DeliverBytes(b) => assert_eq!(b, vec![1, 2, 3]),
        _ => panic!("a binary message must be delivered"),
    }
}

#[test]
fn close_is_terminal_and_deterministic() {
    let mut ws = connected();
    match ws.receive_event(WireEvent::Close) {
        RecvStep::Failed(e) => assert_eq!(e, TransportError::Closed),
        _ => panic!("the peer's close must fail the receive"),
    }
    assert_eq!(ws.state(), ConnectionState::Closed);
    assert_eq!(ws.send(&JsonValue::Null), Err(TransportError::Closed));
    match ws.receive_event(WireEvent::Text("late".to_string())) {
        RecvStep::Failed(e) => assert_eq!(e, TransportError::Closed),
        _ => panic!("receive after close must fail deterministically"),
    }
    assert_eq!(ws.state(), ConnectionState::Closed);
}

#[test]
fn stream_end_closes() {
    let mut ws = connected();
    match ws.receive_event(WireEvent::Ended) {
        RecvStep::Failed(e) => assert_eq!(e, TransportError::Closed),
        _ => panic!("the end of the stream must fail the receive"),
    }
    assert_eq!(ws.state(), ConnectionState::Closed);
}

#[test]
fn decode_failure_closes() {
    let mut ws = connected();
    assert_eq!(ws.on_decode_failure(), TransportError::Closed);
    assert_eq!(ws.state(), ConnectionState::Closed);
}

#[test]
fn shutdown_closes() {
    let mut ws = connected();
    ws.shutdown();
    assert_eq!(ws.state(), ConnectionState::Closed);
    assert_eq!(ws.send(&JsonValue::Null), Err(TransportError::Closed));
}

#[test]
fn login_frame_carries_identity_and_fresh_request_id() {
    let ws = connected();
    let (frame, text) = ws.service_login("svc1", "tok1").unwrap();
    assert_eq!(field(&frame, "type"), "service_login");
    assert_eq!(field(&frame, "auth_origin"), "cognito");
    assert_eq!(field(&frame, "access_token"), "tok1");
    assert_eq!(field(&frame, "service_id"), "svc1");
    assert_eq!(field(&frame, "request_id").chars().count(), 36);
    assert_eq!(text, encode_json(&frame));
    let (frame2, _) = ws.service_login("svc1", "tok1").unwrap();
    assert_ne!(field(&frame, "request_id"), field(&frame2, "request_id"));
}

#[test]
fn login_fails_when_not_connected() {
    let ws = WebSocket::new();
    assert!(ws.service_login("svc1", "tok1").is_err());
}

#[test]
fn connect_is_refused_outside_the_fresh_state() {
    let mut ws = connected();
    assert_eq!(ws.begin_connect(), Err(TransportError::Unreachable));
    assert_eq!(ws.state(), ConnectionState::Connected);
    assert_eq!(ws.complete_connect(true), Err(TransportError::Unreachable));
    assert_eq!(ws.state(), ConnectionState::Connected);
}

#[test]
fn character_list_update_goes_out_when_connected() {
    let ws = connected();
    let (frame, text) = ws
        .update_character_list("svc", "ch", "grp", "grp")
        .unwrap();
    assert_eq!(field(&frame, "type"), "update");
    assert_eq!(text, encode_json(&frame));
}
