use moobius::{
    JsonValue, WebSocket, encode_json, message_down_frame, message_up_frame, obj_get,
    service_login_frame, str_get, update_buttons_frame, update_character_list_frame,
};

fn fresh_connected() -> WebSocket {
    let mut ws = WebSocket::new();
    ws.begin_connect().unwrap();
    ws.complete_connect(true).unwrap();
    ws
}

fn body_field<'a>(frame: &'a JsonValue, name: &str) -> &'a String {
    let body = obj_get(frame, "body").expect("frame must carry a body");
    str_get(body, name).expect("body field must be a string")
}

#[test]
fn login_frame_encodes_exactly() {
    let frame = service_login_frame("svc", "tok", "rid");
    assert_eq!(
        encode_json(&frame),
        "{\"type\":\"service_login\",\"request_id\":\"rid\",\"auth_origin\":\"cognito\",\
         \"access_token\":\"tok\",\"service_id\":\"svc\"}"
    );
}

#[test]
fn character_list_update_frame_encodes_exactly() {
    let frame = update_character_list_frame("svc", "ch", "grp", "grp", "rid");
    assert_eq!(
        encode_json(&frame),
        "{\"type\":\"update\",\"request_id\":\"rid\",\"service_id\":\"svc\",\
         \"body\":{\"subtype\":\"update_characters\",\"channel_id\":\"ch\",\
         \"recipients\":\"grp\",\"content\":{\"characters\":\"grp\"}}}"
    );
}

#[test]
fn buttons_update_frame_carries_buttons_through() {
    let buttons = vec![JsonValue::Obj(vec![(
        "button_id".to_string(),
        JsonValue::Str("message_btn".to_string()),
    )])];
    let frame = update_buttons_frame("svc", "ch", buttons, "grp", "rid");
    assert_eq!(
        encode_json(&frame),
        "{\"type\":\"update\",\"request_id\":\"rid\",\"service_id\":\"svc\",\
         \"body\":{\"subtype\":\"update_buttons\",\"channel_id\":\"ch\",\"recipients\":\"grp\",\
         \"content\":[{\"button_id\":\"message_btn\"}],\"group_id\":\"temp\",\"context\":{}}}"
    );
}

#[test]
fn message_up_frame_lists_recipients() {
    let recipients = vec!["r1".to_string(), "r2".to_string()];
    let content = JsonValue::Obj(vec![("text".to_string(), JsonValue::Str("hi".to_string()))]);
    let frame = message_up_frame("u1", "svc", "ch", &recipients, "text", content, "rid", 42);
    assert_eq!(
        encode_json(&frame),
        "{\"type\":\"message_up\",\"request_id\":\"rid\",\"user_id\":\"u1\",\
         \"service_id\":\"svc\",\"body\":{\"subtype\":\"text\",\"channel_id\":\"ch\",\
         \"content\":{\"text\":\"hi\"},\"recipients\":[\"r1\",\"r2\"],\"timestamp\":42,\
         \"context\":{}}}"
    );
}

#[test]
fn message_down_frame_names_text_and_path() {
    let frame = message_down_frame("svc", "ch", "grp", "text", "hello", "snd", "rid", 7);
    assert_eq!(
        encode_json(&frame),
        "{\"type\":\"message_down\",\"request_id\":\"rid\",\"service_id\":\"svc\",\
         \"body\":{\"subtype\":\"text\",\"channel_id\":\"ch\",\
         \"content\":{\"text\":\"hello\",\"path\":\"hello\"},\"recipients\":\"grp\",\
         \"timestamp\":7,\"sender\":\"snd\",\"context\":{}}}"
    );
}

#[test]
fn empty_recipients_make_message_down_a_noop() {
    let ws = fresh_connected();
    let r = ws.message_down("svc", "ch", "", "text", "hello", "snd").unwrap();
    assert!(r.is_none());
}

#[test]
fn message_down_builds_and_encodes_when_connected() {
    let ws = fresh_connected();
    let (frame, text) = ws
        .message_down("svc", "ch", "grp", "text", "hello", "snd")
        .unwrap()
        .expect("non-empty recipients must build a frame");
    assert_eq!(body_field(&frame, "subtype"), "text");
    assert_eq!(body_field(&frame, "recipients"), "grp");
    assert_eq!(body_field(&frame, "sender"), "snd");
    assert_eq!(text, encode_json(&frame));
}

#[test]
fn empty_recipients_make_message_up_a_noop() {
    let ws = fresh_connected();
    let none: Vec<String> = vec![];
    let r = ws
        .message_up("u1", "svc", "ch", &none, "text", JsonValue::Null)
        .unwrap();
    assert!(r.is_none());
}

#[test]
fn message_up_fails_when_not_connected() {
    let ws = WebSocket::new();
    let recipients = vec!["r1".to_string()];
    assert!(ws
        .message_up("u1", "svc", "ch", &recipients, "text", JsonValue::Null)
        .is_err());
}
