use moobius::{Config, JsonValue, MessageContent, MoobiusDatabase, encode_json};

fn val(x: &str) -> JsonValue {
    JsonValue::Str(x.to_string())
}

#[test]
fn stores_and_reads_fields() {
    let mut db = MoobiusDatabase::new();
    assert!(!db.has_field("k"));
    assert!(db.get_field("k").is_none());
    db.add_field("k", val("v"));
    assert!(db.has_field("k"));
    assert_eq!(encode_json(db.get_field("k").unwrap()), "\"v\"");
}

#[test]
fn overwrites_a_field_in_place() {
    let mut db = MoobiusDatabase::new();
    db.add_field("k", val("one"));
    db.add_field("k", val("two"));
    assert_eq!(encode_json(db.get_field("k").unwrap()), "\"two\"");
    assert_eq!(db.all_fields().len(), 1);
}

#[test]
fn removes_a_field() {
    let mut db = MoobiusDatabase::new();
    db.add_field("a", val("1"));
    db.add_field("b", val("2"));
    db.remove_field("a");
    assert!(!db.has_field("a"));
    assert!(db.has_field("b"));
    assert_eq!(db.all_fields().len(), 1);
    db.remove_field("missing");
    assert!(db.has_field("b"));
}

#[test]
fn lists_all_fields_in_storage_order() {
    let mut db = MoobiusDatabase::new();
    db.add_field("a", val("1"));
    db.add_field("b", val("2"));
    let all = db.all_fields();
    assert_eq!(all.len(), 2);
    assert_eq!(all[0].0, "a");
    assert_eq!(all[1].0, "b");
}

#[test]
fn appends_to_a_stored_list() {
    let mut db = MoobiusDatabase::new();
    db.add_field("virtual_characters", JsonValue::Arr(vec![]));
    db.add_to_list("virtual_characters", val("c1"));
    db.add_to_list("virtual_characters", val("c2"));
    assert_eq!(
        encode_json(db.get_field("virtual_characters").unwrap()),
        "[\"c1\",\"c2\"]"
    );
}

#[test]
fn appending_to_a_non_list_changes_nothing() {
    let mut db = MoobiusDatabase::new();
    db.add_field("k", val("scalar"));
    db.add_to_list("k", val("x"));
    assert_eq!(encode_json(db.get_field("k").unwrap()), "\"scalar\"");
    db.add_to_list("missing", val("x"));
    assert!(!db.has_field("missing"));
}

#[test]
fn configuration_and_content_types_carry_plain_values() {
    let config = Config {
        http_server_uri: "https://api.example".to_string(),
        ws_server_uri: "wss://ws.example".to_string(),
        email: "me@example.com".to_string(),
        password: "pw".to_string(),
        service_id: Some("svc".to_string()),
        channels: vec!["ch1".to_string()],
    };
    assert_eq!(config.clone().channels.len(), 1);
    let content = MessageContent {
        filename: "cat.png".to_string(),
        size: Some(1024),
        path: "img/cat.png".to_string(),
        text: None,
    };
    assert_eq!(content.size, Some(1024));
}
