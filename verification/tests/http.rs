use moobius::{
    Character, JsonValue, RemoteError, api_url, auth_request, channel_group_request,
    character_ids_of_list, create_character_request, encode_json, file_extension,
    full_upload_url, parse_auth_response, parse_channel_group_response,
    parse_character_list_response, parse_character_response, parse_service_group_response,
    parse_upload_response, service_group_request,
};

fn obj(fields: Vec<(&str, JsonValue)>) -> JsonValue {
    JsonValue::Obj(
        fields
            .into_iter()
            .map(|(k, v)| (k.to_string(), v))
            .collect(),
    )
}

fn text(x: &str) -> JsonValue {
    JsonValue::Str(x.to_string())
}

#[test]
fn builds_api_urls() {
    assert_eq!(api_url("https://api.example", "/auth/sign_in"), "https://api.example/auth/sign_in");
}

#[test]
fn builds_the_sign_in_request() {
    let body = auth_request("me@example.com", "hunter");
    assert_eq!(
        encode_json(&body),
        "{\"username\":\"me@example.com\",\"password\":\"hunter\"}"
    );
}

#[test]
fn reads_tokens_out_of_a_sign_in_answer() {
    let answer = obj(vec![(
        "data",
        obj(vec![(
            "AuthenticationResult",
            obj(vec![
                ("AccessToken", text("acc")),
                ("RefreshToken", text("ref")),
            ]),
        )]),
    )]);
    assert_eq!(
        parse_auth_response(&answer).unwrap(),
        ("acc".to_string(), "ref".to_string())
    );
}

#[test]
fn a_sign_in_answer_without_tokens_is_malformed() {
    let answer = obj(vec![("data", obj(vec![]))]);
    assert_eq!(
        parse_auth_response(&answer),
        Err(RemoteError::MalformedResponse)
    );
}

#[test]
fn builds_the_service_group_request() {
    let body = service_group_request(&vec!["a".to_string(), "b".to_string()]);
    assert_eq!(
        encode_json(&body),
        "{\"group_id\":\"\",\"characters\":[\"a\",\"b\"]}"
    );
}

#[test]
fn builds_the_channel_group_request() {
    let body = channel_group_request("ch1", "A_message_up_group", &vec!["a".to_string()]);
    assert_eq!(
        encode_json(&body),
        "{\"channel_id\":\"ch1\",\"group_name\":\"A_message_up_group\",\"characters\":[\"a\"]}"
    );
}

#[test]
fn reads_the_group_id_out_of_a_creation_answer() {
    let answer = obj(vec![("message", text("Create success")), ("data", text("g1"))]);
    assert_eq!(parse_service_group_response(&answer).unwrap(), "g1");
}

#[test]
fn a_non_success_creation_answer_fails() {
    let answer = obj(vec![("message", text("nope")), ("data", text("g1"))]);
    assert_eq!(
        parse_service_group_response(&answer),
        Err(RemoteError::RequestFailed)
    );
}

#[test]
fn a_success_creation_answer_without_an_id_is_malformed() {
    let answer = obj(vec![("message", text("Create success")), ("data", JsonValue::UInt(3))]);
    assert_eq!(
        parse_service_group_response(&answer),
        Err(RemoteError::MalformedResponse)
    );
}

#[test]
fn reads_the_group_id_out_of_a_channel_creation_answer() {
    let answer = obj(vec![("status", text("success")), ("data", text("g2"))]);
    assert_eq!(parse_channel_group_response(&answer).unwrap(), "g2");
    let bad = obj(vec![("status", text("error")), ("data", text("g2"))]);
    assert_eq!(
        parse_channel_group_response(&bad),
        Err(RemoteError::RequestFailed)
    );
}

#[test]
fn reads_the_member_list_out_of_a_character_list_answer() {
    let answer = obj(vec![(
        "data",
        obj(vec![(
            "character_list",
            JsonValue::Arr(vec![text("u1"), JsonValue::UInt(5), text("u2")]),
        )]),
    )]);
    assert_eq!(
        parse_character_list_response(&answer),
        vec!["u1".to_string(), "".to_string(), "u2".to_string()]
    );
}

#[test]
fn a_character_list_answer_without_a_list_is_empty() {
    let answer = obj(vec![("data", obj(vec![]))]);
    assert_eq!(parse_character_list_response(&answer), Vec::<String>::new());
    let no_data = obj(vec![]);
    assert_eq!(parse_character_list_response(&no_data), Vec::<String>::new());
}

#[test]
fn builds_the_character_creation_request() {
    let body = create_character_request("svc", "Mickey", "http://a/m.png", "A friendly mouse");
    assert_eq!(
        encode_json(&body),
        "{\"service_id\":\"svc\",\"context\":{\"name\":\"Mickey\",\
         \"avatar\":\"http://a/m.png\",\"description\":\"A friendly mouse\"}}"
    );
}

#[test]
fn reads_a_created_character_out_of_the_answer() {
    let answer = obj(vec![(
        "data",
        obj(vec![
            ("character_id", text("c1")),
            (
                "character_context",
                obj(vec![
                    ("name", text("Mickey")),
                    ("avatar", text("http://a/m.png")),
                    ("description", text("A friendly mouse")),
                    ("mood", text("cheerful")),
                ]),
            ),
        ]),
    )]);
    let c: Character = parse_character_response(answer).unwrap();
    assert_eq!(c.character_id, "c1");
    assert_eq!(c.name, "Mickey");
    assert_eq!(c.avatar, "http://a/m.png");
    assert_eq!(c.description, "A friendly mouse");
    assert_eq!(c.character_context.len(), 4);
    assert_eq!(c.character_context[3].0, "mood");
}

#[test]
fn a_character_answer_missing_a_field_is_malformed() {
    let answer = obj(vec![(
        "data",
        obj(vec![
            ("character_id", text("c1")),
            ("character_context", obj(vec![("name", text("Mickey"))])),
        ]),
    )]);
    assert!(matches!(
        parse_character_response(answer),
        Err(RemoteError::MalformedResponse)
    ));
}

#[test]
fn reads_the_upload_slot_out_of_the_answer() {
    let answer = obj(vec![(
        "data",
        obj(vec![
            ("url", text("https://bucket/")),
            ("fields", obj(vec![("key", text("img/x.png"))])),
        ]),
    )]);
    let (url, fields) = parse_upload_response(answer).unwrap();
    assert_eq!(url, "https://bucket/");
    assert_eq!(full_upload_url(&url, &fields), "https://bucket/img/x.png");
    let empty_fields = obj(vec![]);
    assert_eq!(full_upload_url(&url, &empty_fields), "https://bucket/");
}

#[test]
fn an_upload_answer_without_fields_keeps_null_in_their_place() {
    let answer = obj(vec![("data", obj(vec![("url", text("https://bucket/"))]))]);
    let (url, fields) = parse_upload_response(answer).unwrap();
    assert_eq!(url, "https://bucket/");
    assert!(matches!(fields, JsonValue::Null));
    assert_eq!(full_upload_url(&url, &fields), "https://bucket/");
    let no_url = obj(vec![("data", obj(vec![("fields", obj(vec![]))]))]);
    assert!(matches!(
        parse_upload_response(no_url),
        Err(RemoteError::MalformedResponse)
    ));
}

#[test]
fn extracts_file_extensions() {
    assert_eq!(file_extension("cat.png"), "png");
    assert_eq!(file_extension("a/b/c.tar.gz"), "gz");
    assert_eq!(file_extension("noext"), "noext");
    assert_eq!(file_extension("trailing."), "");
    assert_eq!(file_extension(""), "");
}

#[test]
fn collects_character_ids_out_of_a_stored_list() {
    let list = JsonValue::Arr(vec![
        obj(vec![("character_id", text("c1"))]),
        obj(vec![("name", text("nameless"))]),
        obj(vec![("character_id", text("c2"))]),
    ]);
    assert_eq!(
        character_ids_of_list(&list),
        vec!["c1".to_string(), "c2".to_string()]
    );
    assert_eq!(character_ids_of_list(&text("not a list")), Vec::<String>::new());
}
