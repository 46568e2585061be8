use vstd::prelude::*;
use vstd::string::*;
use crate::json::JsonValue;

verus! {

/// One object field holding a string: named `name`, value `val`.
pub open spec fn str_field(f: (String, JsonValue), name: Seq<char>, val: Seq<char>) -> bool {
    &&& f.0@ == name
    &&& f.1 matches JsonValue::Str(s) && s@ == val
}

/// One object field holding an unsigned integer.
pub open spec fn uint_field(f: (String, JsonValue), name: Seq<char>, val: u64) -> bool {
    f.0@ == name && f.1 == JsonValue::UInt(val)
}

/// An array whose elements are exactly these strings, in order.
pub open spec fn str_list(v: JsonValue, vals: Seq<Seq<char>>) -> bool {
    &&& v matches JsonValue::Arr(items)
    &&& items@.len() == vals.len()
    &&& forall|i: int|
        0 <= i < vals.len() ==> (#[trigger] items@[i] matches JsonValue::Str(s) && s@ == vals[i])
}

/// The shape of a login frame: the envelope `type`, the fresh
/// `request_id`, the fixed credential origin, and the caller's token
/// and service id.
pub open spec fn service_login_shape(
    v: JsonValue,
    service_id: Seq<char>,
    access_token: Seq<char>,
    request_id: Seq<char>,
) -> bool {
    &&& v matches JsonValue::Obj(fields)
    &&& fields@.len() == 5
    &&& str_field(fields@[0], "type"@, "service_login"@)
    &&& str_field(fields@[1], "request_id"@, request_id)
    &&& str_field(fields@[2], "auth_origin"@, "cognito"@)
    &&& str_field(fields@[3], "access_token"@, access_token)
    &&& str_field(fields@[4], "service_id"@, service_id)
}

/// The shape of an update frame that replaces the character list shown
/// to the given recipients.
pub open spec fn update_character_list_shape(
    v: JsonValue,
    service_id: Seq<char>,
    channel_id: Seq<char>,
    characters: Seq<char>,
    recipients: Seq<char>,
    request_id: Seq<char>,
) -> bool {
    &&& v matches JsonValue::Obj(fields)
    &&& fields@.len() == 4
    &&& str_field(fields@[0], "type"@, "update"@)
    &&& str_field(fields@[1], "request_id"@, request_id)
    &&& str_field(fields@[2], "service_id"@, service_id)
    &&& fields@[3].0@ == "body"@
    &&& fields@[3].1 matches JsonValue::Obj(body)
    &&& body@.len() == 4
    &&& str_field(body@[0], "subtype"@, "update_characters"@)
    &&& str_field(body@[1], "channel_id"@, channel_id)
    &&& str_field(body@[2], "recipients"@, recipients)
    &&& body@[3].0@ == "content"@
    &&& body@[3].1 matches JsonValue::Obj(content)
    &&& content@.len() == 1
    &&& str_field(content@[0], "characters"@, characters)
}

/// The shape of an update frame that replaces the buttons shown to the
/// given recipients; the button descriptions are carried through
/// unchanged.
pub open spec fn update_buttons_shape(
    v: JsonValue,
    service_id: Seq<char>,
    channel_id: Seq<char>,
    buttons: Seq<JsonValue>,
    recipients: Seq<char>,
    request_id: Seq<char>,
) -> bool {
    &&& v matches JsonValue::Obj(fields)
    &&& fields@.len() == 4
    &&& str_field(fields@[0], "type"@, "update"@)
    &&& str_field(fields@[1], "request_id"@, request_id)
    &&& str_field(fields@[2], "service_id"@, service_id)
    &&& fields@[3].0@ == "body"@
    &&& fields@[3].1 matches JsonValue::Obj(body)
    &&& body@.len() == 6
    &&& str_field(body@[0], "subtype"@, "update_buttons"@)
    &&& str_field(body@[1], "channel_id"@, channel_id)
    &&& str_field(body@[2], "recipients"@, recipients)
    &&& body@[3].0@ == "content"@
    &&& body@[3].1 matches JsonValue::Arr(items) && items@ == buttons
    &&& str_field(body@[4], "group_id"@, "temp"@)
    &&& body@[5].0@ == "context"@
    &&& body@[5].1 matches JsonValue::Obj(ctx) && ctx@.len() == 0
}

/// The shape of a client-to-channel message: the recipients stand in
/// the body as the literal identifier list.
pub open spec fn message_up_shape(
    v: JsonValue,
    user_id: Seq<char>,
    service_id: Seq<char>,
    channel_id: Seq<char>,
    recipients: Seq<Seq<char>>,
    subtype: Seq<char>,
    content: JsonValue,
    request_id: Seq<char>,
    timestamp: u64,
) -> bool {
    &&& v matches JsonValue::Obj(fields)
    &&& fields@.len() == 5
    &&& str_field(fields@[0], "type"@, "message_up"@)
    &&& str_field(fields@[1], "request_id"@, request_id)
    &&& str_field(fields@[2], "user_id"@, user_id)
    &&& str_field(fields@[3], "service_id"@, service_id)
    &&& fields@[4].0@ == "body"@
    &&& fields@[4].1 matches JsonValue::Obj(body)
    &&& body@.len() == 6
    &&& str_field(body@[0], "subtype"@, subtype)
    &&& str_field(body@[1], "channel_id"@, channel_id)
    &&& body@[2].0@ == "content"@ && body@[2].1 == content
    &&& body@[3].0@ == "recipients"@ && str_list(body@[3].1, recipients)
    &&& uint_field(body@[4], "timestamp"@, timestamp)
    &&& body@[5].0@ == "context"@
    &&& body@[5].1 matches JsonValue::Obj(ctx) && ctx@.len() == 0
}

/// The shape of a service-to-recipients message: the recipients stand
/// in the body as one group id, and the content names the same text as
/// both `text` and `path`.
pub open spec fn message_down_shape(
    v: JsonValue,
    service_id: Seq<char>,
    channel_id: Seq<char>,
    recipients: Seq<char>,
    subtype: Seq<char>,
    content: Seq<char>,
    sender: Seq<char>,
    request_id: Seq<char>,
    timestamp: u64,
) -> bool {
    &&& v matches JsonValue::Obj(fields)
    &&& fields@.len() == 4
    &&& str_field(fields@[0], "type"@, "message_down"@)
    &&& str_field(fields@[1], "request_id"@, request_id)
    &&& str_field(fields@[2], "service_id"@, service_id)
    &&& fields@[3].0@ == "body"@
    &&& fields@[3].1 matches JsonValue::Obj(body)
    &&& body@.len() == 7
    &&& str_field(body@[0], "subtype"@, subtype)
    &&& str_field(body@[1], "channel_id"@, channel_id)
    &&& body@[2].0@ == "content"@
    &&& body@[2].1 matches JsonValue::Obj(inner)
    &&& inner@.len() == 2
    &&& str_field(inner@[0], "text"@, content)
    &&& str_field(inner@[1], "path"@, content)
    &&& str_field(body@[3], "recipients"@, recipients)
    &&& uint_field(body@[4], "timestamp"@, timestamp)
    &&& str_field(body@[5], "sender"@, sender)
    &&& body@[6].0@ == "context"@
    &&& body@[6].1 matches JsonValue::Obj(ctx) && ctx@.len() == 0
}

/// Appends a string-valued field.
fn push_str_field(fields: &mut Vec<(String, JsonValue)>, name: &str, val: &str)
    ensures
        final(fields)@.len() == old(fields)@.len() + 1,
        final(fields)@.subrange(0, old(fields)@.len() as int) == old(fields)@,
        str_field(final(fields)@.last(), name@, val@),
{
    fields.push((name.to_owned(), JsonValue::Str(val.to_owned())));
    proof {
        assert(final(fields)@.subrange(0, old(fields)@.len() as int) =~= old(fields)@);
    }
}

/// Appends an empty-object field, the fixed `context` of a message.
fn push_empty_obj_field(fields: &mut Vec<(String, JsonValue)>, name: &str)
    ensures
        final(fields)@.len() == old(fields)@.len() + 1,
        final(fields)@.subrange(0, old(fields)@.len() as int) == old(fields)@,
        final(fields)@.last().0@ == name@,
        final(fields)@.last().1 matches JsonValue::Obj(ctx) && ctx@.len() == 0,
{
    fields.push((name.to_owned(), JsonValue::Obj(Vec::new())));
    proof {
        assert(final(fields)@.subrange(0, old(fields)@.len() as int) =~= old(fields)@);
    }
}

/// Appends an arbitrary field.
fn push_field(fields: &mut Vec<(String, JsonValue)>, name: &str, val: JsonValue)
    ensures
        final(fields)@.len() == old(fields)@.len() + 1,
        final(fields)@.subrange(0, old(fields)@.len() as int) == old(fields)@,
        final(fields)@.last().0@ == name@,
        final(fields)@.last().1 == val,
{
    fields.push((name.to_owned(), val));
    proof {
        assert(final(fields)@.subrange(0, old(fields)@.len() as int) =~= old(fields)@);
    }
}

/// The identifier list as a wire array of strings.
fn str_list_value(ids: &Vec<String>) -> (r: JsonValue)
    ensures
        str_list(r, ids.deep_view()),
{
    let mut items: Vec<JsonValue> = Vec::new();
    let mut i: usize = 0;
    while i < ids.len()
        invariant
            i <= ids.len(),
            items@.len() == i,
            forall|j: int|
                0 <= j < i ==> (#[trigger] items@[j] matches JsonValue::Str(s) && s@ == ids@[j]@),
        decreases ids.len() - i,
    {
        items.push(JsonValue::Str(ids[i].clone()));
        i = i + 1;
    }
    JsonValue::Arr(items)
}

/// Builds a login frame from the caller's identity and a request id.
pub fn service_login_frame(service_id: &str, access_token: &str, request_id: &str) -> (r:
    JsonValue)
    ensures
        service_login_shape(r, service_id@, access_token@, request_id@),
{
    let mut fields: Vec<(String, JsonValue)> = Vec::new();
    push_str_field(&mut fields, "type", "service_login");
    push_str_field(&mut fields, "request_id", request_id);
    push_str_field(&mut fields, "auth_origin", "cognito");
    push_str_field(&mut fields, "access_token", access_token);
    push_str_field(&mut fields, "service_id", service_id);
    JsonValue::Obj(fields)
}

/// Builds a character-list update frame.
pub fn update_character_list_frame(
    service_id: &str,
    channel_id: &str,
    characters: &str,
    recipients: &str,
    request_id: &str,
) -> (r: JsonValue)
    ensures
        update_character_list_shape(
            r,
            service_id@,
            channel_id@,
            characters@,
            recipients@,
            request_id@,
        ),
{
    let mut content: Vec<(String, JsonValue)> = Vec::new();
    push_str_field(&mut content, "characters", characters);
    let mut body: Vec<(String, JsonValue)> = Vec::new();
    push_str_field(&mut body, "subtype", "update_characters");
    push_str_field(&mut body, "channel_id", channel_id);
    push_str_field(&mut body, "recipients", recipients);
    push_field(&mut body, "content", JsonValue::Obj(content));
    let mut fields: Vec<(String, JsonValue)> = Vec::new();
    push_str_field(&mut fields, "type", "update");
    push_str_field(&mut fields, "request_id", request_id);
    push_str_field(&mut fields, "service_id", service_id);
    push_field(&mut fields, "body", JsonValue::Obj(body));
    JsonValue::Obj(fields)
}

/// Builds a button update frame around the given button descriptions.
pub fn update_buttons_frame(
    service_id: &str,
    channel_id: &str,
    buttons: Vec<JsonValue>,
    recipients: &str,
    request_id: &str,
) -> (r: JsonValue)
    ensures
        update_buttons_shape(r, service_id@, channel_id@, buttons@, recipients@, request_id@),
{
    let mut body: Vec<(String, JsonValue)> = Vec::new();
    push_str_field(&mut body, "subtype", "update_buttons");
    push_str_field(&mut body, "channel_id", channel_id);
    push_str_field(&mut body, "recipients", recipients);
    push_field(&mut body, "content", JsonValue::Arr(buttons));
    push_str_field(&mut body, "group_id", "temp");
    push_empty_obj_field(&mut body, "context");
    let mut fields: Vec<(String, JsonValue)> = Vec::new();
    push_str_field(&mut fields, "type", "update");
    push_str_field(&mut fields, "request_id", request_id);
    push_str_field(&mut fields, "service_id", service_id);
    push_field(&mut fields, "body", JsonValue::Obj(body));
    JsonValue::Obj(fields)
}

/// Builds a client-to-channel message frame.
pub fn message_up_frame(
    user_id: &str,
    service_id: &str,
    channel_id: &str,
    recipients: &Vec<String>,
    subtype: &str,
    content: JsonValue,
    request_id: &str,
    timestamp: u64,
) -> (r: JsonValue)
    ensures
        message_up_shape(
            r,
            user_id@,
            service_id@,
            channel_id@,
            recipients.deep_view(),
            subtype@,
            content,
            request_id@,
            timestamp,
        ),
{
    let recipient_list = str_list_value(recipients);
    let mut body: Vec<(String, JsonValue)> = Vec::new();
    push_str_field(&mut body, "subtype", subtype);
    push_str_field(&mut body, "channel_id", channel_id);
    push_field(&mut body, "content", content);
    push_field(&mut body, "recipients", recipient_list);
    push_field(&mut body, "timestamp", JsonValue::UInt(timestamp));
    push_empty_obj_field(&mut body, "context");
    let mut fields: Vec<(String, JsonValue)> = Vec::new();
    push_str_field(&mut fields, "type", "message_up");
    push_str_field(&mut fields, "request_id", request_id);
    push_str_field(&mut fields, "user_id", user_id);
    push_str_field(&mut fields, "service_id", service_id);
    push_field(&mut fields, "body", JsonValue::Obj(body));
    JsonValue::Obj(fields)
}

/// Builds a service-to-recipients message frame; `recipients` is the
/// group id the recipient list resolved to.
pub fn message_down_frame(
    service_id: &str,
    channel_id: &str,
    recipients: &str,
    subtype: &str,
    content: &str,
    sender: &str,
    request_id: &str,
    timestamp: u64,
) -> (r: JsonValue)
    ensures
        message_down_shape(
            r,
            service_id@,
            channel_id@,
            recipients@,
            subtype@,
            content@,
            sender@,
            request_id@,
            timestamp,
        ),
{
    let mut inner: Vec<(String, JsonValue)> = Vec::new();
    push_str_field(&mut inner, "text", content);
    push_str_field(&mut inner, "path", content);
    let mut body: Vec<(String, JsonValue)> = Vec::new();
    push_str_field(&mut body, "subtype", subtype);
    push_str_field(&mut body, "channel_id", channel_id);
    push_field(&mut body, "content", JsonValue::Obj(inner));
    push_str_field(&mut body, "recipients", recipients);
    push_field(&mut body, "timestamp", JsonValue::UInt(timestamp));
    push_str_field(&mut body, "sender", sender);
    push_empty_obj_field(&mut body, "context");
    let mut fields: Vec<(String, JsonValue)> = Vec::new();
    push_str_field(&mut fields, "type", "message_down");
    push_str_field(&mut fields, "request_id", request_id);
    push_str_field(&mut fields, "service_id", service_id);
    push_field(&mut fields, "body", JsonValue::Obj(body));
    JsonValue::Obj(fields)
}

} // verus!
