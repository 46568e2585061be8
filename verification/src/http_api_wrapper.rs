use vstd::prelude::*;
use vstd::string::*;
use crate::errors::RemoteError;
use crate::json::JsonValue;
use crate::frames::{str_field, str_list};
use crate::sdk::str_eq;
use crate::types::Character;

verus! {

/// First-match field lookup in an object's field list.
pub open spec fn obj_lookup(fields: Seq<(String, JsonValue)>, key: Seq<char>) -> Option<JsonValue>
    decreases fields.len(),
{
    if fields.len() == 0 {
        None
    } else if fields[0].0@ == key {
        Some(fields[0].1)
    } else {
        obj_lookup(fields.drop_first(), key)
    }
}

/// The value a key holds in a wire object; nothing for any other value.
pub open spec fn json_get(v: JsonValue, key: Seq<char>) -> Option<JsonValue> {
    match v {
        JsonValue::Obj(fields) => obj_lookup(fields@, key),
        _ => None,
    }
}

/// The string a key holds in a wire object, if it holds one.
pub open spec fn json_str_get(v: JsonValue, key: Seq<char>) -> Option<Seq<char>> {
    match json_get(v, key) {
        Some(JsonValue::Str(s)) => Some(s@),
        _ => None,
    }
}

/// Borrows the value a key holds in a wire object.
pub fn obj_get<'a>(v: &'a JsonValue, key: &str) -> (r: Option<&'a JsonValue>)
    ensures
        match r {
            Some(inner) => json_get(*v, key@) == Some(*inner),
            None => json_get(*v, key@) is None,
        },
{
    match v {
        JsonValue::Obj(fields) => {
            proof {
                assert(*v == JsonValue::Obj(*fields));
            }
            let n = fields.len();
            let mut i: usize = 0;
            proof {
                assert(fields@.skip(0) =~= fields@);
            }
            while i < n
                invariant
                    n == fields@.len(),
                    i <= n,
                    json_get(*v, key@) == obj_lookup(fields@, key@),
                    obj_lookup(fields@, key@) == obj_lookup(fields@.skip(i as int), key@),
                decreases n - i,
            {
                proof {
                    assert(fields@.skip(i as int)[0] == fields@[i as int]);
                }
                if str_eq(fields[i].0.as_str(), key) {
                    proof {
                        assert(fields@[i as int].0@ == key@);
                        assert(obj_lookup(fields@.skip(i as int), key@) == Some(
                            fields@[i as int].1,
                        ));
                        assert(json_get(*v, key@) == Some(fields@[i as int].1));
                    }
                    return Some(&fields[i].1);
                }
                proof {
                    assert(fields@.skip(i as int).drop_first() =~= fields@.skip(i + 1));
                }
                i = i + 1;
            }
            proof {
                assert(fields@.skip(n as int) =~= Seq::<(String, JsonValue)>::empty());
            }
            None
        },
        _ => None,
    }
}

/// Borrows the string a key holds in a wire object.
pub fn str_get<'a>(v: &'a JsonValue, key: &str) -> (r: Option<&'a String>)
    ensures
        match r {
            Some(s) => json_str_get(*v, key@) == Some(s@),
            None => json_str_get(*v, key@) is None,
        },
{
    match obj_get(v, key) {
        Some(JsonValue::Str(s)) => Some(s),
        _ => None,
    }
}

/// Takes the value a key holds, consuming the object.
fn take_field(v: JsonValue, key: &str) -> (r: Option<JsonValue>)
    ensures
        r == json_get(v, key@),
{
    match v {
        JsonValue::Obj(mut fields) => {
            let ghost orig = fields@;
            let n = fields.len();
            let mut i: usize = 0;
            proof {
                assert(orig.skip(0) =~= orig);
            }
            while i < n
                invariant
                    n == orig.len(),
                    fields@ == orig,
                    i <= n,
                    json_get(v, key@) == obj_lookup(orig, key@),
                    obj_lookup(orig, key@) == obj_lookup(orig.skip(i as int), key@),
                decreases n - i,
            {
                proof {
                    assert(orig.skip(i as int)[0] == orig[i as int]);
                }
                if str_eq(fields[i].0.as_str(), key) {
                    proof {
                        assert(orig[i as int].0@ == key@);
                        assert(obj_lookup(orig.skip(i as int), key@) == Some(orig[i as int].1));
                    }
                    let entry = fields.remove(i);
                    return Some(entry.1);
                }
                proof {
                    assert(orig.skip(i as int).drop_first() =~= orig.skip(i + 1));
                }
                i = i + 1;
            }
            proof {
                assert(orig.skip(n as int) =~= Seq::<(String, JsonValue)>::empty());
            }
            None
        },
        _ => None,
    }
}

/// One URL under the configured server: the base followed by a path.
pub fn api_url(base: &str, path: &str) -> (r: String)
    ensures
        r@ == base@ + path@,
{
    String::from_str(base).concat(path)
}

/// The sign-in request body: the account's name and password.
pub fn auth_request(email: &str, password: &str) -> (r: JsonValue)
    ensures
        r matches JsonValue::Obj(fields) && fields@.len() == 2 && str_field(
            fields@[0],
            "username"@,
            email@,
        ) && str_field(fields@[1], "password"@, password@),
{
    let mut fields: Vec<(String, JsonValue)> = Vec::new();
    fields.push(("username".to_owned(), JsonValue::Str(email.to_owned())));
    fields.push(("password".to_owned(), JsonValue::Str(password.to_owned())));
    JsonValue::Obj(fields)
}

/// The tokens of a sign-in answer: `data.AuthenticationResult`'s access
/// and refresh tokens, or nothing if either is missing.
pub open spec fn auth_tokens_of(v: JsonValue) -> Option<(Seq<char>, Seq<char>)> {
    match json_get(v, "data"@) {
        Some(data) => match json_get(data, "AuthenticationResult"@) {
            Some(auth) => match (json_str_get(auth, "AccessToken"@), json_str_get(
                auth,
                "RefreshToken"@,
            )) {
                (Some(a), Some(rt)) => Some((a, rt)),
                _ => None,
            },
            None => None,
        },
        None => None,
    }
}

/// Reads the access and refresh tokens out of a sign-in answer; an
/// answer without them is malformed.
pub fn parse_auth_response(v: &JsonValue) -> (r: Result<(String, String), RemoteError>)
    ensures
        match r {
            Ok((a, rt)) => auth_tokens_of(*v) == Some((a@, rt@)),
            Err(e) => auth_tokens_of(*v) is None && e == RemoteError::MalformedResponse,
        },
{
    let data = match obj_get(v, "data") {
        Some(d) => d,
        None => {
            return Err(RemoteError::MalformedResponse);
        },
    };
    let auth = match obj_get(data, "AuthenticationResult") {
        Some(a) => a,
        None => {
            return Err(RemoteError::MalformedResponse);
        },
    };
    let access = match str_get(auth, "AccessToken") {
        Some(s) => s.clone(),
        None => {
            return Err(RemoteError::MalformedResponse);
        },
    };
    let refresh = match str_get(auth, "RefreshToken") {
        Some(s) => s.clone(),
        None => {
            return Err(RemoteError::MalformedResponse);
        },
    };
    Ok((access, refresh))
}

/// The request body that registers a platform-wide group: an empty
/// group id and the ordered member list.
pub fn service_group_request(character_ids: &Vec<String>) -> (r: JsonValue)
    ensures
        r matches JsonValue::Obj(fields) && fields@.len() == 2 && str_field(
            fields@[0],
            "group_id"@,
            Seq::<char>::empty(),
        ) && fields@[1].0@ == "characters"@ && str_list(
            fields@[1].1,
            character_ids.deep_view(),
        ),
{
    let mut items: Vec<JsonValue> = Vec::new();
    let mut i: usize = 0;
    while i < character_ids.len()
        invariant
            i <= character_ids.len(),
            items@.len() == i,
            forall|j: int|
                0 <= j < i ==> (#[trigger] items@[j] matches JsonValue::Str(s) && s@
                    == character_ids@[j]@),
        decreases character_ids.len() - i,
    {
        items.push(JsonValue::Str(character_ids[i].clone()));
        i = i + 1;
    }
    let mut fields: Vec<(String, JsonValue)> = Vec::new();
    fields.push(("group_id".to_owned(), JsonValue::Str(String::new())));
    fields.push(("characters".to_owned(), JsonValue::Arr(items)));
    JsonValue::Obj(fields)
}

/// The request body that registers a channel-scoped group.
pub fn channel_group_request(channel_id: &str, group_name: &str, character_ids: &Vec<String>) -> (r: JsonValue)
    ensures
        r matches JsonValue::Obj(fields) && fields@.len() == 3 && str_field(
            fields@[0],
            "channel_id"@,
            channel_id@,
        ) && str_field(fields@[1], "group_name"@, group_name@) && fields@[2].0@ == "characters"@
            && str_list(fields@[2].1, character_ids.deep_view()),
{
    let mut items: Vec<JsonValue> = Vec::new();
    let mut i: usize = 0;
    while i < character_ids.len()
        invariant
            i <= character_ids.len(),
            items@.len() == i,
            forall|j: int|
                0 <= j < i ==> (#[trigger] items@[j] matches JsonValue::Str(s) && s@
                    == character_ids@[j]@),
        decreases character_ids.len() - i,
    {
        items.push(JsonValue::Str(character_ids[i].clone()));
        i = i + 1;
    }
    let mut fields: Vec<(String, JsonValue)> = Vec::new();
    fields.push(("channel_id".to_owned(), JsonValue::Str(channel_id.to_owned())));
    fields.push(("group_name".to_owned(), JsonValue::Str(group_name.to_owned())));
    fields.push(("characters".to_owned(), JsonValue::Arr(items)));
    JsonValue::Obj(fields)
}

/// Reads the group id out of a service-group creation answer.  The
/// remote reports success by `message` reading `Create success`; the
/// id then stands under `data`.  A non-success answer fails the call,
/// a success without a string id is malformed.
pub fn parse_service_group_response(v: &JsonValue) -> (r: Result<String, RemoteError>)
    ensures
        match r {
            Ok(gid) => json_str_get(*v, "message"@) == Some("Create success"@) && json_str_get(
                *v,
                "data"@,
            ) == Some(gid@),
            Err(e) => {
                &&& json_str_get(*v, "message"@) == Some("Create success"@) ==> e
                    == RemoteError::MalformedResponse && json_str_get(*v, "data"@) is None
                &&& json_str_get(*v, "message"@) != Some("Create success"@) ==> e
                    == RemoteError::RequestFailed
            },
        },
{
    let ok = match str_get(v, "message") {
        Some(m) => str_eq(m.as_str(), "Create success"),
        None => false,
    };
    if !ok {
        return Err(RemoteError::RequestFailed);
    }
    match str_get(v, "data") {
        Some(gid) => Ok(gid.clone()),
        None => Err(RemoteError::MalformedResponse),
    }
}

/// Reads the group id out of a channel-group creation answer.  Here
/// the remote reports success by `status` reading `success`.
pub fn parse_channel_group_response(v: &JsonValue) -> (r: Result<String, RemoteError>)
    ensures
        match r {
            Ok(gid) => json_str_get(*v, "status"@) == Some("success"@) && json_str_get(*v, "data"@)
                == Some(gid@),
            Err(e) => {
                &&& json_str_get(*v, "status"@) == Some("success"@) ==> e
                    == RemoteError::MalformedResponse && json_str_get(*v, "data"@) is None
                &&& json_str_get(*v, "status"@) != Some("success"@) ==> e
                    == RemoteError::RequestFailed
            },
        },
{
    let ok = match str_get(v, "status") {
        Some(m) => str_eq(m.as_str(), "success"),
        None => false,
    };
    if !ok {
        return Err(RemoteError::RequestFailed);
    }
    match str_get(v, "data") {
        Some(gid) => Ok(gid.clone()),
        None => Err(RemoteError::MalformedResponse),
    }
}

/// Each wire value of a character list as an identifier: the string it
/// holds, or the empty string for anything that is not a string.
pub open spec fn id_of_item(item: JsonValue) -> Seq<char> {
    match item {
        JsonValue::Str(s) => s@,
        _ => Seq::empty(),
    }
}

/// The identifiers in a character-list answer, under
/// `data.character_list`; an answer without such a list is an empty
/// one.
pub open spec fn character_list_of(v: JsonValue) -> Seq<Seq<char>> {
    match json_get(v, "data"@) {
        Some(data) => match json_get(data, "character_list"@) {
            Some(JsonValue::Arr(items)) => items@.map_values(|item: JsonValue| id_of_item(item)),
            _ => Seq::empty(),
        },
        None => Seq::empty(),
    }
}

/// Reads the channel's member identifiers out of a character-list
/// answer.
pub fn parse_character_list_response(v: &JsonValue) -> (r: Vec<String>)
    ensures
        r.deep_view() == character_list_of(*v),
{
    let empty: Vec<String> = Vec::new();
    let data = match obj_get(v, "data") {
        Some(d) => d,
        None => {
            proof {
                assert(empty.deep_view() =~= character_list_of(*v));
            }
            return empty;
        },
    };
    let items = match obj_get(data, "character_list") {
        Some(JsonValue::Arr(items)) => items,
        _ => {
            proof {
                assert(empty.deep_view() =~= character_list_of(*v));
            }
            return empty;
        },
    };
    let mut out: Vec<String> = Vec::new();
    let mut i: usize = 0;
    while i < items.len()
        invariant
            i <= items.len(),
            out@.len() == i,
            forall|j: int| 0 <= j < i ==> out@[j]@ == id_of_item(items@[j]),
        decreases items.len() - i,
    {
        match &items[i] {
            JsonValue::Str(s) => out.push(s.clone()),
            _ => out.push(String::new()),
        }
        i = i + 1;
    }
    proof {
        assert(out.deep_view() =~= character_list_of(*v));
    }
    out
}

/// The request body that creates a character: the owning service and
/// the new identity's name, look and description under `context`.
pub fn create_character_request(service_id: &str, name: &str, avatar: &str, description: &str) -> (r: JsonValue)
    ensures
        ({
            &&& r matches JsonValue::Obj(fields)
            &&& fields@.len() == 2
            &&& str_field(fields@[0], "service_id"@, service_id@)
            &&& fields@[1].0@ == "context"@
            &&& fields@[1].1 matches JsonValue::Obj(ctx)
            &&& ctx@.len() == 3
            &&& str_field(ctx@[0], "name"@, name@)
            &&& str_field(ctx@[1], "avatar"@, avatar@)
            &&& str_field(ctx@[2], "description"@, description@)
        }),
{
    let mut ctx: Vec<(String, JsonValue)> = Vec::new();
    ctx.push(("name".to_owned(), JsonValue::Str(name.to_owned())));
    ctx.push(("avatar".to_owned(), JsonValue::Str(avatar.to_owned())));
    ctx.push(("description".to_owned(), JsonValue::Str(description.to_owned())));
    let mut fields: Vec<(String, JsonValue)> = Vec::new();
    fields.push(("service_id".to_owned(), JsonValue::Str(service_id.to_owned())));
    fields.push(("context".to_owned(), JsonValue::Obj(ctx)));
    JsonValue::Obj(fields)
}

/// Whether a character-creation answer carries a whole identity record:
/// an id under `data` and a context with its name, look and description.
pub open spec fn character_of(v: JsonValue) -> Option<
    (Seq<char>, Seq<char>, Seq<char>, Seq<char>),
> {
    match json_get(v, "data"@) {
        Some(data) => {
            let cid = json_str_get(data, "character_id"@);
            match json_get(data, "character_context"@) {
                Some(ctx) => match (
                    cid,
                    json_str_get(ctx, "name"@),
                    json_str_get(ctx, "avatar"@),
                    json_str_get(ctx, "description"@),
                ) {
                    (Some(c), Some(n), Some(a), Some(d)) => Some((c, n, a, d)),
                    _ => None,
                },
                None => None,
            }
        },
        None => None,
    }
}

/// Reads the created identity out of a character-creation answer,
/// keeping the whole free-form context.  An answer missing any of the
/// named fields is malformed.
pub fn parse_character_response(v: JsonValue) -> (r: Result<Character, RemoteError>)
    ensures
        match r {
            Ok(c) => {
                &&& character_of(v) == Some(
                    (c.character_id@, c.name@, c.avatar@, c.description@),
                )
                &&& json_get(v, "data"@) matches Some(data) && json_get(
                    data,
                    "character_context"@,
                ) == Some(JsonValue::Obj(c.character_context))
            },
            Err(e) => character_of(v) is None && e == RemoteError::MalformedResponse,
        },
{
    let ghost whole = v;
    let data = match take_field(v, "data") {
        Some(d) => d,
        None => {
            return Err(RemoteError::MalformedResponse);
        },
    };
    let character_id = match str_get(&data, "character_id") {
        Some(s) => s.clone(),
        None => {
            return Err(RemoteError::MalformedResponse);
        },
    };
    let ctx = match take_field(data, "character_context") {
        Some(c) => c,
        None => {
            return Err(RemoteError::MalformedResponse);
        },
    };
    let name = match str_get(&ctx, "name") {
        Some(s) => s.clone(),
        None => {
            return Err(RemoteError::MalformedResponse);
        },
    };
    let avatar = match str_get(&ctx, "avatar") {
        Some(s) => s.clone(),
        None => {
            return Err(RemoteError::MalformedResponse);
        },
    };
    let description = match str_get(&ctx, "description") {
        Some(s) => s.clone(),
        None => {
            return Err(RemoteError::MalformedResponse);
        },
    };
    match ctx {
        JsonValue::Obj(context_fields) => Ok(
            Character {
                character_id,
                name,
                avatar,
                description,
                character_context: context_fields,
            },
        ),
        _ => Err(RemoteError::MalformedResponse),
    }
}

/// What an upload-slot answer names: the URL to post the file to,
/// under `data.url`, and the form fields to attach, under
/// `data.fields` — or null when the answer carries no fields.  Only
/// the URL is required.
pub open spec fn upload_slot_of(v: JsonValue) -> Option<(Seq<char>, JsonValue)> {
    match json_get(v, "data"@) {
        Some(data) => match json_str_get(data, "url"@) {
            Some(u) => Some(
                (
                    u,
                    match json_get(data, "fields"@) {
                        Some(f) => f,
                        None => JsonValue::Null,
                    },
                ),
            ),
            None => None,
        },
        None => None,
    }
}

/// Reads the upload URL and form fields out of an upload-slot answer;
/// an answer without fields keeps null in their place.  An answer
/// without a string URL is malformed.
pub fn parse_upload_response(v: JsonValue) -> (r: Result<(String, JsonValue), RemoteError>)
    ensures
        match r {
            Ok((u, f)) => upload_slot_of(v) == Some((u@, f)),
            Err(e) => upload_slot_of(v) is None && e == RemoteError::MalformedResponse,
        },
{
    let data = match take_field(v, "data") {
        Some(d) => d,
        None => {
            return Err(RemoteError::MalformedResponse);
        },
    };
    let url = match str_get(&data, "url") {
        Some(u) => u.clone(),
        None => {
            return Err(RemoteError::MalformedResponse);
        },
    };
    match take_field(data, "fields") {
        Some(f) => Ok((url, f)),
        None => Ok((url, JsonValue::Null)),
    }
}

/// Where an uploaded file ends up: the upload URL followed by the
/// form's `key` field, or the URL alone when the form has no string
/// key.
pub fn full_upload_url(upload_url: &str, upload_fields: &JsonValue) -> (r: String)
    ensures
        match json_str_get(*upload_fields, "key"@) {
            Some(k) => r@ == upload_url@ + k,
            None => r@ == upload_url@,
        },
{
    match str_get(upload_fields, "key") {
        Some(k) => String::from_str(upload_url).concat(k.as_str()),
        None => String::from_str(upload_url),
    }
}

/// The identifier each stored character record names, for records that
/// name one.
pub open spec fn record_ids_of(items: Seq<JsonValue>) -> Seq<Seq<char>>
    decreases items.len(),
{
    if items.len() == 0 {
        Seq::empty()
    } else {
        let rest = record_ids_of(items.drop_first());
        match json_str_get(items[0], "character_id"@) {
            Some(cid) => seq![cid] + rest,
            None => rest,
        }
    }
}

/// Reads the identifiers out of a stored list of character records,
/// skipping records without one; anything that is not a list holds no
/// identifiers.
pub fn character_ids_of_list(v: &JsonValue) -> (r: Vec<String>)
    ensures
        match *v {
            JsonValue::Arr(items) => r.deep_view() == record_ids_of(items@),
            _ => r.deep_view() == Seq::<Seq<char>>::empty(),
        },
{
    let mut out: Vec<String> = Vec::new();
    proof {
        assert(out.deep_view() =~= Seq::<Seq<char>>::empty());
    }
    match v {
        JsonValue::Arr(items) => {
            let n = items.len();
            let mut i: usize = n;
            proof {
                assert(items@.skip(n as int) =~= Seq::<JsonValue>::empty());
            }
            while i > 0
                invariant
                    n == items@.len(),
                    i <= n,
                    out.deep_view() == record_ids_of(items@.skip(i as int)),
                decreases i,
            {
                i = i - 1;
                proof {
                    assert(items@.skip(i as int)[0] == items@[i as int]);
                    assert(items@.skip(i as int).drop_first() =~= items@.skip(i + 1));
                }
                match str_get(&items[i], "character_id") {
                    Some(cid) => {
                        let ghost before = out.deep_view();
                        out.insert(0, cid.clone());
                        proof {
                            assert(out.deep_view() =~= seq![cid@] + before);
                        }
                    },
                    None => {},
                }
            }
            proof {
                assert(items@.skip(0) =~= items@);
            }
        },
        _ => {},
    }
    out
}

/// The file ending an upload is declared with: what follows the last
/// dot of the path, or the whole path when it has no dot (the original
/// segment order of the path, read from its end).
pub open spec fn extension_of(path: Seq<char>) -> Seq<char>
    decreases path.len(),
{
    if path.len() == 0 {
        Seq::empty()
    } else if path.last() == '.' {
        Seq::empty()
    } else if exists|i: int| 0 <= i < path.len() && path[i] == '.' {
        extension_of(path.drop_last()).push(path.last())
    } else {
        path
    }
}

/// Reads the extension off a path: the segment after the last dot, or
/// the whole path when no dot occurs.
pub fn file_extension(path: &str) -> (r: String)
    ensures
        r@ == extension_of(path@),
{
    let n = path.unicode_len();
    let mut i: usize = n;
    while i > 0
        invariant
            n == path@.len(),
            i <= n,
            forall|j: int| i <= j < n ==> path@[j] != '.',
        decreases i,
    {
        if path.get_char(i - 1) == '.' {
            let r = String::from_str(path.substring_char(i, n));
            proof {
                lemma_extension_after_dot(path@, i as int);
            }
            return r;
        }
        i = i - 1;
    }
    let r = String::from_str(path.substring_char(0, n));
    proof {
        assert(path@.subrange(0, n as int) =~= path@);
        lemma_extension_no_dot(path@);
    }
    r
}

/// When a path has no dot, its extension is the path itself.
proof fn lemma_extension_no_dot(path: Seq<char>)
    requires
        forall|j: int| 0 <= j < path.len() ==> path[j] != '.',
    ensures
        extension_of(path) == path,
    decreases path.len(),
{
    if path.len() > 0 {
        assert(path.last() != '.');
        assert(!(exists|i: int| 0 <= i < path.len() && path[i] == '.'));
    }
}

/// When the last dot of a path stands just before position `i`, the
/// extension is everything from `i` on.
proof fn lemma_extension_after_dot(path: Seq<char>, i: int)
    requires
        0 < i <= path.len(),
        path[i - 1] == '.',
        forall|j: int| i <= j < path.len() ==> path[j] != '.',
    ensures
        extension_of(path) == path.subrange(i, path.len() as int),
    decreases path.len() - i,
{
    if i == path.len() {
        assert(path.last() == '.');
        assert(path.subrange(i, path.len() as int) =~= Seq::<char>::empty());
    } else {
        assert(path.last() != '.');
        assert(path[i - 1] == '.');
        assert(exists|k: int| 0 <= k < path.len() && path[k] == '.');
        lemma_extension_after_dot(path.drop_last(), i);
        assert(path.drop_last().subrange(i, path.drop_last().len() as int).push(path.last())
            =~= path.subrange(i, path.len() as int));
    }
}

} // verus!
