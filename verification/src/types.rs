use vstd::prelude::*;

verus! {

/// Settings the client is constructed with: where the HTTP API and the
/// stream endpoint live, the account to sign in with, and which service
/// and channels this client works on behalf of.
#[derive(Clone, Debug)]
pub struct Config {
    pub http_server_uri: String,
    pub ws_server_uri: String,
    pub email: String,
    pub password: String,
    pub service_id: Option<String>,
    pub channels: Vec<String>,
}

/// An identity record assigned by the remote service.  The free-form
/// context is kept as an ordered list of key/value pairs of the wire
/// value type.
#[derive(Debug)]
pub struct Character {
    pub character_id: String,
    pub name: String,
    pub avatar: String,
    pub description: String,
    pub character_context: Vec<(String, crate::json::JsonValue)>,
}

/// The payload of one user-visible message: a file name, an optional
/// size, a path, and optional plain text.
#[derive(Debug)]
pub struct MessageContent {
    pub filename: String,
    pub size: Option<u64>,
    pub path: String,
    pub text: Option<String>,
}

/// Which traffic flow a group mapping belongs to: `Outbound` is
/// service-to-many ("message down"), `Inbound` is client-to-channel
/// ("message up").  The two directions keep independent mapping tables.
#[derive(Clone, Copy, Debug, PartialEq, Eq, Structural)]
pub enum Direction {
    Outbound,
    Inbound,
}

} // verus!
