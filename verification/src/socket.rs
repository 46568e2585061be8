use vstd::prelude::*;
use vstd::string::*;
use crate::errors::TransportError;
use crate::json::{JsonValue, json_text, encode_json};
use crate::frames::{
    service_login_shape, update_character_list_shape, update_buttons_shape, message_up_shape,
    message_down_shape, service_login_frame, update_character_list_frame, update_buttons_frame,
    message_up_frame, message_down_frame,
};

verus! {

/// The life of one connection.  `Closed` is terminal: no method leads
/// out of it, and a new transport must be constructed to reconnect.
#[derive(Clone, Copy, Debug, PartialEq, Eq, Structural)]
pub enum ConnectionState {
    Disconnected,
    Connecting,
    Connected,
    Closed,
}

/// One low-level event the owner of the stream pulls off the wire and
/// hands to `receive_event`: a text or binary message, a keep-alive
/// control frame, the peer's close frame, or the end of the stream.
#[derive(Debug)]
pub enum WireEvent {
    Text(String),
    Binary(Vec<u8>),
    Ping,
    Pong,
    Close,
    Ended,
}

/// What one wire event means to the receive loop: a complete
/// application frame to decode and route, nothing (a keep-alive was
/// consumed transparently), or the connection's terminal failure.
#[derive(Debug)]
pub enum RecvStep {
    Deliver(String),
    DeliverBytes(Vec<u8>),
    Continue,
    Failed(TransportError),
}

/// The connection state after one wire event: keep-alives and frames
/// leave a connected transport connected, the peer's close or the end
/// of the stream closes it, and every other state stays as it is (the
/// call fails there without a transition).
pub open spec fn recv_next_state(s: ConnectionState, ev: WireEvent) -> ConnectionState {
    if s != ConnectionState::Connected {
        s
    } else {
        match ev {
            WireEvent::Close | WireEvent::Ended => ConnectionState::Closed,
            _ => ConnectionState::Connected,
        }
    }
}

/// Law: `Closed` is terminal.  No wire event leads a closed transport
/// anywhere else, so after a close every receive fails deterministically.
pub proof fn lemma_closed_is_terminal(ev: WireEvent)
    ensures
        recv_next_state(ConnectionState::Closed, ev) == ConnectionState::Closed,
{
}

/// Relies on `uuid::Uuid::new_v4`, displayed in its hyphenated form: a
/// fresh random identifier, 36 characters long.
#[verifier::external_body]
fn new_request_id() -> (r: String)
    ensures
        r@.len() == 36,
{
    uuid::Uuid::new_v4().to_string()
}

/// Relies on `SystemTime::elapsed` of `std::time::UNIX_EPOCH`: the
/// time since the epoch, in milliseconds, or nothing if the clock
/// stands before the epoch.  Nothing further can be promised of a
/// clock reading.
#[verifier::external_body]
fn now_millis() -> (r: Option<u64>)
    ensures
        true,
{
    match std::time::UNIX_EPOCH.elapsed() {
        Ok(d) => Some(d.as_millis() as u64),
        Err(_) => None,
    }
}

/// The codec: pure translation between a structured value and its wire
/// bytes, kept apart from the transport so another wire format could
/// stand in its place.
pub struct JsonProtocol;

impl JsonProtocol {
    /// The wire bytes of one value: its text, UTF-8 encoded.
    pub fn serialize(&self, obj: &JsonValue) -> (r: Result<Vec<u8>, TransportError>)
        ensures
            r matches Ok(b) && b@ == vstd::utf8::encode_utf8(json_text(*obj)),
    {
        let text = encode_json(obj);
        Ok(text.as_str().as_bytes_vec())
    }
}

/// The owner of one persistent duplex connection, modelled by its
/// state machine.  The actual stream I/O lives with the caller, who
/// reports handshake results and wire events here and writes out the
/// texts this type hands back; exactly one loop at a time may drive
/// `receive_event`, and sends must be serialized at the call site.
pub struct WebSocket {
    state: ConnectionState,
}

impl WebSocket {
    /// The point this connection has reached in its life.
    pub closed spec fn connection_state(&self) -> ConnectionState {
        self.state
    }

    /// A fresh transport, not yet connected.
    pub fn new() -> (r: Self)
        ensures
            r.connection_state() == ConnectionState::Disconnected,
    {
        WebSocket { state: ConnectionState::Disconnected }
    }

    /// The current state, for the owner's loop.
    pub fn state(&self) -> (r: ConnectionState)
        ensures
            r == self.connection_state(),
    {
        self.state
    }

    /// Starts the handshake.  Only a fresh transport may connect; any
    /// other state is an error and nothing changes.
    pub fn begin_connect(&mut self) -> (r: Result<(), TransportError>)
        ensures
            old(self).connection_state() == ConnectionState::Disconnected ==> final(self).connection_state() == ConnectionState::Connecting && r is Ok,
            old(self).connection_state() != ConnectionState::Disconnected ==> final(self).connection_state() == old(self).connection_state() && r == Err::<
                (),
                TransportError,
            >(TransportError::Unreachable),
    {
        match self.state {
            ConnectionState::Disconnected => {
                self.state = ConnectionState::Connecting;
                Ok(())
            },
            _ => Err(TransportError::Unreachable),
        }
    }

    /// Ends the handshake: success makes the transport connected, and
    /// failure closes it for good.  In any other state the call is an
    /// error and nothing changes.
    pub fn complete_connect(&mut self, handshake_ok: bool) -> (r: Result<(), TransportError>)
        ensures
            old(self).connection_state() == ConnectionState::Connecting && handshake_ok ==> final(self).connection_state() == ConnectionState::Connected && r is Ok,
            old(self).connection_state() == ConnectionState::Connecting && !handshake_ok ==> final(self).connection_state() == ConnectionState::Closed && r == Err::<
                (),
                TransportError,
            >(TransportError::Unreachable),
            old(self).connection_state() != ConnectionState::Connecting ==> final(self).connection_state() == old(self).connection_state() && r == Err::<
                (),
                TransportError,
            >(TransportError::Unreachable),
    {
        match self.state {
            ConnectionState::Connecting => {
                if handshake_ok {
                    self.state = ConnectionState::Connected;
                    Ok(())
                } else {
                    self.state = ConnectionState::Closed;
                    Err(TransportError::Unreachable)
                }
            },
            _ => Err(TransportError::Unreachable),
        }
    }

    /// Ends the connection deliberately.
    pub fn shutdown(&mut self)
        ensures
            final(self).connection_state() == ConnectionState::Closed,
    {
        self.state = ConnectionState::Closed;
    }

    /// Encodes one frame for the wire.  Only a connected transport may
    /// send; anywhere else the call fails deterministically, before and
    /// after the connection alike.
    pub fn send(&self, frame: &JsonValue) -> (r: Result<String, TransportError>)
        ensures
            self.connection_state() == ConnectionState::Connected ==> (r matches Ok(text) && text@
                == json_text(*frame)),
            self.connection_state() != ConnectionState::Connected ==> r == Err::<
                String,
                TransportError,
            >(TransportError::Closed),
    {
        match self.state {
            ConnectionState::Connected => Ok(encode_json(frame)),
            _ => Err(TransportError::Closed),
        }
    }

    /// Takes one wire event: keep-alives are consumed without being
    /// handed to the caller, a close or the end of the stream is the
    /// terminal failure, and a message is delivered for decoding.
    /// Outside the connected state the call fails deterministically.
    pub fn receive_event(&mut self, event: WireEvent) -> (r: RecvStep)
        ensures
            final(self).connection_state() == recv_next_state(old(self).connection_state(), event),
            old(self).connection_state() != ConnectionState::Connected ==> r == RecvStep::Failed(
                TransportError::Closed,
            ),
            old(self).connection_state() == ConnectionState::Connected ==> match event {
                WireEvent::Text(t) => r == RecvStep::Deliver(t),
                WireEvent::Binary(b) => r == RecvStep::DeliverBytes(b),
                WireEvent::Ping | WireEvent::Pong => r == RecvStep::Continue,
                WireEvent::Close | WireEvent::Ended => r == RecvStep::Failed(TransportError::Closed),
            },
    {
        match self.state {
            ConnectionState::Connected => match event {
                WireEvent::Text(t) => RecvStep::Deliver(t),
                WireEvent::Binary(b) => RecvStep::DeliverBytes(b),
                WireEvent::Ping | WireEvent::Pong => RecvStep::Continue,
                WireEvent::Close | WireEvent::Ended => {
                    self.state = ConnectionState::Closed;
                    RecvStep::Failed(TransportError::Closed)
                },
            },
            _ => RecvStep::Failed(TransportError::Closed),
        }
    }

    /// Reports that a delivered frame could not be decoded: a protocol
    /// violation, terminal for the connection.
    pub fn on_decode_failure(&mut self) -> (r: TransportError)
        ensures
            final(self).connection_state() == ConnectionState::Closed,
            r == TransportError::Closed,
    {
        self.state = ConnectionState::Closed;
        TransportError::Closed
    }

    /// Builds and encodes the login frame.  On a connected transport
    /// the result is the frame and its wire text, with a fresh request
    /// id; anywhere else the call fails without building anything.
    pub fn service_login(&self, service_id: &str, access_token: &str) -> (r: Result<
        (JsonValue, String),
        TransportError,
    >)
        ensures
            self.connection_state() == ConnectionState::Connected ==> (r matches Ok((frame, text))
                && text@ == json_text(frame) && (exists|rid: Seq<char>|
                rid.len() == 36 && #[trigger] service_login_shape(
                    frame,
                    service_id@,
                    access_token@,
                    rid,
                ))),
            self.connection_state() != ConnectionState::Connected ==> r == Err::<
                (JsonValue, String),
                TransportError,
            >(TransportError::Closed),
    {
        match self.state {
            ConnectionState::Connected => {
                let rid = new_request_id();
                let frame = service_login_frame(service_id, access_token, rid.as_str());
                let text = encode_json(&frame);
                Ok((frame, text))
            },
            _ => Err(TransportError::Closed),
        }
    }

    /// Builds and encodes a character-list update frame.
    pub fn update_character_list(
        &self,
        service_id: &str,
        channel_id: &str,
        characters: &str,
        recipients: &str,
    ) -> (r: Result<(JsonValue, String), TransportError>)
        ensures
            self.connection_state() == ConnectionState::Connected ==> (r matches Ok((frame, text))
                && text@ == json_text(frame) && (exists|rid: Seq<char>|
                rid.len() == 36 && #[trigger] update_character_list_shape(
                    frame,
                    service_id@,
                    channel_id@,
                    characters@,
                    recipients@,
                    rid,
                ))),
            self.connection_state() != ConnectionState::Connected ==> r == Err::<
                (JsonValue, String),
                TransportError,
            >(TransportError::Closed),
    {
        match self.state {
            ConnectionState::Connected => {
                let rid = new_request_id();
                let frame = update_character_list_frame(
                    service_id,
                    channel_id,
                    characters,
                    recipients,
                    rid.as_str(),
                );
                let text = encode_json(&frame);
                Ok((frame, text))
            },
            _ => Err(TransportError::Closed),
        }
    }

    /// Builds and encodes a button update frame.
    pub fn update_buttons(
        &self,
        service_id: &str,
        channel_id: &str,
        buttons: Vec<JsonValue>,
        recipients: &str,
    ) -> (r: Result<(JsonValue, String), TransportError>)
        ensures
            self.connection_state() == ConnectionState::Connected ==> (r matches Ok((frame, text))
                && text@ == json_text(frame) && (exists|rid: Seq<char>|
                rid.len() == 36 && #[trigger] update_buttons_shape(
                    frame,
                    service_id@,
                    channel_id@,
                    buttons@,
                    recipients@,
                    rid,
                ))),
            self.connection_state() != ConnectionState::Connected ==> r == Err::<
                (JsonValue, String),
                TransportError,
            >(TransportError::Closed),
    {
        match self.state {
            ConnectionState::Connected => {
                let rid = new_request_id();
                let frame = update_buttons_frame(
                    service_id,
                    channel_id,
                    buttons,
                    recipients,
                    rid.as_str(),
                );
                let text = encode_json(&frame);
                Ok((frame, text))
            },
            _ => Err(TransportError::Closed),
        }
    }

    /// Builds and encodes a client-to-channel message frame.  An empty
    /// recipient list is a deliberate no-op: nothing is built and
    /// nothing is to be sent.  The timestamp comes from the clock; a
    /// clock before the epoch fails the call.
    pub fn message_up(
        &self,
        user_id: &str,
        service_id: &str,
        channel_id: &str,
        recipients: &Vec<String>,
        subtype: &str,
        content: JsonValue,
    ) -> (r: Result<Option<(JsonValue, String)>, TransportError>)
        ensures
            self.connection_state() != ConnectionState::Connected ==> r == Err::<
                Option<(JsonValue, String)>,
                TransportError,
            >(TransportError::Closed),
            self.connection_state() == ConnectionState::Connected && recipients@.len() == 0 ==> r
                == Ok::<Option<(JsonValue, String)>, TransportError>(None),
            self.connection_state() == ConnectionState::Connected && recipients@.len() > 0 ==> ({
                ||| r == Err::<Option<(JsonValue, String)>, TransportError>(
                    TransportError::SerializationFailed,
                )
                ||| r matches Ok(Some((frame, text))) && text@ == json_text(frame) && (exists|
                    rid: Seq<char>,
                    ts: u64,
                |
                    rid.len() == 36 && #[trigger] message_up_shape(
                        frame,
                        user_id@,
                        service_id@,
                        channel_id@,
                        recipients.deep_view(),
                        subtype@,
                        content,
                        rid,
                        ts,
                    ))
            }),
    {
        match self.state {
            ConnectionState::Connected => {
                if recipients.len() == 0 {
                    return Ok(None);
                }
                let ts = match now_millis() {
                    Some(t) => t,
                    None => {
                        return Err(TransportError::SerializationFailed);
                    },
                };
                let rid = new_request_id();
                let frame = message_up_frame(
                    user_id,
                    service_id,
                    channel_id,
                    recipients,
                    subtype,
                    content,
                    rid.as_str(),
                    ts,
                );
                let text = encode_json(&frame);
                Ok(Some((frame, text)))
            },
            _ => Err(TransportError::Closed),
        }
    }

    /// Builds and encodes a service-to-recipients message frame, the
    /// recipients given as an already resolved group id.  An empty
    /// group id is the empty-recipients no-op: nothing is built.
    pub fn message_down(
        &self,
        service_id: &str,
        channel_id: &str,
        recipients: &str,
        subtype: &str,
        content: &str,
        sender: &str,
    ) -> (r: Result<Option<(JsonValue, String)>, TransportError>)
        ensures
            self.connection_state() != ConnectionState::Connected ==> r == Err::<
                Option<(JsonValue, String)>,
                TransportError,
            >(TransportError::Closed),
            self.connection_state() == ConnectionState::Connected && recipients@.len() == 0 ==> r
                == Ok::<Option<(JsonValue, String)>, TransportError>(None),
            self.connection_state() == ConnectionState::Connected && recipients@.len() > 0 ==> ({
                ||| r == Err::<Option<(JsonValue, String)>, TransportError>(
                    TransportError::SerializationFailed,
                )
                ||| r matches Ok(Some((frame, text))) && text@ == json_text(frame) && (exists|
                    rid: Seq<char>,
                    ts: u64,
                |
                    rid.len() == 36 && #[trigger] message_down_shape(
                        frame,
                        service_id@,
                        channel_id@,
                        recipients@,
                        subtype@,
                        content@,
                        sender@,
                        rid,
                        ts,
                    ))
            }),
    {
        match self.state {
            ConnectionState::Connected => {
                if recipients.unicode_len() == 0 {
                    return Ok(None);
                }
                let ts = match now_millis() {
                    Some(t) => t,
                    None => {
                        return Err(TransportError::SerializationFailed);
                    },
                };
                let rid = new_request_id();
                let frame = message_down_frame(
                    service_id,
                    channel_id,
                    recipients,
                    subtype,
                    content,
                    sender,
                    rid.as_str(),
                    ts,
                );
                let text = encode_json(&frame);
                Ok(Some((frame, text)))
            },
            _ => Err(TransportError::Closed),
        }
    }
}

} // verus!
