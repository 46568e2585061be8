use vstd::prelude::*;

verus! {

/// Failures of the stream connection itself.  Each one is fatal to the
/// owning connection: the receive loop stops and a fresh transport must
/// be constructed to reconnect.
#[derive(Clone, Copy, Debug, PartialEq, Eq, Structural)]
pub enum TransportError {
    /// The handshake could not complete.
    Unreachable,
    /// A frame could not be turned into wire bytes.
    SerializationFailed,
    /// The peer closed the stream, a malformed frame arrived, or the
    /// transport was used outside its `Connected` state.
    Closed,
}

/// Non-fatal faults of a single inbound frame: the frame is dropped and
/// the receive loop continues.
#[derive(Clone, Copy, Debug, PartialEq, Eq, Structural)]
pub enum ProtocolError {
    /// The frame's `type` tag is absent or not in the routing table.
    UnknownType,
    /// An `action` frame carries a subtype no handler is registered for.
    UnknownSubtype,
}

/// Failures of one group-resolution call.  They are local to that call
/// and never corrupt the cache: no entry is written on failure.
#[derive(Clone, Copy, Debug, PartialEq, Eq, Structural)]
pub enum CacheError {
    /// Inbound resolution was asked for without a channel id.
    MissingChannelId,
    /// The remote group-creation call failed; a later call with the
    /// same recipient list retries creation.
    RemoteCreateFailed,
    /// Waiting for the direction's lock was given up.
    LockTimeout,
}

/// Any non-success response from the remote group-management API or the
/// credential and upload collaborators.  Never retried internally.
#[derive(Clone, Copy, Debug, PartialEq, Eq, Structural)]
pub enum RemoteError {
    /// The remote endpoint answered with a non-success status.
    RequestFailed,
    /// The remote answer did not carry the field the caller needs.
    MalformedResponse,
}

impl TransportError {
    /// A short description, for callers that log failures.
    pub fn describe(&self) -> (r: &'static str)
        ensures
            *self == TransportError::Unreachable ==> r@ == "unreachable"@,
            *self == TransportError::SerializationFailed ==> r@ == "serialization failed"@,
            *self == TransportError::Closed ==> r@ == "closed"@,
    {
        match self {
            TransportError::Unreachable => "unreachable",
            TransportError::SerializationFailed => "serialization failed",
            TransportError::Closed => "closed",
        }
    }
}

} // verus!
