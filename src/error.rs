use vstd::prelude::*;

verus! {

/// Every failure that the session engine reports.
#[derive(Debug, Clone, Copy, PartialEq, Eq, Structural)]
pub enum SmuxError {
    /// An operation was attempted after the session closed.
    SessionClosed,
    /// A peer opened a stream whose id is already registered.
    StreamAlreadyExists(u32),
    /// A peer used id zero or an id of the local parity.
    InvalidPeerStreamId(u32),
    /// The local stream id counter has no ids left.
    IdExhausted,
    /// A frame on the wire is malformed or larger than allowed.
    DecodeError,
    /// The underlying transport failed to read or write.
    TransportIo,
}

} // verus!
