//! Typed failures of the codec, the packet model and the handshake steps.

use vstd::prelude::*;

verus! {

/// Every recoverable failure the library reports.
///
/// Transport failures (bind, send, receive) happen at the socket boundary,
/// outside this library; the caller surfaces them itself.
#[derive(Clone, Copy, Debug, PartialEq, Eq)]
pub enum RaknetError {
    /// A buffer ended before a field's declared width (framing).
    NotEnoughData,
    /// A length-prefixed string's payload is not valid UTF-8 (framing).
    InvalidUtf8,
    /// A string's UTF-8 byte length does not fit the 16-bit length prefix.
    StringTooLong,
    /// A datagram is too long for its length to stand for an MTU probe.
    DatagramTooLarge,
    /// The peer only supports the protocol version carried here.
    ProtocolMismatch(u8),
    /// A reply's leading tag is not one expected at the current step.
    UnexpectedPacket(u8),
}

} // verus!
