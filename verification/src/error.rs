use vstd::prelude::*;

verus! {

/// Every way a handshake attempt can fail.  A decode-time error aborts the
/// current attempt at once and is surfaced to the caller; retry policy lives
/// outside this crate.
#[derive(Clone, Copy, Debug, PartialEq, Eq, Structural)]
pub enum HandshakeError {
    /// The peer closed the channel, or the transport failed, before the
    /// expected number of bytes arrived.
    ConnectionClosed,
    /// The header's magic field does not match the expected network constant.
    WrongNetwork,
    /// The header's command field is not ASCII or is not NUL-padded.
    MalformedHeader,
    /// The checksum recomputed over the received payload differs from the
    /// header's checksum field.
    ChecksumMismatch,
    /// A message arrived whose command is not the one the current handshake
    /// step expects.
    UnexpectedMessage,
    /// The peer broke the fixed four-step handshake order, or sent a payload
    /// that does not parse as the expected message body.
    ProtocolViolation,
    /// An on-wire network address is shorter than its fixed encoding.
    MalformedAddress,
    /// Caller misuse: a command name longer than the twelve-byte field.
    CommandTooLong,
}

} // verus!
