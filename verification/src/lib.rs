//! Handshake core of a peer-to-peer binary wire protocol: message framing
//! with integrity checksums, address and version-payload codecs, and the
//! sequential version/verack handshake state machine.

pub mod address;
pub mod channel;
pub mod compactsize;
pub mod error;
pub mod handshake;
pub mod hashing;
pub mod message;
pub mod version;
