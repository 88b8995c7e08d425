use crate::address::{
    encode_address, spec_decode_address, spec_encode_address, NetworkAddress, NetworkAddressView,
};
use crate::compactsize::{
    decode_compact_size, encode_compact_size, lemma_compact_size_round_trip,
    spec_decode_compact_size, spec_encode_compact_size,
};
use crate::error::HandshakeError;
use vstd::bytes::{
    lemma_auto_spec_u32_to_from_le_bytes, lemma_auto_spec_u64_to_from_le_bytes,
    spec_u32_from_le_bytes, spec_u32_to_le_bytes, spec_u64_from_le_bytes, spec_u64_to_le_bytes,
    u32_from_le_bytes, u32_to_le_bytes, u64_from_le_bytes, u64_to_le_bytes,
};
use vstd::prelude::*;
use vstd::slice::{slice_index_get, slice_subrange, slice_to_vec};

verus! {

/// First protocol version whose version payload carries the trailing relay
/// flag byte.
pub const RELAY_PROTOCOL_VERSION: i32 = 70001;

/// Signed 32-bit fields travel as the little-endian bytes of their two's
/// complement image.
pub open spec fn spec_i32_to_le_bytes(x: i32) -> Seq<u8> {
    spec_u32_to_le_bytes(x as u32)
}

pub open spec fn spec_i32_from_le_bytes(s: Seq<u8>) -> i32
    recommends
        s.len() == 4,
{
    spec_u32_from_le_bytes(s) as i32
}

pub open spec fn spec_i64_to_le_bytes(x: i64) -> Seq<u8> {
    spec_u64_to_le_bytes(x as u64)
}

pub open spec fn spec_i64_from_le_bytes(s: Seq<u8>) -> i64
    recommends
        s.len() == 8,
{
    spec_u64_from_le_bytes(s) as i64
}

pub proof fn lemma_auto_i32_to_from_le_bytes()
    ensures
        forall|x: i32|
            {
                &&& (#[trigger] spec_i32_to_le_bytes(x)).len() == 4
                &&& spec_i32_from_le_bytes(spec_i32_to_le_bytes(x)) == x
            },
{
    lemma_auto_spec_u32_to_from_le_bytes();
    assert forall|x: i32|
        {
            &&& (#[trigger] spec_i32_to_le_bytes(x)).len() == 4
            &&& spec_i32_from_le_bytes(spec_i32_to_le_bytes(x)) == x
        } by {
        assert((x as u32) as i32 == x) by (bit_vector);
    };
}

pub proof fn lemma_auto_i64_to_from_le_bytes()
    ensures
        forall|x: i64|
            {
                &&& (#[trigger] spec_i64_to_le_bytes(x)).len() == 8
                &&& spec_i64_from_le_bytes(spec_i64_to_le_bytes(x)) == x
            },
{
    lemma_auto_spec_u64_to_from_le_bytes();
    assert forall|x: i64|
        {
            &&& (#[trigger] spec_i64_to_le_bytes(x)).len() == 8
            &&& spec_i64_from_le_bytes(spec_i64_to_le_bytes(x)) == x
        } by {
        assert((x as u64) as i64 == x) by (bit_vector);
    };
}

pub fn i32_to_le_bytes(x: i32) -> (r: Vec<u8>)
    ensures
        r@ == spec_i32_to_le_bytes(x),
        r@.len() == 4,
{
    proof {
        lemma_auto_spec_u32_to_from_le_bytes();
    }
    u32_to_le_bytes(#[verifier::truncate] (x as u32))
}

pub fn i32_from_le_bytes(s: &[u8]) -> (x: i32)
    requires
        s@.len() == 4,
    ensures
        x == spec_i32_from_le_bytes(s@),
{
    #[verifier::truncate] (u32_from_le_bytes(s) as i32)
}

pub fn i64_to_le_bytes(x: i64) -> (r: Vec<u8>)
    ensures
        r@ == spec_i64_to_le_bytes(x),
        r@.len() == 8,
{
    proof {
        lemma_auto_spec_u64_to_from_le_bytes();
    }
    u64_to_le_bytes(#[verifier::truncate] (x as u64))
}

pub fn i64_from_le_bytes(s: &[u8]) -> (x: i64)
    requires
        s@.len() == 8,
    ensures
        x == spec_i64_from_le_bytes(s@),
{
    #[verifier::truncate] (u64_from_le_bytes(s) as i64)
}

/// Mathematical model of a version payload.
#[verifier::ext_equal]
pub struct VersionPayloadView {
    pub protocol_version: i32,
    pub services: u64,
    pub timestamp: i64,
    pub addr_recv: NetworkAddressView,
    pub addr_from: NetworkAddressView,
    pub nonce: u64,
    pub user_agent: Seq<u8>,
    pub start_height: i32,
    pub relay: bool,
}

impl VersionPayloadView {
    /// Both addresses carry their sixteen bytes; the relay flag can only be
    /// set at protocol versions that put it on the wire; the user agent is
    /// short enough that the whole payload length fits the header's u32
    /// field.
    pub open spec fn valid(self) -> bool {
        &&& self.addr_recv.well_formed()
        &&& self.addr_from.well_formed()
        &&& (self.protocol_version < RELAY_PROTOCOL_VERSION ==> !self.relay)
        &&& self.user_agent.len() <= 0xffffff00
    }
}

/// The capability announcement exchanged first in the handshake.  Created
/// once per outbound attempt, immutable after construction.
#[derive(Debug, Clone, PartialEq, Eq)]
pub struct VersionPayload {
    pub protocol_version: i32,
    pub services: u64,
    pub timestamp: i64,
    pub addr_recv: NetworkAddress,
    pub addr_from: NetworkAddress,
    pub nonce: u64,
    pub user_agent: Vec<u8>,
    pub start_height: i32,
    pub relay: bool,
}

impl View for VersionPayload {
    type V = VersionPayloadView;

    open spec fn view(&self) -> VersionPayloadView {
        VersionPayloadView {
            protocol_version: self.protocol_version,
            services: self.services,
            timestamp: self.timestamp,
            addr_recv: self.addr_recv@,
            addr_from: self.addr_from@,
            nonce: self.nonce,
            user_agent: self.user_agent@,
            start_height: self.start_height,
            relay: self.relay,
        }
    }
}

/// The byte the relay flag travels as, when it travels at all.
pub open spec fn spec_relay_bytes(v: VersionPayloadView) -> Seq<u8> {
    if v.protocol_version >= RELAY_PROTOCOL_VERSION {
        seq![if v.relay { 1u8 } else { 0u8 }]
    } else {
        Seq::<u8>::empty()
    }
}

/// Field order of the wire form, fixed by the protocol: version, services,
/// timestamp, recipient address, sender address, nonce, length-prefixed
/// user agent, start height, and the version-gated relay flag.
pub open spec fn spec_encode_version(v: VersionPayloadView) -> Seq<u8> {
    spec_i32_to_le_bytes(v.protocol_version) + spec_u64_to_le_bytes(v.services)
        + spec_i64_to_le_bytes(v.timestamp) + spec_encode_address(v.addr_recv)
        + spec_encode_address(v.addr_from) + spec_u64_to_le_bytes(v.nonce)
        + spec_encode_compact_size(v.user_agent.len() as u64) + v.user_agent
        + spec_i32_to_le_bytes(v.start_height) + spec_relay_bytes(v)
}

/// Exact inverse of `spec_encode_version`: the fixed 80-byte head, the
/// user-agent length prefix, then exactly the announced user agent, the
/// start height, and the relay byte when the decoded protocol version asks
/// for it.  Anything else is a protocol violation.
pub open spec fn spec_decode_version(b: Seq<u8>) -> Result<VersionPayloadView, HandshakeError> {
    if b.len() < 81 {
        Err(HandshakeError::ProtocolViolation)
    } else {
        match spec_decode_compact_size(b.skip(80)) {
            None => Err(HandshakeError::ProtocolViolation),
            Some((ua_len, cs_len)) => {
                let pv = spec_i32_from_le_bytes(b.subrange(0, 4));
                let relay_len: int = if pv >= RELAY_PROTOCOL_VERSION {
                    1
                } else {
                    0
                };
                let ua_start = 80 + cs_len;
                if b.len() != ua_start + ua_len + 4 + relay_len {
                    Err(HandshakeError::ProtocolViolation)
                } else if relay_len == 1 && b[b.len() - 1] != 0 && b[b.len() - 1] != 1 {
                    Err(HandshakeError::ProtocolViolation)
                } else {
                    Ok(
                        VersionPayloadView {
                            protocol_version: pv,
                            services: spec_u64_from_le_bytes(b.subrange(4, 12)),
                            timestamp: spec_i64_from_le_bytes(b.subrange(12, 20)),
                            addr_recv: spec_decode_address(b.subrange(20, 46)) ->Ok_0,
                            addr_from: spec_decode_address(b.subrange(46, 72)) ->Ok_0,
                            nonce: spec_u64_from_le_bytes(b.subrange(72, 80)),
                            user_agent: b.subrange(ua_start, ua_start + ua_len),
                            start_height: spec_i32_from_le_bytes(
                                b.subrange(ua_start + ua_len, ua_start + ua_len + 4),
                            ),
                            relay: relay_len == 1 && b[b.len() - 1] == 1,
                        },
                    )
                }
            },
        }
    }
}

/// Serializes a version payload in the fixed field order.
pub fn encode_version(v: &VersionPayload) -> (r: Vec<u8>)
    requires
        v@.valid(),
    ensures
        r@ == spec_encode_version(v@),
        r@.len() <= 0xffffffff,
{
    proof {
        lemma_auto_i32_to_from_le_bytes();
        lemma_auto_i64_to_from_le_bytes();
        lemma_auto_spec_u64_to_from_le_bytes();
    }
    let mut r = i32_to_le_bytes(v.protocol_version);
    let mut services = u64_to_le_bytes(v.services);
    r.append(&mut services);
    let mut timestamp = i64_to_le_bytes(v.timestamp);
    r.append(&mut timestamp);
    let mut addr_recv = encode_address(&v.addr_recv);
    r.append(&mut addr_recv);
    let mut addr_from = encode_address(&v.addr_from);
    r.append(&mut addr_from);
    let mut nonce = u64_to_le_bytes(v.nonce);
    r.append(&mut nonce);
    let mut ua_len = encode_compact_size(v.user_agent.len() as u64);
    r.append(&mut ua_len);
    r.extend_from_slice(v.user_agent.as_slice());
    let mut height = i32_to_le_bytes(v.start_height);
    r.append(&mut height);
    if v.protocol_version >= RELAY_PROTOCOL_VERSION {
        r.push(if v.relay {
            1u8
        } else {
            0u8
        });
    }
    proof {
        assert(r@ =~= spec_encode_version(v@));
    }
    r
}

/// Parses a version payload; a successful parse always carries well-formed
/// addresses and a relay flag consistent with its protocol version.
pub fn decode_version(b: &[u8]) -> (r: Result<VersionPayload, HandshakeError>)
    ensures
        match r {
            Ok(v) => spec_decode_version(b@) == Ok::<VersionPayloadView, HandshakeError>(v@)
                && v@.addr_recv.well_formed() && v@.addr_from.well_formed() && (
            v@.protocol_version < RELAY_PROTOCOL_VERSION ==> !v@.relay),
            Err(e) => spec_decode_version(b@) == Err::<VersionPayloadView, HandshakeError>(e),
        },
{
    proof {
        lemma_auto_i32_to_from_le_bytes();
        lemma_auto_i64_to_from_le_bytes();
        lemma_auto_spec_u64_to_from_le_bytes();
    }
    if b.len() < 81 {
        return Err(HandshakeError::ProtocolViolation);
    }
    let tail = slice_subrange(b, 80, b.len());
    let cs = decode_compact_size(tail);
    proof {
        assert(b@.skip(80) =~= tail@);
    }
    match cs {
        None => Err(HandshakeError::ProtocolViolation),
        Some((ua_len, cs_len)) => {
            let pv = i32_from_le_bytes(slice_subrange(b, 0, 4));
            let relay_len: usize = if pv >= RELAY_PROTOCOL_VERSION {
                1
            } else {
                0
            };
            let fixed: usize = 84 + cs_len + relay_len;
            if b.len() < fixed {
                return Err(HandshakeError::ProtocolViolation);
            }
            if ua_len != (b.len() - fixed) as u64 {
                return Err(HandshakeError::ProtocolViolation);
            }
            let ua_start: usize = 80 + cs_len;
            let ua_end: usize = b.len() - 4 - relay_len;
            let relay: bool;
            if relay_len == 1 {
                let rb = *slice_index_get(b, b.len() - 1);
                if rb != 0 && rb != 1 {
                    return Err(HandshakeError::ProtocolViolation);
                }
                relay = rb == 1;
            } else {
                relay = false;
            }
            let services = u64_from_le_bytes(slice_subrange(b, 4, 12));
            let timestamp = i64_from_le_bytes(slice_subrange(b, 12, 20));
            let addr_recv = NetworkAddress {
                services: u64_from_le_bytes(slice_subrange(b, 20, 28)),
                ip: slice_to_vec(slice_subrange(b, 28, 44)),
                port: crate::address::u16_from_be_bytes(slice_subrange(b, 44, 46)),
            };
            let addr_from = NetworkAddress {
                services: u64_from_le_bytes(slice_subrange(b, 46, 54)),
                ip: slice_to_vec(slice_subrange(b, 54, 70)),
                port: crate::address::u16_from_be_bytes(slice_subrange(b, 70, 72)),
            };
            let nonce = u64_from_le_bytes(slice_subrange(b, 72, 80));
            let user_agent = slice_to_vec(slice_subrange(b, ua_start, ua_end));
            let start_height = i32_from_le_bytes(slice_subrange(b, ua_end, ua_end + 4));
            let v = VersionPayload {
                protocol_version: pv,
                services,
                timestamp,
                addr_recv,
                addr_from,
                nonce,
                user_agent,
                start_height,
                relay,
            };
            proof {
                let bb = b@;
                let spec_r = spec_decode_version(bb);
                assert(bb.subrange(20, 46).subrange(0, 8) =~= bb.subrange(20, 28));
                assert(bb.subrange(20, 46).subrange(8, 24) =~= bb.subrange(28, 44));
                assert(bb.subrange(20, 46).subrange(24, 26) =~= bb.subrange(44, 46));
                assert(bb.subrange(46, 72).subrange(0, 8) =~= bb.subrange(46, 54));
                assert(bb.subrange(46, 72).subrange(8, 24) =~= bb.subrange(54, 70));
                assert(bb.subrange(46, 72).subrange(24, 26) =~= bb.subrange(70, 72));
                assert(spec_r is Ok);
                assert(spec_r ->Ok_0 =~= v@);
            }
            Ok(v)
        },
    }
}

/// A valid payload's wire form is at least the 85 minimal bytes and always
/// fits the header's u32 length field.
pub proof fn lemma_encode_version_len(v: VersionPayloadView)
    requires
        v.valid(),
    ensures
        85 <= spec_encode_version(v).len() <= 0xffffffff,
{
    lemma_auto_i32_to_from_le_bytes();
    lemma_auto_i64_to_from_le_bytes();
    lemma_auto_spec_u64_to_from_le_bytes();
    crate::address::lemma_auto_u16_to_from_be_bytes();
    vstd::bytes::lemma_auto_spec_u16_to_from_le_bytes();
    vstd::bytes::lemma_auto_spec_u32_to_from_le_bytes();
    assert(spec_encode_address(v.addr_recv).len() == 26);
    assert(spec_encode_address(v.addr_from).len() == 26);
    assert(1 <= spec_encode_compact_size(v.user_agent.len() as u64).len() <= 9);
    assert(spec_relay_bytes(v).len() <= 1);
}

/// Round trip: decoding an encoded valid version payload yields the payload
/// back, the zero-length user agent included.
pub proof fn lemma_version_round_trip(v: VersionPayloadView)
    requires
        v.valid(),
    ensures
        spec_decode_version(spec_encode_version(v)) == Ok::<VersionPayloadView, HandshakeError>(v),
{
    lemma_auto_i32_to_from_le_bytes();
    lemma_auto_i64_to_from_le_bytes();
    lemma_auto_spec_u64_to_from_le_bytes();
    let e = spec_encode_version(v);
    let ua_len = v.user_agent.len() as u64;
    let cs = spec_encode_compact_size(ua_len);
    let cs_len = cs.len() as int;
    let relay_len: int = if v.protocol_version >= RELAY_PROTOCOL_VERSION {
        1
    } else {
        0
    };
    let rest = v.user_agent + spec_i32_to_le_bytes(v.start_height) + spec_relay_bytes(v);
    assert(e.len() == 80 + cs_len + v.user_agent.len() + 4 + relay_len);
    assert(e.skip(80) =~= cs + rest);
    lemma_compact_size_round_trip(ua_len, rest);
    assert(spec_decode_compact_size(e.skip(80)) == Some((ua_len, cs_len)));
    assert(e.subrange(0, 4) =~= spec_i32_to_le_bytes(v.protocol_version));
    let pv = spec_i32_from_le_bytes(e.subrange(0, 4));
    assert(pv == v.protocol_version);
    let ua_start = 80 + cs_len;
    assert(e.len() == ua_start + ua_len + 4 + relay_len);
    if relay_len == 1 {
        assert(e[e.len() - 1] == (if v.relay {
            1u8
        } else {
            0u8
        }));
    }
    assert(e.subrange(4, 12) =~= spec_u64_to_le_bytes(v.services));
    assert(e.subrange(12, 20) =~= spec_i64_to_le_bytes(v.timestamp));
    assert(e.subrange(20, 46) =~= spec_encode_address(v.addr_recv));
    assert(e.subrange(46, 72) =~= spec_encode_address(v.addr_from));
    assert(e.subrange(72, 80) =~= spec_u64_to_le_bytes(v.nonce));
    assert(e.subrange(ua_start, ua_start + ua_len) =~= v.user_agent);
    assert(e.subrange(ua_start + ua_len, ua_start + ua_len + 4) =~= spec_i32_to_le_bytes(
        v.start_height,
    ));
    crate::address::lemma_address_round_trip(v.addr_recv);
    crate::address::lemma_address_round_trip(v.addr_from);
    assert(spec_decode_version(e) is Ok);
    assert(spec_decode_version(e) ->Ok_0 =~= v);
}

} // verus!
