use crate::error::HandshakeError;
use vstd::bytes::{
    lemma_auto_spec_u64_to_from_le_bytes, spec_u64_from_le_bytes, spec_u64_to_le_bytes,
    u64_from_le_bytes, u64_to_le_bytes,
};
use vstd::prelude::*;
use vstd::slice::{slice_index_get, slice_subrange, slice_to_vec};

verus! {

/// On-wire size of a network address in the minimal (time-less) form:
/// 8 service bytes, 16 address bytes, 2 port bytes.
pub const ADDRESS_WIRE_LEN: usize = 26;

/// Big-endian byte pair of a 16-bit value: the port is the one multi-byte
/// field of the protocol in network byte order.
pub open spec fn spec_u16_to_be_bytes(x: u16) -> Seq<u8> {
    seq![((x >> 8) & 0xff) as u8, (x & 0xff) as u8]
}

pub open spec fn spec_u16_from_be_bytes(s: Seq<u8>) -> u16
    recommends
        s.len() == 2,
{
    ((s[0] as u16) << 8) | (s[1] as u16)
}

pub proof fn lemma_auto_u16_to_from_be_bytes()
    ensures
        forall|x: u16|
            {
                &&& (#[trigger] spec_u16_to_be_bytes(x)).len() == 2
                &&& spec_u16_from_be_bytes(spec_u16_to_be_bytes(x)) == x
            },
{
    assert forall|x: u16|
        {
            &&& (#[trigger] spec_u16_to_be_bytes(x)).len() == 2
            &&& spec_u16_from_be_bytes(spec_u16_to_be_bytes(x)) == x
        } by {
        assert({
            &&& (x >> 8) & 0xff < 256
            &&& x & 0xff < 256
        }) by (bit_vector);
        assert(x == ((((x >> 8) & 0xff) as u16) << 8) | ((x & 0xff) as u16)) by (bit_vector);
    };
}

pub fn u16_to_be_bytes(x: u16) -> (r: Vec<u8>)
    ensures
        r@ == spec_u16_to_be_bytes(x),
        r@.len() == 2,
{
    proof {
        assert({
            &&& (x >> 8) & 0xff < 256
            &&& x & 0xff < 256
        }) by (bit_vector);
    }
    let mut r: Vec<u8> = Vec::new();
    r.push(((x >> 8) & 0xff) as u8);
    r.push((x & 0xff) as u8);
    proof {
        assert(r@ =~= spec_u16_to_be_bytes(x));
    }
    r
}

pub fn u16_from_be_bytes(s: &[u8]) -> (x: u16)
    requires
        s@.len() == 2,
    ensures
        x == spec_u16_from_be_bytes(s@),
{
    let b0 = *slice_index_get(s, 0);
    let b1 = *slice_index_get(s, 1);
    ((b0 as u16) << 8) | (b1 as u16)
}

/// Mathematical model of a peer network address.
#[verifier::ext_equal]
pub struct NetworkAddressView {
    pub services: u64,
    pub ip: Seq<u8>,
    pub port: u16,
}

impl NetworkAddressView {
    /// The sixteen address bytes are always stored in full IPv6 form; an
    /// IPv4 address is carried mapped into it.
    pub open spec fn well_formed(self) -> bool {
        self.ip.len() == 16
    }
}

/// A peer network address: a service bitfield, a sixteen-byte address
/// (IPv4 mapped into IPv6 form, or native IPv6), and a port.
/// Constructed fresh per message, not retained.
#[derive(Debug, Clone, PartialEq, Eq)]
pub struct NetworkAddress {
    pub services: u64,
    pub ip: Vec<u8>,
    pub port: u16,
}

impl View for NetworkAddress {
    type V = NetworkAddressView;

    open spec fn view(&self) -> NetworkAddressView {
        NetworkAddressView { services: self.services, ip: self.ip@, port: self.port }
    }
}

/// The sixteen-byte form of an IPv4 address: ten zero bytes, two 0xFF
/// marker bytes, then the four address octets.
pub open spec fn spec_ipv4_mapped(o0: u8, o1: u8, o2: u8, o3: u8) -> Seq<u8> {
    seq![0u8, 0u8, 0u8, 0u8, 0u8, 0u8, 0u8, 0u8, 0u8, 0u8, 0xffu8, 0xffu8, o0, o1, o2, o3]
}

impl NetworkAddress {
    /// Builds an address holding an IPv4 address in its mapped form.
    pub fn new_ipv4(services: u64, o0: u8, o1: u8, o2: u8, o3: u8, port: u16) -> (r:
        NetworkAddress)
        ensures
            r@.well_formed(),
            r@.services == services,
            r@.port == port,
            r@.ip == spec_ipv4_mapped(o0, o1, o2, o3),
    {
        let mut ip: Vec<u8> = Vec::new();
        let mut i: usize = 0;
        while i < 10
            invariant
                i <= 10,
                ip@ =~= Seq::new(i as nat, |j: int| 0u8),
            decreases 10 - i,
        {
            ip.push(0u8);
            i = i + 1;
        }
        ip.push(0xffu8);
        ip.push(0xffu8);
        ip.push(o0);
        ip.push(o1);
        ip.push(o2);
        ip.push(o3);
        proof {
            assert(ip@ =~= spec_ipv4_mapped(o0, o1, o2, o3));
        }
        NetworkAddress { services, ip, port }
    }

    /// Builds an address from sixteen native IPv6 bytes.
    pub fn new_ipv6(services: u64, ip: Vec<u8>, port: u16) -> (r: NetworkAddress)
        requires
            ip@.len() == 16,
        ensures
            r@.well_formed(),
            r@.services == services,
            r@.port == port,
            r@.ip == ip@,
    {
        NetworkAddress { services, ip, port }
    }
}

/// The 26-byte wire form: services little-endian, the sixteen address bytes
/// unchanged, the port big-endian.
pub open spec fn spec_encode_address(a: NetworkAddressView) -> Seq<u8> {
    spec_u64_to_le_bytes(a.services) + a.ip + spec_u16_to_be_bytes(a.port)
}

/// Exact inverse of the wire form; anything but exactly 26 bytes is
/// malformed.
pub open spec fn spec_decode_address(b: Seq<u8>) -> Result<NetworkAddressView, HandshakeError> {
    if b.len() != ADDRESS_WIRE_LEN {
        Err(HandshakeError::MalformedAddress)
    } else {
        Ok(
            NetworkAddressView {
                services: spec_u64_from_le_bytes(b.subrange(0, 8)),
                ip: b.subrange(8, 24),
                port: spec_u16_from_be_bytes(b.subrange(24, 26)),
            },
        )
    }
}

/// Encodes an address into its fixed 26-byte wire form.
pub fn encode_address(a: &NetworkAddress) -> (r: Vec<u8>)
    requires
        a@.well_formed(),
    ensures
        r@ == spec_encode_address(a@),
        r@.len() == ADDRESS_WIRE_LEN,
{
    proof {
        lemma_auto_spec_u64_to_from_le_bytes();
    }
    let mut r = u64_to_le_bytes(a.services);
    r.extend_from_slice(a.ip.as_slice());
    let port = u16_to_be_bytes(a.port);
    r.extend_from_slice(port.as_slice());
    proof {
        assert(r@ =~= spec_encode_address(a@));
    }
    r
}

/// Decodes the fixed 26-byte wire form; fails with `MalformedAddress` when
/// the byte count is not exactly 26.
pub fn decode_address(b: &[u8]) -> (r: Result<NetworkAddress, HandshakeError>)
    ensures
        match r {
            Ok(a) => Ok::<NetworkAddressView, HandshakeError>(a@) == spec_decode_address(b@)
                && a@.well_formed(),
            Err(e) => Err::<NetworkAddressView, HandshakeError>(e) == spec_decode_address(b@),
        },
{
    if b.len() != ADDRESS_WIRE_LEN {
        return Err(HandshakeError::MalformedAddress);
    }
    let services = u64_from_le_bytes(slice_subrange(b, 0, 8));
    let ip = slice_to_vec(slice_subrange(b, 8, 24));
    let port = u16_from_be_bytes(slice_subrange(b, 24, 26));
    Ok(NetworkAddress { services, ip, port })
}

/// Round trip: decoding an encoded well-formed address yields the address
/// back, for IPv4-mapped and native IPv6 addresses alike.
pub proof fn lemma_address_round_trip(a: NetworkAddressView)
    requires
        a.well_formed(),
    ensures
        spec_decode_address(spec_encode_address(a)) == Ok::<NetworkAddressView, HandshakeError>(a),
{
    lemma_auto_spec_u64_to_from_le_bytes();
    lemma_auto_u16_to_from_be_bytes();
    let e = spec_encode_address(a);
    assert(e.subrange(0, 8) =~= spec_u64_to_le_bytes(a.services));
    assert(e.subrange(8, 24) =~= a.ip);
    assert(e.subrange(24, 26) =~= spec_u16_to_be_bytes(a.port));
    assert(spec_decode_address(e) =~= Ok::<NetworkAddressView, HandshakeError>(a));
}

} // verus!
