use peer_handshake::address::{decode_address, encode_address, NetworkAddress};
use peer_handshake::compactsize::{decode_compact_size, encode_compact_size};
use peer_handshake::error::HandshakeError;
use peer_handshake::hashing::checksum;
use peer_handshake::message::{build_message, parse_header};
use peer_handshake::version::{decode_version, encode_version, VersionPayload};
use sha2::Digest;

const MAINNET_MAGIC: u32 = 0xD9B4BEF9;

fn sample_version(user_agent: &[u8], protocol_version: i32, relay: bool) -> VersionPayload {
    VersionPayload {
        protocol_version,
        services: 1,
        timestamp: 1681000000,
        addr_recv: NetworkAddress::new_ipv4(0, 134, 195, 185, 52, 8333),
        addr_from: NetworkAddress::new_ipv4(0, 0, 0, 0, 0, 0),
        nonce: 0x1122334455667788,
        user_agent: user_agent.to_vec(),
        start_height: 100,
        relay,
    }
}

#[test]
fn checksum_is_deterministic() {
    let a = checksum(b"some payload bytes");
    let b = checksum(b"some payload bytes");
    assert_eq!(a, b);
    assert_eq!(a.len(), 4);
}

#[test]
fn checksum_of_empty_payload_is_the_verack_constant() {
    // The well-known verack header constant must be derivable, not copied.
    assert_eq!(checksum(&[]), vec![0x5d, 0xf6, 0xe0, 0xe2]);
}

#[test]
fn checksum_differs_from_single_application() {
    // A single hash application must not produce the double-hash tag.
    let single: Vec<u8> = sha2::Sha256::digest(b"abc")[..4].to_vec();
    assert_ne!(checksum(b"abc"), single);
}

#[test]
fn address_round_trip_ipv4() {
    let a = NetworkAddress::new_ipv4(0, 134, 195, 185, 52, 8333);
    let bytes = encode_address(&a);
    assert_eq!(bytes.len(), 26);
    // 10 zero bytes, the 0xFFFF marker, the four octets.
    assert_eq!(&bytes[8..18], &[0, 0, 0, 0, 0, 0, 0, 0, 0, 0]);
    assert_eq!(&bytes[18..20], &[255, 255]);
    assert_eq!(&bytes[20..24], &[134, 195, 185, 52]);
    // The port is big-endian, unlike every other multi-byte field.
    assert_eq!(&bytes[24..26], &[32, 141]);
    let back = decode_address(&bytes).unwrap();
    assert_eq!(back, a);
}

#[test]
fn address_round_trip_ipv6() {
    let ip: Vec<u8> = (1..=16).collect();
    let a = NetworkAddress::new_ipv6(7, ip.clone(), 18333);
    let bytes = encode_address(&a);
    assert_eq!(bytes.len(), 26);
    assert_eq!(&bytes[8..24], ip.as_slice());
    let back = decode_address(&bytes).unwrap();
    assert_eq!(back, a);
}

#[test]
fn address_decode_short_input_fails() {
    assert_eq!(decode_address(&[0u8; 25]), Err(HandshakeError::MalformedAddress));
    assert_eq!(decode_address(&[]), Err(HandshakeError::MalformedAddress));
}

#[test]
fn compact_size_round_trips_across_widths() {
    let cases: &[(u64, usize)] = &[
        (0, 1),
        (1, 1),
        (252, 1),
        (253, 3),
        (65535, 3),
        (65536, 5),
        (0xffffffff, 5),
        (0x100000000, 9),
        (u64::MAX, 9),
    ];
    for &(n, width) in cases {
        let e = encode_compact_size(n);
        assert_eq!(e.len(), width, "width of {n}");
        assert_eq!(decode_compact_size(&e), Some((n, width)));
    }
}

#[test]
fn compact_size_rejects_non_minimal_encoding() {
    // 1 encoded in three bytes instead of one.
    assert_eq!(decode_compact_size(&[0xfd, 0x01, 0x00]), None);
    assert_eq!(decode_compact_size(&[]), None);
    assert_eq!(decode_compact_size(&[0xfd, 0x01]), None);
}

#[test]
fn version_round_trip_full() {
    let v = sample_version(b"/test:0.1/", 70015, true);
    let bytes = encode_version(&v);
    let back = decode_version(&bytes).unwrap();
    assert_eq!(back, v);
}

#[test]
fn version_round_trip_empty_user_agent() {
    let v = sample_version(b"", 60002, false);
    let bytes = encode_version(&v);
    // 80 fixed bytes + 1-byte empty user-agent prefix + 4 height bytes,
    // and no relay byte below the gating version.
    assert_eq!(bytes.len(), 85);
    let back = decode_version(&bytes).unwrap();
    assert_eq!(back, v);
}

#[test]
fn version_encodes_protocol_version_little_endian() {
    let v = sample_version(b"", 70001, false);
    let bytes = encode_version(&v);
    assert_eq!(&bytes[0..4], &[113, 17, 1, 0]);
}

#[test]
fn version_relay_byte_present_only_from_gating_version() {
    let with_relay = encode_version(&sample_version(b"", 70001, true));
    assert_eq!(*with_relay.last().unwrap(), 1);
    assert_eq!(with_relay.len(), 86);
    let without = encode_version(&sample_version(b"", 70000, false));
    assert_eq!(without.len(), 85);
}

#[test]
fn version_decode_rejects_bad_relay_byte() {
    let mut bytes = encode_version(&sample_version(b"", 70001, true));
    let last = bytes.len() - 1;
    bytes[last] = 2;
    assert_eq!(decode_version(&bytes), Err(HandshakeError::ProtocolViolation));
}

#[test]
fn version_decode_rejects_truncated_payload() {
    let bytes = encode_version(&sample_version(b"/test:0.1/", 70015, true));
    assert_eq!(decode_version(&bytes[..40]), Err(HandshakeError::ProtocolViolation));
    assert_eq!(decode_version(&[]), Err(HandshakeError::ProtocolViolation));
}

#[test]
fn build_message_lays_out_the_header() {
    let payload = b"hello".to_vec();
    let m = build_message(MAINNET_MAGIC, b"version", &payload).unwrap();
    assert_eq!(m.len(), 24 + 5);
    assert_eq!(&m[0..4], &[249, 190, 180, 217]);
    assert_eq!(&m[4..16], b"version\0\0\0\0\0");
    assert_eq!(&m[16..20], &[5, 0, 0, 0]);
    assert_eq!(&m[20..24], checksum(&payload).as_slice());
    assert_eq!(&m[24..], payload.as_slice());
}

#[test]
fn build_message_rejects_long_command() {
    let r = build_message(MAINNET_MAGIC, b"thirteenbytes", &[]);
    assert_eq!(r, Err(HandshakeError::CommandTooLong));
}

#[test]
fn parse_header_round_trips_a_built_header() {
    let m = build_message(MAINNET_MAGIC, b"version", b"xyz").unwrap();
    let h = parse_header(&m[..24], MAINNET_MAGIC).unwrap();
    assert_eq!(h.magic, MAINNET_MAGIC);
    assert_eq!(h.command, b"version".to_vec());
    assert_eq!(h.payload_len, 3);
    assert_eq!(h.checksum, checksum(b"xyz"));
}

#[test]
fn parse_header_rejects_wrong_magic() {
    let m = build_message(0x0b110907, b"version", &[]).unwrap();
    assert_eq!(
        parse_header(&m[..24], MAINNET_MAGIC).unwrap_err(),
        HandshakeError::WrongNetwork
    );
}

#[test]
fn parse_header_rejects_non_ascii_command() {
    let mut m = build_message(MAINNET_MAGIC, b"version", &[]).unwrap();
    m[4] = 0xc3;
    assert_eq!(
        parse_header(&m[..24], MAINNET_MAGIC).unwrap_err(),
        HandshakeError::MalformedHeader
    );
}

#[test]
fn parse_header_rejects_bytes_after_nul_padding() {
    let mut m = build_message(MAINNET_MAGIC, b"verack", &[]).unwrap();
    // "verack\0x\0\0\0\0": a non-NUL byte after the first NUL.
    m[11] = b'x';
    assert_eq!(
        parse_header(&m[..24], MAINNET_MAGIC).unwrap_err(),
        HandshakeError::MalformedHeader
    );
}

#[test]
fn parse_header_rejects_short_input() {
    assert_eq!(
        parse_header(&[0u8; 23], MAINNET_MAGIC).unwrap_err(),
        HandshakeError::ConnectionClosed
    );
}
