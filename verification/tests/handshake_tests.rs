use peer_handshake::address::NetworkAddress;
use peer_handshake::channel::Channel;
use peer_handshake::error::HandshakeError;
use peer_handshake::handshake::{perform_handshake, HandshakeSession, HandshakeState};
use peer_handshake::hashing::checksum;
use peer_handshake::message::{build_message, decode_verack, read_message};
use peer_handshake::version::{encode_version, VersionPayload};

const MAINNET_MAGIC: u32 = 0xD9B4BEF9;

fn local_version(nonce: u64) -> VersionPayload {
    VersionPayload {
        protocol_version: 70015,
        services: 0,
        timestamp: 1681000000,
        addr_recv: NetworkAddress::new_ipv4(0, 134, 195, 185, 52, 8333),
        addr_from: NetworkAddress::new_ipv4(0, 0, 0, 0, 0, 0),
        nonce,
        user_agent: b"/test:0.1/".to_vec(),
        start_height: 0,
        relay: false,
    }
}

fn version_message(nonce: u64) -> Vec<u8> {
    let payload = encode_version(&local_version(nonce));
    build_message(MAINNET_MAGIC, b"version", &payload).unwrap()
}

fn verack_message() -> Vec<u8> {
    build_message(MAINNET_MAGIC, b"verack", &[]).unwrap()
}

#[test]
fn encode_verack_is_the_known_constant_message() {
    let m = peer_handshake::message::encode_verack(MAINNET_MAGIC);
    let mut expected = vec![249u8, 190, 180, 217];
    expected.extend_from_slice(b"verack\0\0\0\0\0\0");
    expected.extend_from_slice(&[0, 0, 0, 0]);
    expected.extend_from_slice(&[93, 246, 224, 226]);
    assert_eq!(m, expected);
}

#[test]
fn read_message_round_trips_a_built_message() {
    let m = build_message(MAINNET_MAGIC, b"version", b"payload").unwrap();
    let mut ch = Channel::new(m);
    let (cmd, payload) = read_message(&mut ch, MAINNET_MAGIC).unwrap();
    assert_eq!(cmd, b"version".to_vec());
    assert_eq!(payload, b"payload".to_vec());
}

#[test]
fn read_message_detects_every_checksum_bit_flip() {
    let intact = build_message(MAINNET_MAGIC, b"version", b"representative").unwrap();
    for byte in 20..24 {
        for bit in 0..8 {
            let mut corrupted = intact.clone();
            corrupted[byte] ^= 1u8 << bit;
            let mut ch = Channel::new(corrupted);
            assert_eq!(
                read_message(&mut ch, MAINNET_MAGIC).unwrap_err(),
                HandshakeError::ChecksumMismatch
            );
        }
    }
}

#[test]
fn read_message_fails_closed_on_truncated_payload() {
    // The header announces more payload bytes than the channel provides:
    // the read returns at once with ConnectionClosed instead of hanging.
    let mut m = build_message(MAINNET_MAGIC, b"version", b"12345").unwrap();
    m.truncate(26);
    let mut ch = Channel::new(m);
    assert_eq!(
        read_message(&mut ch, MAINNET_MAGIC).unwrap_err(),
        HandshakeError::ConnectionClosed
    );
}

#[test]
fn read_message_rejects_wrong_network() {
    let m = build_message(0x0b110907, b"version", &[]).unwrap();
    let mut ch = Channel::new(m);
    assert_eq!(
        read_message(&mut ch, MAINNET_MAGIC).unwrap_err(),
        HandshakeError::WrongNetwork
    );
}

#[test]
fn decode_verack_accepts_only_empty_verack() {
    assert!(decode_verack(b"verack", &[]).is_ok());
    assert_eq!(
        decode_verack(b"version", &[]).unwrap_err(),
        HandshakeError::UnexpectedMessage
    );
    assert_eq!(
        decode_verack(b"verack", &[1]).unwrap_err(),
        HandshakeError::UnexpectedMessage
    );
}

#[test]
fn loopback_handshake_both_sides_establish() {
    // Two in-process sessions over a loopback channel, both running the
    // orchestrator step machine, their frames delivered crosswise.
    let mut a = HandshakeSession::new(MAINNET_MAGIC, local_version(1));
    let mut b = HandshakeSession::new(MAINNET_MAGIC, local_version(2));
    let mut cha = Channel::new(Vec::new());
    let mut chb = Channel::new(Vec::new());

    a.send_version(&mut cha);
    let a_version = cha.take_outgoing();
    b.send_version(&mut chb);
    let b_version = chb.take_outgoing();

    cha.feed(&b_version);
    a.receive_version(&mut cha).unwrap();
    a.send_verack(&mut cha);
    let a_verack = cha.take_outgoing();

    chb.feed(&a_version);
    b.receive_version(&mut chb).unwrap();
    b.send_verack(&mut chb);
    let b_verack = chb.take_outgoing();

    cha.feed(&b_verack);
    a.receive_verack(&mut cha).unwrap();
    chb.feed(&a_verack);
    b.receive_verack(&mut chb).unwrap();

    assert_eq!(a.state, HandshakeState::Established);
    assert_eq!(b.state, HandshakeState::Established);
    assert_eq!(a.peer_version.unwrap(), local_version(2));
    assert_eq!(b.peer_version.unwrap(), local_version(1));
}

#[test]
fn perform_handshake_establishes_against_a_scripted_peer() {
    let mut incoming = version_message(42);
    incoming.extend_from_slice(&verack_message());
    let mut ch = Channel::new(incoming);
    let sess = perform_handshake(&mut ch, MAINNET_MAGIC, local_version(7)).unwrap();
    assert_eq!(sess.state, HandshakeState::Established);
    assert_eq!(sess.peer_version.unwrap(), local_version(42));
    // It sent its own Version then its Verack, in that order.
    let mut expected = version_message(7);
    expected.extend_from_slice(&verack_message());
    assert_eq!(ch.outgoing, expected);
}

#[test]
fn handshake_rejects_misspelled_version_command() {
    // The peer's first message carries a correct header and checksum but
    // the command reads "pign   " instead of "version".
    let payload = encode_version(&local_version(3));
    let bad = build_message(MAINNET_MAGIC, b"pign   ", &payload).unwrap();
    let mut sess = HandshakeSession::new(MAINNET_MAGIC, local_version(4));
    let mut ch = Channel::new(bad);
    sess.send_version(&mut ch);
    assert_eq!(
        sess.receive_version(&mut ch).unwrap_err(),
        HandshakeError::ProtocolViolation
    );
    assert_eq!(sess.state, HandshakeState::Failed);
}

#[test]
fn handshake_rejects_verack_checksummed_over_stray_byte() {
    // A verack header that announces an empty payload but whose checksum
    // was computed over one stray byte: a hard integrity failure.
    let mut incoming = version_message(5);
    let mut bad_verack: Vec<u8> = Vec::new();
    bad_verack.extend_from_slice(&[249, 190, 180, 217]);
    bad_verack.extend_from_slice(b"verack\0\0\0\0\0\0");
    bad_verack.extend_from_slice(&[0, 0, 0, 0]);
    bad_verack.extend_from_slice(&checksum(&[7]));
    assert_eq!(bad_verack.len(), 24);
    incoming.extend_from_slice(&bad_verack);

    let mut ch = Channel::new(incoming);
    assert_eq!(
        perform_handshake(&mut ch, MAINNET_MAGIC, local_version(6)).unwrap_err(),
        HandshakeError::ChecksumMismatch
    );
}

#[test]
fn handshake_fails_when_peer_is_silent() {
    let mut ch = Channel::new(Vec::new());
    assert_eq!(
        perform_handshake(&mut ch, MAINNET_MAGIC, local_version(8)).unwrap_err(),
        HandshakeError::ConnectionClosed
    );
    // Its own Version still went out before the read failed.
    assert_eq!(ch.outgoing, version_message(8));
}

#[test]
fn handshake_rejects_verack_before_version() {
    let mut incoming = verack_message();
    incoming.extend_from_slice(&version_message(9));
    let mut ch = Channel::new(incoming);
    assert_eq!(
        perform_handshake(&mut ch, MAINNET_MAGIC, local_version(10)).unwrap_err(),
        HandshakeError::ProtocolViolation
    );
}

#[test]
fn handshake_rejects_nonempty_verack() {
    let mut incoming = version_message(11);
    incoming.extend_from_slice(&build_message(MAINNET_MAGIC, b"verack", &[1]).unwrap());
    let mut ch = Channel::new(incoming);
    assert_eq!(
        perform_handshake(&mut ch, MAINNET_MAGIC, local_version(12)).unwrap_err(),
        HandshakeError::ProtocolViolation
    );
}
