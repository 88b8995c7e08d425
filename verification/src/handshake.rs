use crate::channel::Channel;
use crate::error::HandshakeError;
use crate::message::{
    build_message, bytes_eq, decode_verack, encode_verack, read_message, spec_build_message,
    spec_read_message, spec_verack_command, spec_version_command, version_command,
};
use crate::version::{decode_version, encode_version, spec_decode_version, spec_encode_version,
    VersionPayload, VersionPayloadView};
use vstd::prelude::*;

verus! {

/// The strictly sequential handshake states.  Any framing or integrity
/// failure is terminal; the caller owns reconnection policy.
#[derive(Clone, Copy, Debug, PartialEq, Eq, Structural)]
pub enum HandshakeState {
    Start,
    VersionSent,
    VersionReceived,
    VerackSent,
    Established,
    Failed,
}

/// The whole version message: header and payload.
pub open spec fn spec_version_message(magic: u32, local: VersionPayloadView) -> Seq<u8> {
    spec_build_message(magic, spec_version_command(), spec_encode_version(local))
}

/// The whole verack message: a bare header over the empty payload.
pub open spec fn spec_verack_message(magic: u32) -> Seq<u8> {
    spec_build_message(magic, spec_verack_command(), Seq::<u8>::empty())
}

/// One side of the handshake, driven over a channel it reads from and
/// writes to: send Version, receive-and-validate the peer's Version, send
/// Verack, receive-and-validate the peer's Verack.
#[derive(Debug)]
pub struct HandshakeSession {
    pub state: HandshakeState,
    pub magic: u32,
    pub local: VersionPayload,
    pub peer_version: Option<VersionPayload>,
}

impl HandshakeSession {
    pub open spec fn wf(self) -> bool {
        self.local@.valid()
    }

    pub fn new(magic: u32, local: VersionPayload) -> (r: HandshakeSession)
        requires
            local@.valid(),
        ensures
            r.wf(),
            r.state == HandshakeState::Start,
            r.magic == magic,
            r.local == local,
            r.peer_version is None,
    {
        HandshakeSession { state: HandshakeState::Start, magic, local, peer_version: None }
    }

    /// First step: announce ourselves.
    pub fn send_version(&mut self, ch: &mut Channel)
        requires
            old(self).wf(),
            old(self).state == HandshakeState::Start,
            old(ch).wf(),
        ensures
            final(self).wf(),
            final(ch).wf(),
            final(self).state == HandshakeState::VersionSent,
            final(self).magic == old(self).magic,
            final(self).local == old(self).local,
            final(self).peer_version == old(self).peer_version,
            final(ch).incoming == old(ch).incoming,
            final(ch).cursor == old(ch).cursor,
            final(ch).outgoing@ == old(ch).outgoing@ + spec_version_message(
                old(self).magic,
                old(self).local@,
            ),
    {
        let payload = encode_version(&self.local);
        let cmd = version_command();
        proof {
            assert(crate::message::spec_command_ok(spec_version_command()));
        }
        let msg = match build_message(self.magic, cmd.as_slice(), payload.as_slice()) {
            Ok(m) => m,
            Err(_) => {
                proof {
                    assert(false);
                }
                Vec::new()
            },
        };
        ch.write_all(msg.as_slice());
        self.state = HandshakeState::VersionSent;
    }

    /// Second step: the next message on the channel must be a valid,
    /// integrity-checked Version announcement from the peer.
    pub fn receive_version(&mut self, ch: &mut Channel) -> (r: Result<(), HandshakeError>)
        requires
            old(self).wf(),
            old(self).state == HandshakeState::VersionSent,
            old(ch).wf(),
        ensures
            final(self).wf(),
            final(ch).wf(),
            final(self).magic == old(self).magic,
            final(self).local == old(self).local,
            final(ch).incoming == old(ch).incoming,
            final(ch).outgoing == old(ch).outgoing,
            (match spec_read_message(old(ch).remaining(), old(self).magic) {
                Err(e) => r == Err::<(), HandshakeError>(e) && final(self).state
                    == HandshakeState::Failed,
                Ok(msg) => {
                    if msg.0 != spec_version_command() {
                        r == Err::<(), HandshakeError>(HandshakeError::ProtocolViolation) && final(self).state == HandshakeState::Failed
                    } else {
                        match spec_decode_version(msg.1) {
                            Err(e) => r == Err::<(), HandshakeError>(e) && final(self).state
                                == HandshakeState::Failed,
                            Ok(v) => r == Ok::<(), HandshakeError>(()) && final(self).state
                                == HandshakeState::VersionReceived && (final(self).peer_version
                                matches Some(pv) && pv@ == v) && final(ch).cursor == old(ch).cursor
                                + msg.2,
                        }
                    }
                },
            }),
    {
        let m = match read_message(ch, self.magic) {
            Ok(m) => m,
            Err(e) => {
                self.state = HandshakeState::Failed;
                return Err(e);
            },
        };
        let (cmd, payload) = m;
        let vcmd = version_command();
        if !bytes_eq(cmd.as_slice(), vcmd.as_slice()) {
            self.state = HandshakeState::Failed;
            return Err(HandshakeError::ProtocolViolation);
        }
        match decode_version(payload.as_slice()) {
            Ok(v) => {
                self.peer_version = Some(v);
                self.state = HandshakeState::VersionReceived;
                Ok(())
            },
            Err(e) => {
                self.state = HandshakeState::Failed;
                Err(e)
            },
        }
    }

    /// Third step: acknowledge the peer's announcement.
    pub fn send_verack(&mut self, ch: &mut Channel)
        requires
            old(self).wf(),
            old(self).state == HandshakeState::VersionReceived,
            old(ch).wf(),
        ensures
            final(self).wf(),
            final(ch).wf(),
            final(self).state == HandshakeState::VerackSent,
            final(self).magic == old(self).magic,
            final(self).local == old(self).local,
            final(self).peer_version == old(self).peer_version,
            final(ch).incoming == old(ch).incoming,
            final(ch).cursor == old(ch).cursor,
            final(ch).outgoing@ == old(ch).outgoing@ + spec_verack_message(old(self).magic),
    {
        let msg = encode_verack(self.magic);
        ch.write_all(msg.as_slice());
        self.state = HandshakeState::VerackSent;
    }

    /// Last step: the next message must be the peer's empty, checksummed
    /// Verack; anything else breaks the fixed four-step order.
    pub fn receive_verack(&mut self, ch: &mut Channel) -> (r: Result<(), HandshakeError>)
        requires
            old(self).wf(),
            old(self).state == HandshakeState::VerackSent,
            old(ch).wf(),
        ensures
            final(self).wf(),
            final(ch).wf(),
            final(self).magic == old(self).magic,
            final(self).local == old(self).local,
            final(self).peer_version == old(self).peer_version,
            final(ch).incoming == old(ch).incoming,
            final(ch).outgoing == old(ch).outgoing,
            (match spec_read_message(old(ch).remaining(), old(self).magic) {
                Err(e) => r == Err::<(), HandshakeError>(e) && final(self).state
                    == HandshakeState::Failed,
                Ok(msg) => {
                    if msg.0 == spec_verack_command() && msg.1.len() == 0 {
                        r == Ok::<(), HandshakeError>(()) && final(self).state
                            == HandshakeState::Established && final(ch).cursor == old(ch).cursor
                            + msg.2
                    } else {
                        r == Err::<(), HandshakeError>(HandshakeError::ProtocolViolation) && final(self).state == HandshakeState::Failed
                    }
                },
            }),
    {
        let m = match read_message(ch, self.magic) {
            Ok(m) => m,
            Err(e) => {
                self.state = HandshakeState::Failed;
                return Err(e);
            },
        };
        let (cmd, payload) = m;
        match decode_verack(cmd.as_slice(), payload.as_slice()) {
            Ok(_) => {
                self.state = HandshakeState::Established;
                Ok(())
            },
            Err(_) => {
                self.state = HandshakeState::Failed;
                Err(HandshakeError::ProtocolViolation)
            },
        }
    }
}

/// What the handshake returns for a given incoming stream: the peer's
/// decoded Version on success, otherwise the first failure, in the fixed
/// order of checks.
pub open spec fn spec_handshake_result(s: Seq<u8>, magic: u32) -> Result<
    VersionPayloadView,
    HandshakeError,
> {
    match spec_read_message(s, magic) {
        Err(e) => Err(e),
        Ok(msg1) => {
            if msg1.0 != spec_version_command() {
                Err(HandshakeError::ProtocolViolation)
            } else {
                match spec_decode_version(msg1.1) {
                    Err(e) => Err(e),
                    Ok(v) => match spec_read_message(s.skip(msg1.2), magic) {
                        Err(e) => Err(e),
                        Ok(msg2) => {
                            if msg2.0 == spec_verack_command() && msg2.1.len() == 0 {
                                Ok(v)
                            } else {
                                Err(HandshakeError::ProtocolViolation)
                            }
                        },
                    },
                }
            }
        },
    }
}

/// What the handshake writes for a given incoming stream: its Version
/// always, its Verack exactly when the peer's Version was received whole
/// and valid.
pub open spec fn spec_handshake_sent(s: Seq<u8>, magic: u32, local: VersionPayloadView) -> Seq<
    u8,
> {
    let version_ok = match spec_read_message(s, magic) {
        Err(_) => false,
        Ok(msg1) => msg1.0 == spec_version_command() && spec_decode_version(msg1.1) is Ok,
    };
    if version_ok {
        spec_version_message(magic, local) + spec_verack_message(magic)
    } else {
        spec_version_message(magic, local)
    }
}

/// Success is owed to a conforming peer: when the incoming stream is
/// exactly a valid Version announcement followed by an empty Verack, the
/// handshake returns that announcement, both sides reaching the
/// established state.
pub proof fn lemma_handshake_succeeds_with_conforming_peer(magic: u32, peer: VersionPayloadView)
    requires
        peer.valid(),
    ensures
        spec_handshake_result(
            spec_version_message(magic, peer) + spec_verack_message(magic),
            magic,
        ) == Ok::<VersionPayloadView, HandshakeError>(peer),
{
    let vp = spec_encode_version(peer);
    let vm = spec_version_message(magic, peer);
    let wm = spec_verack_message(magic);
    let s = vm + wm;
    let hlen = crate::message::HEADER_LEN as int;
    crate::version::lemma_version_round_trip(peer);
    crate::version::lemma_encode_version_len(peer);
    crate::message::lemma_read_built_message(magic, spec_version_command(), vp, wm);
    assert(spec_read_message(s, magic) == Ok::<(Seq<u8>, Seq<u8>, int), HandshakeError>(
        (spec_version_command(), vp, hlen + vp.len()),
    ));
    assert(vm.len() == hlen + vp.len()) by {
        vstd::bytes::lemma_auto_spec_u32_to_from_le_bytes();
        crate::message::lemma_pad_trim_round_trip(spec_version_command());
    };
    assert(s.skip(hlen + vp.len()) =~= wm);
    crate::message::lemma_read_built_message(
        magic,
        spec_verack_command(),
        Seq::<u8>::empty(),
        Seq::<u8>::empty(),
    );
    assert(wm + Seq::<u8>::empty() =~= wm);
    assert(spec_read_message(wm, magic) == Ok::<(Seq<u8>, Seq<u8>, int), HandshakeError>(
        (spec_verack_command(), Seq::<u8>::empty(), hlen),
    ));
}

/// Runs the whole four-step handshake over a connected channel, callable
/// once per fresh channel.  On success the returned session is
/// `Established` and holds the peer's Version; on failure the typed error
/// says which check broke, and no partially-completed state is reported as
/// success.
pub fn perform_handshake(ch: &mut Channel, magic: u32, local: VersionPayload) -> (r: Result<
    HandshakeSession,
    HandshakeError,
>)
    requires
        old(ch).wf(),
        local@.valid(),
    ensures
        final(ch).wf(),
        final(ch).incoming == old(ch).incoming,
        final(ch).outgoing@ == old(ch).outgoing@ + spec_handshake_sent(
            old(ch).remaining(),
            magic,
            local@,
        ),
        (match r {
            Ok(sess) => sess.state == HandshakeState::Established && (
            match spec_handshake_result(old(ch).remaining(), magic) {
                Ok(v) => sess.peer_version matches Some(pv) && pv@ == v,
                Err(_) => false,
            }),
            Err(e) => spec_handshake_result(old(ch).remaining(), magic) == Err::<
                VersionPayloadView,
                HandshakeError,
            >(e),
        }),
{
    let ghost s = ch.remaining();
    let mut sess = HandshakeSession::new(magic, local);
    sess.send_version(ch);
    match sess.receive_version(ch) {
        Ok(_) => {},
        Err(e) => {
            return Err(e);
        },
    }
    proof {
        let msg1 = spec_read_message(s, magic) ->Ok_0;
        assert(ch.remaining() =~= s.skip(msg1.2));
    }
    sess.send_verack(ch);
    match sess.receive_verack(ch) {
        Ok(_) => {},
        Err(e) => {
            return Err(e);
        },
    }
    Ok(sess)
}

} // verus!
