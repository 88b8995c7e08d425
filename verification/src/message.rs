use crate::channel::Channel;
use crate::error::HandshakeError;
use crate::hashing::{checksum, spec_checksum};
use vstd::bytes::{
    lemma_auto_spec_u32_to_from_le_bytes, spec_u32_from_le_bytes, spec_u32_to_le_bytes,
    u32_from_le_bytes, u32_to_le_bytes,
};
use vstd::prelude::*;
use vstd::slice::{slice_index_get, slice_subrange, slice_to_vec};

verus! {

/// Fixed header size: 4 magic + 12 command + 4 length + 4 checksum bytes.
pub const HEADER_LEN: usize = 24;

/// Width of the NUL-padded ASCII command field.
pub const COMMAND_LEN: usize = 12;

pub open spec fn spec_version_command() -> Seq<u8> {
    seq![118u8, 101u8, 114u8, 115u8, 105u8, 111u8, 110u8]
}

pub open spec fn spec_verack_command() -> Seq<u8> {
    seq![118u8, 101u8, 114u8, 97u8, 99u8, 107u8]
}

/// The ASCII bytes of "version".
pub fn version_command() -> (r: Vec<u8>)
    ensures
        r@ == spec_version_command(),
{
    let mut r: Vec<u8> = Vec::new();
    r.push(118u8);
    r.push(101u8);
    r.push(114u8);
    r.push(115u8);
    r.push(105u8);
    r.push(111u8);
    r.push(110u8);
    proof {
        assert(r@ =~= spec_version_command());
    }
    r
}

/// The ASCII bytes of "verack".
pub fn verack_command() -> (r: Vec<u8>)
    ensures
        r@ == spec_verack_command(),
{
    let mut r: Vec<u8> = Vec::new();
    r.push(118u8);
    r.push(101u8);
    r.push(114u8);
    r.push(97u8);
    r.push(99u8);
    r.push(107u8);
    proof {
        assert(r@ =~= spec_verack_command());
    }
    r
}

/// A command name fit for the wire: printable-range ASCII, no NUL, so that
/// NUL-padding and NUL-trimming invert each other.
pub open spec fn spec_command_ok(c: Seq<u8>) -> bool {
    forall|i: int| 0 <= i < c.len() ==> 0 < #[trigger] c[i] < 0x80
}

/// The 12-byte command field: the name followed by NUL padding.
pub open spec fn spec_pad_command(c: Seq<u8>) -> Seq<u8>
    recommends
        c.len() <= COMMAND_LEN,
{
    c + Seq::new((COMMAND_LEN - c.len()) as nat, |i: int| 0u8)
}

/// Index of the first NUL byte, or the length when there is none.
pub open spec fn spec_nul_index(f: Seq<u8>) -> int
    decreases f.len(),
{
    if f.len() == 0 {
        0
    } else if f[0] == 0 {
        0
    } else {
        1 + spec_nul_index(f.skip(1))
    }
}

/// A syntactically sound command field: ASCII throughout, and nothing but
/// NULs after the first NUL.
pub open spec fn spec_command_field_ok(f: Seq<u8>) -> bool {
    &&& (forall|i: int, j: int| 0 <= i < j < f.len() && f[i] == 0 ==> f[j] == 0)
    &&& (forall|i: int| 0 <= i < f.len() ==> f[i] < 0x80)
}

/// The NUL-trimmed command name.
pub open spec fn spec_trim_command(f: Seq<u8>) -> Seq<u8> {
    f.take(spec_nul_index(f))
}

pub proof fn lemma_nul_index_bounds(f: Seq<u8>)
    ensures
        0 <= spec_nul_index(f) <= f.len(),
        forall|i: int| 0 <= i < spec_nul_index(f) ==> f[i] != 0,
        spec_nul_index(f) < f.len() ==> f[spec_nul_index(f)] == 0,
    decreases f.len(),
{
    if f.len() == 0 {
    } else if f[0] == 0 {
    } else {
        lemma_nul_index_bounds(f.skip(1));
        assert forall|i: int| 0 <= i < spec_nul_index(f) implies f[i] != 0 by {
            if i > 0 {
                assert(f.skip(1)[i - 1] == f[i]);
            }
        };
        if spec_nul_index(f) < f.len() {
            assert(f.skip(1)[spec_nul_index(f) - 1] == f[spec_nul_index(f)]);
        }
    }
}

pub proof fn lemma_nul_index_unique(f: Seq<u8>, k: int)
    requires
        0 <= k <= f.len(),
        forall|i: int| 0 <= i < k ==> f[i] != 0,
        k < f.len() ==> f[k] == 0,
    ensures
        spec_nul_index(f) == k,
    decreases f.len(),
{
    if f.len() == 0 {
    } else if f[0] == 0 {
        assert(k == 0);
    } else {
        assert(k > 0);
        assert forall|i: int| 0 <= i < k - 1 implies f.skip(1)[i] != 0 by {
            assert(f.skip(1)[i] == f[i + 1]);
        };
        if k - 1 < f.skip(1).len() {
            assert(f.skip(1)[k - 1] == f[k]);
        }
        lemma_nul_index_unique(f.skip(1), k - 1);
    }
}

/// Padding then trimming a sound command name gives the name back.
pub proof fn lemma_pad_trim_round_trip(c: Seq<u8>)
    requires
        spec_command_ok(c),
        c.len() <= COMMAND_LEN,
    ensures
        spec_pad_command(c).len() == COMMAND_LEN,
        spec_command_field_ok(spec_pad_command(c)),
        spec_trim_command(spec_pad_command(c)) == c,
{
    let f = spec_pad_command(c);
    lemma_nul_index_unique(f, c.len() as int);
    assert(f.take(c.len() as int) =~= c);
}

/// Mathematical model of a message header.
#[verifier::ext_equal]
pub struct MessageHeaderView {
    pub magic: u32,
    pub command: Seq<u8>,
    pub payload_len: u32,
    pub checksum: Seq<u8>,
}

/// A parsed message header with named fields: the network magic, the
/// NUL-trimmed command name, the announced payload length, and the
/// checksum field.
#[derive(Debug, Clone, PartialEq, Eq)]
pub struct MessageHeader {
    pub magic: u32,
    pub command: Vec<u8>,
    pub payload_len: u32,
    pub checksum: Vec<u8>,
}

impl View for MessageHeader {
    type V = MessageHeaderView;

    open spec fn view(&self) -> MessageHeaderView {
        MessageHeaderView {
            magic: self.magic,
            command: self.command@,
            payload_len: self.payload_len,
            checksum: self.checksum@,
        }
    }
}

/// The full wire form of a message: magic, padded command, little-endian
/// payload length, payload checksum, then the payload itself.
pub open spec fn spec_build_message(magic: u32, command: Seq<u8>, payload: Seq<u8>) -> Seq<u8> {
    spec_u32_to_le_bytes(magic) + spec_pad_command(command) + spec_u32_to_le_bytes(
        payload.len() as u32,
    ) + spec_checksum(payload) + payload
}

/// Header validation against the expected network: exactly 24 bytes, the
/// right magic, a sound command field.
pub open spec fn spec_parse_header(b: Seq<u8>, expected_magic: u32) -> Result<
    MessageHeaderView,
    HandshakeError,
> {
    if b.len() != HEADER_LEN {
        Err(HandshakeError::ConnectionClosed)
    } else if spec_u32_from_le_bytes(b.subrange(0, 4)) != expected_magic {
        Err(HandshakeError::WrongNetwork)
    } else if !spec_command_field_ok(b.subrange(4, 16)) {
        Err(HandshakeError::MalformedHeader)
    } else {
        Ok(
            MessageHeaderView {
                magic: expected_magic,
                command: spec_trim_command(b.subrange(4, 16)),
                payload_len: spec_u32_from_le_bytes(b.subrange(16, 20)),
                checksum: b.subrange(20, 24),
            },
        )
    }
}

/// One whole message read from the front of a stream: the command, the
/// payload, and how many bytes they occupied.  Fails exactly as the decode
/// procedure prescribes: short header or short payload with
/// `ConnectionClosed`, magic mismatch with `WrongNetwork`, a bad command
/// field with `MalformedHeader`, and a checksum field that differs from the
/// checksum recomputed over the received payload with `ChecksumMismatch`.
pub open spec fn spec_read_message(s: Seq<u8>, expected_magic: u32) -> Result<
    (Seq<u8>, Seq<u8>, int),
    HandshakeError,
> {
    if s.len() < HEADER_LEN {
        Err(HandshakeError::ConnectionClosed)
    } else {
        match spec_parse_header(s.take(HEADER_LEN as int), expected_magic) {
            Err(e) => Err(e),
            Ok(h) => {
                if s.len() < HEADER_LEN + h.payload_len {
                    Err(HandshakeError::ConnectionClosed)
                } else {
                    let payload = s.subrange(
                        HEADER_LEN as int,
                        HEADER_LEN + h.payload_len,
                    );
                    if h.checksum != spec_checksum(payload) {
                        Err(HandshakeError::ChecksumMismatch)
                    } else {
                        Ok((h.command, payload, HEADER_LEN + h.payload_len))
                    }
                }
            },
        }
    }
}

/// Byte-for-byte comparison of two slices.
pub fn bytes_eq(a: &[u8], b: &[u8]) -> (r: bool)
    ensures
        r == (a@ == b@),
{
    if a.len() != b.len() {
        return false;
    }
    let n = a.len();
    let mut i: usize = 0;
    while i < n
        invariant
            n == a@.len() == b@.len(),
            i <= n,
            forall|j: int| 0 <= j < i ==> a@[j] == b@[j],
        decreases n - i,
    {
        if *slice_index_get(a, i) != *slice_index_get(b, i) {
            return false;
        }
        i = i + 1;
    }
    proof {
        assert(a@ =~= b@);
    }
    true
}

/// Builds the header-plus-payload envelope.  A command longer than the
/// twelve-byte field is caller misuse and the one failure condition.
pub fn build_message(magic: u32, command: &[u8], payload: &[u8]) -> (r: Result<
    Vec<u8>,
    HandshakeError,
>)
    requires
        spec_command_ok(command@),
        payload@.len() <= 0xffffffff,
    ensures
        match r {
            Ok(m) => command@.len() <= COMMAND_LEN && m@ == spec_build_message(
                magic,
                command@,
                payload@,
            ),
            Err(e) => e == HandshakeError::CommandTooLong && command@.len() > COMMAND_LEN,
        },
{
    if command.len() > COMMAND_LEN {
        return Err(HandshakeError::CommandTooLong);
    }
    let mut m = u32_to_le_bytes(magic);
    m.extend_from_slice(command);
    let clen = command.len();
    let mut i: usize = clen;
    while i < COMMAND_LEN
        invariant
            clen == command@.len() <= i <= COMMAND_LEN,
            m@ == spec_u32_to_le_bytes(magic) + command@ + Seq::new(
                (i - clen) as nat,
                |j: int| 0u8,
            ),
        decreases COMMAND_LEN - i,
    {
        m.push(0u8);
        i = i + 1;
        proof {
            assert(m@ =~= spec_u32_to_le_bytes(magic) + command@ + Seq::new(
                (i - clen) as nat,
                |j: int| 0u8,
            ));
        }
    }
    let mut lenb = u32_to_le_bytes(payload.len() as u32);
    m.append(&mut lenb);
    let mut ck = checksum(payload);
    m.append(&mut ck);
    m.extend_from_slice(payload);
    proof {
        assert(m@ =~= spec_build_message(magic, command@, payload@));
    }
    Ok(m)
}

/// Validates and splits a 24-byte header read off the wire.
pub fn parse_header(b: &[u8], expected_magic: u32) -> (r: Result<MessageHeader, HandshakeError>)
    ensures
        match r {
            Ok(h) => spec_parse_header(b@, expected_magic) == Ok::<
                MessageHeaderView,
                HandshakeError,
            >(h@) && h@.command.len() <= COMMAND_LEN && h@.checksum.len() == 4,
            Err(e) => spec_parse_header(b@, expected_magic) == Err::<
                MessageHeaderView,
                HandshakeError,
            >(e),
        },
{
    if b.len() != HEADER_LEN {
        return Err(HandshakeError::ConnectionClosed);
    }
    let magic = u32_from_le_bytes(slice_subrange(b, 0, 4));
    if magic != expected_magic {
        return Err(HandshakeError::WrongNetwork);
    }
    let field = slice_subrange(b, 4, 16);
    let ghost fv = field@;
    proof {
        lemma_nul_index_bounds(fv);
    }
    // Find the first NUL.
    let mut nul_pos: usize = 0;
    while nul_pos < COMMAND_LEN && *slice_index_get(field, nul_pos) != 0
        invariant
            fv == field@,
            fv.len() == COMMAND_LEN,
            nul_pos <= COMMAND_LEN,
            forall|j: int| 0 <= j < nul_pos ==> fv[j] != 0,
        decreases COMMAND_LEN - nul_pos,
    {
        nul_pos = nul_pos + 1;
    }
    proof {
        lemma_nul_index_unique(fv, nul_pos as int);
    }
    // The name must be ASCII ...
    let mut i: usize = 0;
    while i < nul_pos
        invariant
            fv == field@,
            b@.len() == HEADER_LEN,
            fv == b@.subrange(4, 16),
            spec_u32_from_le_bytes(b@.subrange(0, 4)) == expected_magic,
            fv.len() == COMMAND_LEN,
            nul_pos <= COMMAND_LEN,
            spec_nul_index(fv) == nul_pos,
            i <= nul_pos,
            forall|j: int| 0 <= j < nul_pos ==> fv[j] != 0,
            forall|j: int| 0 <= j < i ==> fv[j] < 0x80,
        decreases nul_pos - i,
    {
        if *slice_index_get(field, i) >= 0x80 {
            proof {
                assert(!spec_command_field_ok(fv)) by {
                    assert(fv[i as int] >= 0x80);
                };
            }
            return Err(HandshakeError::MalformedHeader);
        }
        i = i + 1;
    }
    // ... and everything after the first NUL must be NUL padding.
    let mut j: usize = nul_pos;
    while j < COMMAND_LEN
        invariant
            fv == field@,
            b@.len() == HEADER_LEN,
            fv == b@.subrange(4, 16),
            spec_u32_from_le_bytes(b@.subrange(0, 4)) == expected_magic,
            fv.len() == COMMAND_LEN,
            nul_pos <= j <= COMMAND_LEN,
            spec_nul_index(fv) == nul_pos,
            nul_pos == COMMAND_LEN || fv[nul_pos as int] == 0,
            forall|k: int| 0 <= k < nul_pos ==> fv[k] != 0,
            forall|k: int| 0 <= k < nul_pos ==> fv[k] < 0x80,
            forall|k: int| nul_pos <= k < j ==> fv[k] == 0,
        decreases COMMAND_LEN - j,
    {
        if *slice_index_get(field, j) != 0 {
            proof {
                assert(nul_pos < COMMAND_LEN);
                assert(!spec_command_field_ok(fv)) by {
                    assert(fv[nul_pos as int] == 0 && fv[j as int] != 0 && nul_pos < j);
                };
            }
            return Err(HandshakeError::MalformedHeader);
        }
        j = j + 1;
    }
    proof {
        assert(spec_command_field_ok(fv)) by {
            assert forall|a: int, b2: int|
                0 <= a < b2 < fv.len() && fv[a] == 0 implies fv[b2] == 0 by {
                assert(a >= nul_pos);
            };
            assert forall|a: int| 0 <= a < fv.len() implies fv[a] < 0x80 by {
                if a >= nul_pos {
                    assert(fv[a] == 0);
                }
            };
        };
    }
    let command = slice_to_vec(slice_subrange(field, 0, nul_pos));
    let payload_len = u32_from_le_bytes(slice_subrange(b, 16, 20));
    let cksum = slice_to_vec(slice_subrange(b, 20, 24));
    let h = MessageHeader { magic, command, payload_len, checksum: cksum };
    proof {
        assert(command@ =~= spec_trim_command(fv));
        assert(spec_parse_header(b@, expected_magic) ->Ok_0 =~= h@);
    }
    Ok(h)
}

/// Reads one whole message off the channel and verifies its integrity, as
/// `spec_read_message` prescribes.
pub fn read_message(ch: &mut Channel, expected_magic: u32) -> (r: Result<
    (Vec<u8>, Vec<u8>),
    HandshakeError,
>)
    requires
        old(ch).wf(),
    ensures
        final(ch).wf(),
        final(ch).incoming == old(ch).incoming,
        final(ch).outgoing == old(ch).outgoing,
        match r {
            Ok(p) => spec_read_message(old(ch).remaining(), expected_magic) == Ok::<
                (Seq<u8>, Seq<u8>, int),
                HandshakeError,
            >((p.0@, p.1@, final(ch).cursor - old(ch).cursor)),
            Err(e) => spec_read_message(old(ch).remaining(), expected_magic) == Err::<
                (Seq<u8>, Seq<u8>, int),
                HandshakeError,
            >(e),
        },
{
    let ghost s = ch.remaining();
    let header_bytes = match ch.read_exact(HEADER_LEN) {
        Ok(b) => b,
        Err(e) => {
            return Err(e);
        },
    };
    let h = match parse_header(header_bytes.as_slice(), expected_magic) {
        Ok(h) => h,
        Err(e) => {
            proof {
                assert(header_bytes@ == s.take(HEADER_LEN as int));
            }
            return Err(e);
        },
    };
    proof {
        assert(header_bytes@ == s.take(HEADER_LEN as int));
    }
    let payload = match ch.read_exact(h.payload_len as usize) {
        Ok(b) => b,
        Err(e) => {
            return Err(e);
        },
    };
    proof {
        assert(payload@ == s.subrange(HEADER_LEN as int, HEADER_LEN + h.payload_len)) by {
            assert(s.skip(HEADER_LEN as int).take(h.payload_len as int) =~= s.subrange(
                HEADER_LEN as int,
                HEADER_LEN + h.payload_len,
            ));
        };
    }
    let expected = checksum(payload.as_slice());
    if !bytes_eq(h.checksum.as_slice(), expected.as_slice()) {
        return Err(HandshakeError::ChecksumMismatch);
    }
    Ok((h.command, payload))
}

/// The constant zero-length-payload acknowledgment message, whose checksum
/// is the double hash of the empty byte sequence.
pub fn encode_verack(magic: u32) -> (r: Vec<u8>)
    ensures
        r@ == spec_build_message(magic, spec_verack_command(), Seq::<u8>::empty()),
{
    let cmd = verack_command();
    let payload: Vec<u8> = Vec::new();
    proof {
        assert(spec_command_ok(spec_verack_command()));
    }
    match build_message(magic, cmd.as_slice(), payload.as_slice()) {
        Ok(m) => m,
        Err(_) => {
            proof {
                assert(false);
            }
            Vec::new()
        },
    }
}

/// Validates a received message as the handshake's closing acknowledgment:
/// the command must be "verack" and the payload empty.
pub fn decode_verack(command: &[u8], payload: &[u8]) -> (r: Result<(), HandshakeError>)
    ensures
        r is Ok <==> (command@ == spec_verack_command() && payload@.len() == 0),
        r is Err ==> r ->Err_0 == HandshakeError::UnexpectedMessage,
{
    let verack = verack_command();
    if bytes_eq(command, verack.as_slice()) && payload.len() == 0 {
        Ok(())
    } else {
        Err(HandshakeError::UnexpectedMessage)
    }
}

/// A message whose checksum field was corrupted in any way — a single
/// flipped bit included — fails to read, with `ChecksumMismatch`.
pub proof fn lemma_checksum_corruption_detected(
    magic: u32,
    c: Seq<u8>,
    p: Seq<u8>,
    bad: Seq<u8>,
    rest: Seq<u8>,
)
    requires
        spec_command_ok(c),
        c.len() <= COMMAND_LEN,
        p.len() <= 0xffffffff,
        bad.len() == 4,
        bad != spec_checksum(p),
    ensures
        ({
            let m = spec_u32_to_le_bytes(magic) + spec_pad_command(c) + spec_u32_to_le_bytes(
                p.len() as u32,
            ) + bad + p;
            spec_read_message(m + rest, magic) == Err::<(Seq<u8>, Seq<u8>, int), HandshakeError>(
                HandshakeError::ChecksumMismatch,
            )
        }),
{
    lemma_auto_spec_u32_to_from_le_bytes();
    lemma_pad_trim_round_trip(c);
    let m = spec_u32_to_le_bytes(magic) + spec_pad_command(c) + spec_u32_to_le_bytes(
        p.len() as u32,
    ) + bad + p;
    let s = m + rest;
    let hdr = s.take(HEADER_LEN as int);
    assert(hdr.subrange(0, 4) =~= spec_u32_to_le_bytes(magic));
    assert(hdr.subrange(4, 16) =~= spec_pad_command(c));
    assert(hdr.subrange(16, 20) =~= spec_u32_to_le_bytes(p.len() as u32));
    assert(hdr.subrange(20, 24) =~= bad);
    assert((p.len() as u32) as int == p.len());
    assert(s.subrange(HEADER_LEN as int, HEADER_LEN + p.len()) =~= p);
}

/// A message built from a sound command parses back to exactly that
/// command and payload, whatever follows it on the stream.
pub proof fn lemma_read_built_message(magic: u32, c: Seq<u8>, p: Seq<u8>, rest: Seq<u8>)
    requires
        spec_command_ok(c),
        c.len() <= COMMAND_LEN,
        p.len() <= 0xffffffff,
    ensures
        spec_read_message(spec_build_message(magic, c, p) + rest, magic) == Ok::<
            (Seq<u8>, Seq<u8>, int),
            HandshakeError,
        >((c, p, HEADER_LEN + p.len())),
{
    lemma_auto_spec_u32_to_from_le_bytes();
    lemma_pad_trim_round_trip(c);
    let m = spec_build_message(magic, c, p);
    let s = m + rest;
    let hdr = s.take(HEADER_LEN as int);
    assert(hdr.subrange(0, 4) =~= spec_u32_to_le_bytes(magic));
    assert(hdr.subrange(4, 16) =~= spec_pad_command(c));
    assert(hdr.subrange(16, 20) =~= spec_u32_to_le_bytes(p.len() as u32));
    assert(hdr.subrange(20, 24) =~= spec_checksum(p));
    assert((p.len() as u32) as int == p.len());
    assert(s.subrange(HEADER_LEN as int, HEADER_LEN + p.len()) =~= p);
}

} // verus!
