use sha2::Digest;
use vstd::prelude::*;
use vstd::slice::{slice_subrange, slice_to_vec};

verus! {

/// The 32-byte SHA-256 digest of a byte sequence.  The checksum engine
/// applies it twice; the digest itself is computed by an outside crate and
/// is only named here.
pub uninterp spec fn sha256_of(bytes: Seq<u8>) -> Seq<u8>;

/// Relies on sha2::Sha256::digest: the 32-byte digest depends on the input
/// bytes alone.
#[verifier::external_body]
fn sha256(data: &[u8]) -> (r: Vec<u8>)
    ensures
        r@ == sha256_of(data@),
        r@.len() == 32,
{
    sha2::Sha256::digest(data).to_vec()
}

/// The integrity tag carried in every message header: the first four bytes
/// of the double SHA-256 digest of the payload.  Written element-wise so
/// that its four-byte length stands on its own.
pub open spec fn spec_checksum(payload: Seq<u8>) -> Seq<u8> {
    Seq::new(4, |i: int| sha256_of(sha256_of(payload))[i])
}

/// Computes the four-byte integrity tag of a payload.  Accepts any byte
/// sequence, including the empty one; has no failure conditions.
pub fn checksum(payload: &[u8]) -> (r: Vec<u8>)
    ensures
        r@ == spec_checksum(payload@),
        r@.len() == 4,
{
    let first = sha256(payload);
    let second = sha256(first.as_slice());
    let r = slice_to_vec(slice_subrange(second.as_slice(), 0, 4));
    proof {
        assert(r@ =~= spec_checksum(payload@));
    }
    r
}

/// The checksum engine is deterministic: two results computed over the same
/// payload are always identical.
pub proof fn lemma_checksum_deterministic(p: Seq<u8>, r1: Seq<u8>, r2: Seq<u8>)
    requires
        r1 == spec_checksum(p),
        r2 == spec_checksum(p),
    ensures
        r1 == r2,
{
}

} // verus!
