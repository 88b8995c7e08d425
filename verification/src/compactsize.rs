use vstd::bytes::{
    lemma_auto_spec_u16_to_from_le_bytes, lemma_auto_spec_u32_to_from_le_bytes,
    lemma_auto_spec_u64_to_from_le_bytes, spec_u16_from_le_bytes, spec_u16_to_le_bytes,
    spec_u32_from_le_bytes, spec_u32_to_le_bytes, spec_u64_from_le_bytes, spec_u64_to_le_bytes,
    u16_from_le_bytes, u16_to_le_bytes, u32_from_le_bytes, u32_to_le_bytes, u64_from_le_bytes,
    u64_to_le_bytes,
};
use vstd::prelude::*;
use vstd::slice::{slice_index_get, slice_subrange};

verus! {

/// The protocol's variable-width length prefix: one byte below 0xFD,
/// otherwise a tag byte followed by the value in 2, 4 or 8 little-endian
/// bytes, always in the shortest form that holds the value.
pub open spec fn spec_encode_compact_size(n: u64) -> Seq<u8> {
    if n < 0xfd {
        seq![n as u8]
    } else if n <= 0xffff {
        seq![0xfdu8] + spec_u16_to_le_bytes(n as u16)
    } else if n <= 0xffffffff {
        seq![0xfeu8] + spec_u32_to_le_bytes(n as u32)
    } else {
        seq![0xffu8] + spec_u64_to_le_bytes(n)
    }
}

/// Reads a compact-size prefix from the front of `b`: the value and the
/// number of bytes it occupied.  `None` when `b` is too short or the
/// encoding is not the shortest form.
pub open spec fn spec_decode_compact_size(b: Seq<u8>) -> Option<(u64, int)> {
    if b.len() < 1 {
        None
    } else {
        let tag = b[0];
        if tag < 0xfd {
            Some((tag as u64, 1))
        } else if tag == 0xfd {
            if b.len() < 3 {
                None
            } else {
                let v = spec_u16_from_le_bytes(b.subrange(1, 3));
                if v < 0xfd {
                    None
                } else {
                    Some((v as u64, 3))
                }
            }
        } else if tag == 0xfe {
            if b.len() < 5 {
                None
            } else {
                let v = spec_u32_from_le_bytes(b.subrange(1, 5));
                if v <= 0xffff {
                    None
                } else {
                    Some((v as u64, 5))
                }
            }
        } else {
            if b.len() < 9 {
                None
            } else {
                let v = spec_u64_from_le_bytes(b.subrange(1, 9));
                if v <= 0xffffffff {
                    None
                } else {
                    Some((v, 9))
                }
            }
        }
    }
}

pub fn encode_compact_size(n: u64) -> (r: Vec<u8>)
    ensures
        r@ == spec_encode_compact_size(n),
        1 <= r@.len() <= 9,
{
    proof {
        lemma_auto_spec_u16_to_from_le_bytes();
        lemma_auto_spec_u32_to_from_le_bytes();
        lemma_auto_spec_u64_to_from_le_bytes();
    }
    let mut r: Vec<u8> = Vec::new();
    if n < 0xfd {
        r.push(n as u8);
    } else if n <= 0xffff {
        r.push(0xfdu8);
        let mut tail = u16_to_le_bytes(n as u16);
        r.append(&mut tail);
    } else if n <= 0xffffffff {
        r.push(0xfeu8);
        let mut tail = u32_to_le_bytes(n as u32);
        r.append(&mut tail);
    } else {
        r.push(0xffu8);
        let mut tail = u64_to_le_bytes(n);
        r.append(&mut tail);
    }
    proof {
        assert(r@ =~= spec_encode_compact_size(n));
    }
    r
}

pub fn decode_compact_size(b: &[u8]) -> (r: Option<(u64, usize)>)
    ensures
        match r {
            Some(p) => spec_decode_compact_size(b@) == Some((p.0, p.1 as int)),
            None => spec_decode_compact_size(b@) is None,
        },
{
    proof {
        lemma_auto_spec_u16_to_from_le_bytes();
        lemma_auto_spec_u32_to_from_le_bytes();
        lemma_auto_spec_u64_to_from_le_bytes();
    }
    if b.len() < 1 {
        return None;
    }
    let tag = *slice_index_get(b, 0);
    if tag < 0xfd {
        Some((tag as u64, 1))
    } else if tag == 0xfd {
        if b.len() < 3 {
            None
        } else {
            let v = u16_from_le_bytes(slice_subrange(b, 1, 3));
            if v < 0xfd {
                None
            } else {
                Some((v as u64, 3))
            }
        }
    } else if tag == 0xfe {
        if b.len() < 5 {
            None
        } else {
            let v = u32_from_le_bytes(slice_subrange(b, 1, 5));
            if v <= 0xffff {
                None
            } else {
                Some((v as u64, 5))
            }
        }
    } else {
        if b.len() < 9 {
            None
        } else {
            let v = u64_from_le_bytes(slice_subrange(b, 1, 9));
            if v <= 0xffffffff {
                None
            } else {
                Some((v, 9))
            }
        }
    }
}

/// A compact-size prefix placed in front of any remainder decodes back to
/// the value it encodes, consuming exactly its own bytes.
pub proof fn lemma_compact_size_round_trip(n: u64, rest: Seq<u8>)
    ensures
        spec_decode_compact_size(spec_encode_compact_size(n) + rest) == Some(
            (n, spec_encode_compact_size(n).len() as int),
        ),
{
    lemma_auto_spec_u16_to_from_le_bytes();
    lemma_auto_spec_u32_to_from_le_bytes();
    lemma_auto_spec_u64_to_from_le_bytes();
    let e = spec_encode_compact_size(n);
    let w = e + rest;
    if n < 0xfd {
        assert(w[0] == n as u8);
        assert((n as u8) as u64 == n);
    } else if n <= 0xffff {
        assert(w[0] == 0xfdu8);
        assert(w.subrange(1, 3) =~= spec_u16_to_le_bytes(n as u16));
        assert(spec_u16_from_le_bytes(w.subrange(1, 3)) == n as u16);
        assert((n as u16) as u64 == n);
    } else if n <= 0xffffffff {
        assert(w[0] == 0xfeu8);
        assert(w.subrange(1, 5) =~= spec_u32_to_le_bytes(n as u32));
        assert(spec_u32_from_le_bytes(w.subrange(1, 5)) == n as u32);
        assert((n as u32) as u64 == n);
    } else {
        assert(w[0] == 0xffu8);
        assert(w.subrange(1, 9) =~= spec_u64_to_le_bytes(n));
        assert(spec_u64_from_le_bytes(w.subrange(1, 9)) == n);
    }
}

} // verus!
