//! Content digests.
//!
//! Every stored record carries a hash of its payload so that duplicate
//! bytes can be recognised.  The digest used here is 64-bit FNV-1a,
//! rendered as sixteen lower-case hexadecimal digits.

use vstd::prelude::*;
use crate::byteseq::hex_k;

verus! {

/// FNV-1a offset basis.
pub const FNV_OFFSET: u64 = 0xcbf29ce484222325;

/// FNV-1a prime.
pub const FNV_PRIME: u64 = 0x100000001b3;

/// One step of FNV-1a: fold a byte into the running hash.
pub open spec fn fnv_step(h: u64, b: u8) -> u64 {
    (h ^ (b as u64)).wrapping_mul(FNV_PRIME)
}

/// The 64-bit FNV-1a hash of a byte sequence.
pub open spec fn fnv1a(s: Seq<u8>) -> u64
    decreases s.len(),
{
    if s.len() == 0 {
        FNV_OFFSET
    } else {
        fnv_step(fnv1a(s.drop_last()), s.last())
    }
}

/// The digest of a payload: its FNV-1a hash in sixteen hexadecimal
/// digits.
pub open spec fn digest_hex(s: Seq<u8>) -> Seq<u8> {
    hex_k(fnv1a(s) as nat, 16)
}

/// Computes the digest of a payload.
pub fn content_digest(bytes: &[u8]) -> (r: Vec<u8>)
    ensures
        r@ == digest_hex(bytes@),
{
    let mut h: u64 = FNV_OFFSET;
    let mut i: usize = 0;
    proof {
        assert(bytes@.subrange(0, 0) =~= Seq::<u8>::empty());
    }
    while i < bytes.len()
        invariant
            i <= bytes@.len(),
            h == fnv1a(bytes@.subrange(0, i as int)),
        decreases bytes@.len() - i,
    {
        proof {
            let sub = bytes@.subrange(0, i + 1);
            assert(sub.drop_last() =~= bytes@.subrange(0, i as int));
            assert(sub.last() == bytes@[i as int]);
        }
        h = (h ^ (bytes[i] as u64)).wrapping_mul(FNV_PRIME);
        i += 1;
    }
    proof {
        assert(bytes@.subrange(0, bytes@.len() as int) =~= bytes@);
    }
    crate::byteseq::u64_to_hex_k(h, 16)
}

} // verus!
