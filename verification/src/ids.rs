//! Record identifiers.
//!
//! A record id stands for the twelve-byte identifier that the document
//! store assigns to content and pipeline records.  It is held as two
//! 48-bit halves, is rendered as twenty-four lower-case hexadecimal
//! digits, and is parsed from hexadecimal text in either case.

use vstd::prelude::*;
use crate::byteseq::{hex_k, BYTE_LC_A, BYTE_NINE, BYTE_UC_A, BYTE_ZERO};

verus! {

/// Upper bound (exclusive) of each 48-bit half of a record id.
pub const HALF_ID_BOUND: u64 = 0x1000000000000;

/// A twelve-byte record identifier, split into two 48-bit halves:
/// `hi` holds the first six bytes, `lo` the last six.
#[derive(Clone, Copy, PartialEq, Eq, Structural, Debug)]
pub struct RecordId {
    pub hi: u64,
    pub lo: u64,
}

impl RecordId {
    /// Both halves fit in 48 bits.
    pub open spec fn wf(self) -> bool {
        self.hi < HALF_ID_BOUND && self.lo < HALF_ID_BOUND
    }

    /// The twenty-four lower-case hexadecimal digits of the id.
    pub open spec fn hex(self) -> Seq<u8> {
        hex_k(self.hi as nat, 12) + hex_k(self.lo as nat, 12)
    }

    /// Renders the id as twenty-four lower-case hexadecimal digits.
    pub fn to_hex_bytes(&self) -> (r: Vec<u8>)
        ensures
            r@ == self.hex(),
    {
        let mut v = crate::byteseq::u64_to_hex_k(self.hi, 12);
        let mut w = crate::byteseq::u64_to_hex_k(self.lo, 12);
        v.append(&mut w);
        v
    }

    /// Builds an id from its twelve-byte form, first byte most
    /// significant.
    pub fn from_bytes(b: &[u8; 12]) -> (r: RecordId)
        ensures
            r.wf(),
            r.hi == bytes_half_val(b@.subrange(0, 6)),
            r.lo == bytes_half_val(b@.subrange(6, 12)),
    {
        let hi = half_from_bytes(b[0], b[1], b[2], b[3], b[4], b[5]);
        let lo = half_from_bytes(b[6], b[7], b[8], b[9], b[10], b[11]);
        proof {
            assert(b@.subrange(0, 6) =~= seq![b@[0], b@[1], b@[2], b@[3], b@[4], b@[5]]);
            assert(b@.subrange(6, 12) =~= seq![b@[6], b@[7], b@[8], b@[9], b@[10], b@[11]]);
        }
        RecordId { hi, lo }
    }
}

/// Big-endian value of a byte sequence.
pub open spec fn bytes_half_val(s: Seq<u8>) -> nat
    decreases s.len(),
{
    if s.len() == 0 {
        0
    } else {
        (bytes_half_val(s.drop_last()) * 256 + s.last()) as nat
    }
}

fn half_from_bytes(b0: u8, b1: u8, b2: u8, b3: u8, b4: u8, b5: u8) -> (r: u64)
    ensures
        r == bytes_half_val(seq![b0, b1, b2, b3, b4, b5]),
        r < HALF_ID_BOUND,
{
    let r = (b0 as u64) * 0x10000000000 + (b1 as u64) * 0x100000000 + (b2 as u64) * 0x1000000 + (b3
        as u64) * 0x10000 + (b4 as u64) * 0x100 + (b5 as u64);
    proof {
        reveal_with_fuel(bytes_half_val, 7);
        let s = seq![b0, b1, b2, b3, b4, b5];
        assert(s.drop_last() =~= seq![b0, b1, b2, b3, b4]);
        assert(s.drop_last().drop_last() =~= seq![b0, b1, b2, b3]);
        assert(s.drop_last().drop_last().drop_last() =~= seq![b0, b1, b2]);
        assert(s.drop_last().drop_last().drop_last().drop_last() =~= seq![b0, b1]);
        assert(s.drop_last().drop_last().drop_last().drop_last().drop_last() =~= seq![b0]);
    }
    r
}

/// Is `b` a hexadecimal digit (either case)?
pub open spec fn is_hex_digit(b: u8) -> bool {
    (BYTE_ZERO <= b && b <= BYTE_NINE) || (BYTE_LC_A <= b && b <= BYTE_LC_A + 5) || (BYTE_UC_A <= b
        && b <= BYTE_UC_A + 5)
}

/// Numeric value of a hexadecimal digit.
pub open spec fn hex_digit_val(b: u8) -> nat {
    if BYTE_ZERO <= b && b <= BYTE_NINE {
        (b - BYTE_ZERO) as nat
    } else if BYTE_LC_A <= b && b <= BYTE_LC_A + 5 {
        (b - BYTE_LC_A + 10) as nat
    } else if BYTE_UC_A <= b && b <= BYTE_UC_A + 5 {
        (b - BYTE_UC_A + 10) as nat
    } else {
        0
    }
}

/// All bytes of `s` are hexadecimal digits.
pub open spec fn all_hex_digits(s: Seq<u8>) -> bool {
    forall|i: int| 0 <= i < s.len() ==> is_hex_digit(#[trigger] s[i])
}

/// Numeric value of a hexadecimal digit string, most significant first.
pub open spec fn hex_seq_val(s: Seq<u8>) -> nat
    decreases s.len(),
{
    if s.len() == 0 {
        0
    } else {
        hex_seq_val(s.drop_last()) * 16 + hex_digit_val(s.last())
    }
}

/// A valid textual record id: exactly twenty-four hexadecimal digits.
pub open spec fn is_valid_id_text(s: Seq<u8>) -> bool {
    s.len() == 24 && all_hex_digits(s)
}

/// The record id that a valid textual id denotes.
pub open spec fn id_of_text(s: Seq<u8>) -> RecordId {
    RecordId { hi: hex_seq_val(s.subrange(0, 12)) as u64, lo: hex_seq_val(s.subrange(12, 24)) as u64 }
}

fn parse_hex_half(s: &[u8]) -> (r: Option<u64>)
    requires
        s@.len() == 12,
    ensures
        match r {
            Some(v) => all_hex_digits(s@) && v == hex_seq_val(s@) && v < HALF_ID_BOUND,
            None => !all_hex_digits(s@),
        },
{
    let mut acc: u64 = 0;
    let mut i: usize = 0;
    while i < 12
        invariant
            i <= 12 == s@.len(),
            acc == hex_seq_val(s@.subrange(0, i as int)),
            all_hex_digits(s@.subrange(0, i as int)),
            acc < pow16(i as nat),
        decreases 12 - i,
    {
        let b = s[i];
        let v: u64;
        if BYTE_ZERO <= b && b <= BYTE_NINE {
            v = (b - BYTE_ZERO) as u64;
        } else if BYTE_LC_A <= b && b <= BYTE_LC_A + 5 {
            v = (b - BYTE_LC_A + 10) as u64;
        } else if BYTE_UC_A <= b && b <= BYTE_UC_A + 5 {
            v = (b - BYTE_UC_A + 10) as u64;
        } else {
            proof {
                assert(!is_hex_digit(s@[i as int]));
            }
            return None;
        }
        proof {
            let sub = s@.subrange(0, i + 1);
            assert(sub.drop_last() =~= s@.subrange(0, i as int));
            assert(sub.last() == s@[i as int]);
            assert(all_hex_digits(sub));
            assert(v == hex_digit_val(s@[i as int]));
            lemma_pow16_step(i as nat);
            lemma_pow16_mono((i + 1) as nat, 12);
            lemma_pow16_bound();
            assert(acc * 16 <= (pow16(i as nat) - 1) * 16);
        }
        acc = acc * 16 + v;
        i += 1;
    }
    proof {
        assert(s@.subrange(0, 12) =~= s@);
        lemma_pow16_bound();
    }
    Some(acc)
}

/// Sixteen to the power `k`.
pub open spec fn pow16(k: nat) -> nat
    decreases k,
{
    if k == 0 {
        1
    } else {
        16 * pow16((k - 1) as nat)
    }
}

proof fn lemma_pow16_step(k: nat)
    ensures
        pow16(k + 1) == 16 * pow16(k),
{
}

proof fn lemma_pow16_pos(k: nat)
    ensures
        pow16(k) >= 1,
    decreases k,
{
    if k > 0 {
        lemma_pow16_pos((k - 1) as nat);
    }
}

proof fn lemma_pow16_mono(a: nat, b: nat)
    requires
        a <= b,
    ensures
        pow16(a) <= pow16(b),
    decreases b,
{
    if a < b {
        lemma_pow16_mono(a, (b - 1) as nat);
        lemma_pow16_pos((b - 1) as nat);
    }
}

proof fn lemma_pow16_bound()
    ensures
        pow16(12) == 0x1000000000000,
{
    reveal_with_fuel(pow16, 13);
    assert(pow16(12) == 0x1000000000000);
}

/// Parses a textual record id: twenty-four hexadecimal digits, either
/// case.  Returns `None` on any other input.
pub fn parse_record_id(s: &[u8]) -> (r: Option<RecordId>)
    ensures
        match r {
            Some(id) => is_valid_id_text(s@) && id == id_of_text(s@) && id.wf(),
            None => !is_valid_id_text(s@),
        },
{
    if s.len() != 24 {
        return None;
    }
    let hi_half = parse_hex_half(vstd::slice::slice_subrange(s, 0, 12));
    let lo_half = parse_hex_half(vstd::slice::slice_subrange(s, 12, 24));
    match (hi_half, lo_half) {
        (Some(hi), Some(lo)) => {
            proof {
                assert forall|i: int| 0 <= i < s@.len() implies is_hex_digit(#[trigger] s@[i]) by {
                    if i < 12 {
                        assert(s@.subrange(0, 12)[i] == s@[i]);
                    } else {
                        assert(s@.subrange(12, 24)[i - 12] == s@[i]);
                    }
                }
            }
            Some(RecordId { hi, lo })
        },
        _ => {
            proof {
                if all_hex_digits(s@) {
                    assert forall|i: int| 0 <= i < 12 implies is_hex_digit(
                        #[trigger] s@.subrange(0, 12)[i],
                    ) by {
                        assert(s@.subrange(0, 12)[i] == s@[i]);
                    }
                    assert forall|i: int| 0 <= i < 12 implies is_hex_digit(
                        #[trigger] s@.subrange(12, 24)[i],
                    ) by {
                        assert(s@.subrange(12, 24)[i] == s@[i + 12]);
                    }
                }
            }
            None
        },
    }
}

/// Relies on `bson::oid::ObjectId::new` to generate a fresh twelve-byte
/// identifier; nothing is assumed about its value.
#[verifier::external_body]
fn fresh_id_bytes() -> [u8; 12] {
    bson::oid::ObjectId::new().bytes()
}

/// Draws a freshly generated record id from the identifier generator.
pub fn fresh_record_id() -> (r: RecordId)
    ensures
        r.wf(),
{
    let b = fresh_id_bytes();
    RecordId::from_bytes(&b)
}

} // verus!
