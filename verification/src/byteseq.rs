//! Byte-string utilities shared by the content and pipeline logic.
//!
//! Filenames, storage paths and URLs are handled as byte strings.  This
//! module provides the verified building blocks: ASCII case folding,
//! case-insensitive prefix tests, splitting a filename into base name and
//! extension, decimal and hexadecimal rendering of integers, and decimal
//! parsing.

use vstd::prelude::*;

verus! {

/// Byte values of the ASCII characters the library builds names from.
pub const BYTE_DOT: u8 = 46;

pub const BYTE_DASH: u8 = 45;

pub const BYTE_PLUS: u8 = 43;

pub const BYTE_ZERO: u8 = 48;

pub const BYTE_NINE: u8 = 57;

pub const BYTE_UC_A: u8 = 65;

pub const BYTE_UC_Z: u8 = 90;

pub const BYTE_LC_A: u8 = 97;


/// ASCII lower-casing of a single byte.
pub open spec fn lower_byte(b: u8) -> u8 {
    if BYTE_UC_A <= b && b <= BYTE_UC_Z {
        (b + 32) as u8
    } else {
        b
    }
}

/// `pre` is a prefix of `s`, compared ASCII case-insensitively.
pub open spec fn is_ci_prefix(pre: Seq<u8>, s: Seq<u8>) -> bool {
    pre.len() <= s.len() && forall|i: int| 0 <= i < pre.len() ==> lower_byte(s[i]) == lower_byte(pre[i])
}

/// Index of the last `.` in `s`, or `-1` if there is none.
pub open spec fn last_dot_index(s: Seq<u8>) -> int
    decreases s.len(),
{
    if s.len() == 0 {
        -1
    } else if s[s.len() - 1] == BYTE_DOT {
        s.len() - 1
    } else {
        last_dot_index(s.drop_last())
    }
}

/// The filename without its final extension; the whole filename when it has
/// no extension.
pub open spec fn base_of(s: Seq<u8>) -> Seq<u8> {
    let i = last_dot_index(s);
    if i < 0 {
        s
    } else {
        s.subrange(0, i)
    }
}

/// The final extension of the filename, empty when it has none.
pub open spec fn ext_of(s: Seq<u8>) -> Seq<u8> {
    let i = last_dot_index(s);
    if i < 0 {
        Seq::empty()
    } else {
        s.subrange(i + 1, s.len() as int)
    }
}

pub proof fn lemma_last_dot_index_range(s: Seq<u8>)
    ensures
        -1 <= last_dot_index(s) < s.len(),
        last_dot_index(s) >= 0 ==> s[last_dot_index(s)] == BYTE_DOT,
    decreases s.len(),
{
    if s.len() > 0 && s[s.len() - 1] != BYTE_DOT {
        lemma_last_dot_index_range(s.drop_last());
    }
}

/// ASCII lower-casing of a byte, executable form.
pub fn to_lower_byte(b: u8) -> (r: u8)
    ensures
        r == lower_byte(b),
{
    if BYTE_UC_A <= b && b <= BYTE_UC_Z {
        b + 32
    } else {
        b
    }
}

/// Does `s` start with `pre`, ignoring ASCII case?
pub fn starts_with_ci(pre: &[u8], s: &[u8]) -> (r: bool)
    ensures
        r == is_ci_prefix(pre@, s@),
{
    if pre.len() > s.len() {
        return false;
    }
    let mut i: usize = 0;
    while i < pre.len()
        invariant
            i <= pre@.len() <= s@.len(),
            forall|j: int| 0 <= j < i ==> lower_byte(s@[j]) == lower_byte(pre@[j]),
        decreases pre@.len() - i,
    {
        if to_lower_byte(pre[i]) != to_lower_byte(s[i]) {
            return false;
        }
        i += 1;
    }
    true
}

/// Splits a filename into its base name and extension, both copied out.
pub fn split_extension(filename: &[u8]) -> (r: (Vec<u8>, Vec<u8>))
    ensures
        r.0@ == base_of(filename@),
        r.1@ == ext_of(filename@),
{
    let n = filename.len();
    let mut k: usize = n;
    proof {
        assert(filename@.subrange(0, n as int) =~= filename@);
    }
    while k > 0
        invariant
            k <= n == filename@.len(),
            last_dot_index(filename@) == last_dot_index(filename@.subrange(0, k as int)),
            forall|j: int| k <= j < n ==> filename@[j] != BYTE_DOT,
        decreases k,
    {
        if filename[k - 1] == BYTE_DOT {
            proof {
                assert(filename@.subrange(0, k as int)[k - 1] == BYTE_DOT);
                assert(last_dot_index(filename@.subrange(0, k as int)) == k - 1);
            }
            let base = vstd::slice::slice_to_vec(vstd::slice::slice_subrange(filename, 0, k - 1));
            let ext = vstd::slice::slice_to_vec(vstd::slice::slice_subrange(filename, k, n));
            proof {
                assert(base_of(filename@) =~= filename@.subrange(0, k - 1));
                assert(ext_of(filename@) =~= filename@.subrange(k as int, n as int));
            }
            return (base, ext);
        }
        proof {
            let sub = filename@.subrange(0, k as int);
            assert(sub[sub.len() - 1] != BYTE_DOT);
            assert(sub.drop_last() =~= filename@.subrange(0, k - 1));
        }
        k -= 1;
    }
    proof {
        assert(filename@.subrange(0, 0) =~= Seq::<u8>::empty());
        assert(last_dot_index(filename@) == -1);
    }
    let base = vstd::slice::slice_to_vec(vstd::slice::slice_subrange(filename, 0, n));
    proof {
        assert(base_of(filename@) =~= filename@.subrange(0, n as int));
        assert(base_of(filename@) =~= filename@);
        assert(ext_of(filename@) =~= Seq::<u8>::empty());
    }
    (base, Vec::new())
}

/// Decimal rendering of a natural number, most significant digit first.
pub open spec fn dec_nat(n: nat) -> Seq<u8>
    decreases n,
{
    if n < 10 {
        seq![(BYTE_ZERO + n) as u8]
    } else {
        dec_nat(n / 10).push((BYTE_ZERO + n % 10) as u8)
    }
}

/// Decimal rendering of an integer: a leading `-` for negative values.
pub open spec fn dec_int(n: int) -> Seq<u8> {
    if n >= 0 {
        dec_nat(n as nat)
    } else {
        seq![BYTE_DASH].add(dec_nat((-n) as nat))
    }
}

/// Renders `n` in decimal.
pub fn u64_to_dec(n: u64) -> (r: Vec<u8>)
    ensures
        r@ == dec_nat(n as nat),
    decreases n,
{
    if n < 10 {
        let mut v: Vec<u8> = Vec::new();
        v.push(BYTE_ZERO + (n as u8));
        proof {
            assert(v@ =~= dec_nat(n as nat));
        }
        v
    } else {
        let mut v = u64_to_dec(n / 10);
        v.push(BYTE_ZERO + ((n % 10) as u8));
        v
    }
}

/// Renders a signed value in decimal, with a leading `-` when negative.
pub fn i64_to_dec(n: i64) -> (r: Vec<u8>)
    ensures
        r@ == dec_int(n as int),
{
    if n >= 0 {
        u64_to_dec(n as u64)
    } else {
        // magnitude computed without overflowing i64::MIN
        let mag: u64 = ((-(n + 1)) as u64) + 1;
        let mut v: Vec<u8> = Vec::new();
        v.push(BYTE_DASH);
        let mut digits = u64_to_dec(mag);
        v.append(&mut digits);
        proof {
            assert(mag == -(n as int));
            assert(v@ =~= dec_int(n as int));
        }
        v
    }
}

/// Renders a 32-bit signed value in decimal.
pub fn i32_to_dec(n: i32) -> (r: Vec<u8>)
    ensures
        r@ == dec_int(n as int),
{
    i64_to_dec(n as i64)
}

/// The lower-case hexadecimal digit for a value below 16.
pub open spec fn hex_digit(n: int) -> u8 {
    if n < 10 {
        (BYTE_ZERO + n) as u8
    } else {
        (BYTE_LC_A + (n - 10)) as u8
    }
}

/// `k` lower-case hexadecimal digits of `n`, most significant first,
/// zero-padded on the left.
pub open spec fn hex_k(n: nat, k: nat) -> Seq<u8>
    decreases k,
{
    if k == 0 {
        Seq::empty()
    } else {
        hex_k(n / 16, (k - 1) as nat).push(hex_digit((n % 16) as int))
    }
}

/// Renders the low `k` hexadecimal digits of `n`, zero-padded.
pub fn u64_to_hex_k(n: u64, k: usize) -> (r: Vec<u8>)
    ensures
        r@ == hex_k(n as nat, k as nat),
    decreases k,
{
    if k == 0 {
        Vec::new()
    } else {
        let mut v = u64_to_hex_k(n / 16, k - 1);
        let d = (n % 16) as u8;
        if d < 10 {
            v.push(BYTE_ZERO + d);
        } else {
            v.push(BYTE_LC_A + (d - 10));
        }
        v
    }
}

/// The decimal rendering of a natural number consists of digits only.
pub proof fn lemma_dec_nat_digits(n: nat)
    ensures
        all_dec_digits(dec_nat(n)),
        dec_nat(n).len() >= 1,
        n >= 10 ==> dec_nat(n).len() >= 2,
    decreases n,
{
    if n < 10 {
        assert(is_dec_digit(dec_nat(n)[0]));
        assert forall|i: int| 0 <= i < dec_nat(n).len() implies is_dec_digit(
            #[trigger] dec_nat(n)[i],
        ) by {}
    } else {
        lemma_dec_nat_digits(n / 10);
        let d = dec_nat(n);
        let inner = dec_nat(n / 10);
        assert(d == inner.push((BYTE_ZERO + n % 10) as u8));
        assert forall|i: int| 0 <= i < d.len() implies is_dec_digit(#[trigger] d[i]) by {
            if i < inner.len() {
                assert(d[i] == inner[i]);
                assert(is_dec_digit(inner[i]));
            } else {
                assert(d[i] == (BYTE_ZERO + n % 10) as u8);
            }
        }
    }
}

/// Distinct natural numbers render to distinct decimal digit strings.
pub proof fn lemma_dec_nat_injective(a: nat, b: nat)
    requires
        dec_nat(a) == dec_nat(b),
    ensures
        a == b,
    decreases a,
{
    lemma_dec_nat_digits(a);
    lemma_dec_nat_digits(b);
    if a < 10 && b < 10 {
        assert(dec_nat(a)[0] == dec_nat(b)[0]);
        assert(dec_nat(a)[0] == (BYTE_ZERO + a) as u8);
        assert(dec_nat(b)[0] == (BYTE_ZERO + b) as u8);
        assert(a == b);
    } else if a < 10 {
        assert(dec_nat(a).len() == 1);
        assert(false);
    } else if b < 10 {
        assert(dec_nat(b).len() == 1);
        assert(false);
    } else {
        let da = dec_nat(a);
        let db = dec_nat(b);
        assert(da.last() == db.last());
        assert(a % 10 == b % 10);
        assert(da.drop_last() =~= dec_nat(a / 10));
        assert(db.drop_last() =~= dec_nat(b / 10));
        lemma_dec_nat_injective(a / 10, b / 10);
        assert(a == 10 * (a / 10) + a % 10);
        assert(b == 10 * (b / 10) + b % 10);
    }
}

/// `hex_k` renders exactly `k` digits.
pub proof fn lemma_hex_k_len(n: nat, k: nat)
    ensures
        hex_k(n, k).len() == k,
    decreases k,
{
    if k > 0 {
        lemma_hex_k_len(n / 16, (k - 1) as nat);
    }
}

/// Is `b` an ASCII decimal digit?
pub open spec fn is_dec_digit(b: u8) -> bool {
    BYTE_ZERO <= b && b <= BYTE_NINE
}

/// All bytes of `s` are decimal digits.
pub open spec fn all_dec_digits(s: Seq<u8>) -> bool {
    forall|i: int| 0 <= i < s.len() ==> is_dec_digit(#[trigger] s[i])
}

/// Numeric value of a digit string, most significant digit first.
pub open spec fn dec_seq_val(s: Seq<u8>) -> nat
    decreases s.len(),
{
    if s.len() == 0 {
        0
    } else {
        (dec_seq_val(s.drop_last()) * 10 + (s.last() - BYTE_ZERO)) as nat
    }
}

proof fn lemma_dec_seq_val_monotonic(s: Seq<u8>, i: int)
    requires
        0 <= i <= s.len(),
        all_dec_digits(s),
    ensures
        dec_seq_val(s.subrange(0, i)) <= dec_seq_val(s),
    decreases s.len() - i,
{
    if i < s.len() {
        let sub = s.subrange(0, i + 1);
        assert(sub.drop_last() =~= s.subrange(0, i));
        assert(is_dec_digit(sub.last()));
        assert(dec_seq_val(s.subrange(0, i)) <= dec_seq_val(s.subrange(0, i + 1)));
        lemma_dec_seq_val_monotonic(s, i + 1);
    } else {
        assert(s.subrange(0, i) =~= s);
    }
}

/// Parses an unsigned decimal digit string.  Succeeds exactly when `s` is a
/// non-empty run of digits whose value does not exceed `bound`.
pub fn parse_digits_u64(s: &[u8], bound: u64) -> (r: Option<u64>)
    ensures
        match r {
            Some(v) => s@.len() > 0 && all_dec_digits(s@) && dec_seq_val(s@) == v && v <= bound,
            None => s@.len() == 0 || !all_dec_digits(s@) || dec_seq_val(s@) > bound,
        },
{
    if s.len() == 0 {
        return None;
    }
    let mut acc: u64 = 0;
    let mut i: usize = 0;
    while i < s.len()
        invariant
            i <= s@.len(),
            bound <= u64::MAX,
            acc == dec_seq_val(s@.subrange(0, i as int)),
            acc <= bound,
            all_dec_digits(s@.subrange(0, i as int)),
        decreases s@.len() - i,
    {
        let b = s[i];
        if b < BYTE_ZERO || b > BYTE_NINE {
            return None;
        }
        let d = (b - BYTE_ZERO) as u64;
        proof {
            let sub = s@.subrange(0, i + 1);
            assert(sub.drop_last() =~= s@.subrange(0, i as int));
            assert(sub.last() == s@[i as int]);
            assert(all_dec_digits(sub));
        }
        if d > bound {
            proof {
                assert(dec_seq_val(s@.subrange(0, i + 1)) > bound);
                if all_dec_digits(s@) {
                    lemma_dec_seq_val_monotonic(s@, i + 1);
                }
            }
            return None;
        }
        if acc > (bound - d) / 10 {
            proof {
                let q = (bound - d) / 10;
                assert(q * 10 + (bound - d) % 10 == bound - d);
                assert(acc * 10 >= q * 10 + 10);
                assert(dec_seq_val(s@.subrange(0, i + 1)) > bound);
                if all_dec_digits(s@) {
                    lemma_dec_seq_val_monotonic(s@, i + 1);
                }
            }
            return None;
        }
        proof {
            let q = (bound - d) / 10;
            assert(q * 10 + (bound - d) % 10 == bound - d);
            assert(acc * 10 <= q * 10);
        }
        acc = acc * 10 + d;
        i += 1;
    }
    proof {
        assert(s@.subrange(0, s@.len() as int) =~= s@);
    }
    Some(acc)
}

/// Byte-for-byte equality of two slices.
pub fn bytes_eq(a: &[u8], b: &[u8]) -> (r: bool)
    ensures
        r == (a@ == b@),
{
    if a.len() != b.len() {
        return false;
    }
    let mut i: usize = 0;
    while i < a.len()
        invariant
            i <= a@.len() == b@.len(),
            forall|j: int| 0 <= j < i ==> a@[j] == b@[j],
        decreases a@.len() - i,
    {
        if a[i] != b[i] {
            return false;
        }
        i += 1;
    }
    proof {
        assert(a@ =~= b@);
    }
    true
}

/// Appends all of `src` to `dst`.
pub fn push_all(dst: &mut Vec<u8>, src: &[u8])
    ensures
        final(dst)@ == old(dst)@ + src@,
{
    let mut i: usize = 0;
    while i < src.len()
        invariant
            i <= src@.len(),
            dst@ == old(dst)@ + src@.subrange(0, i as int),
        decreases src@.len() - i,
    {
        dst.push(src[i]);
        proof {
            assert(old(dst)@ + src@.subrange(0, i + 1) =~= (old(dst)@ + src@.subrange(0, i as int)).push(
                src@[i as int]));
        }
        i += 1;
    }
    proof {
        assert(old(dst)@ + src@.subrange(0, src@.len() as int) =~= old(dst)@ + src@);
    }
}

} // verus!
