//! Byte strings as unsigned integers: the big-endian and little-endian value
//! of a byte sequence, the minimal big-endian form, and the 4-byte big-endian
//! length fields used by the handshake envelopes.
use vstd::prelude::*;
use vstd::arithmetic::div_mod::{
    lemma_fundamental_div_mod, lemma_div_denominator, lemma_mod_division_less_than_divisor,
    lemma_small_mod,
};
use vstd::arithmetic::power::{pow, lemma_pow_increases};


verus! {

/// The unsigned integer that a byte string denotes in big-endian order.
pub open spec fn be_val(s: Seq<u8>) -> nat
    decreases s.len(),
{
    if s.len() == 0 {
        0
    } else {
        be_val(s.drop_last()) * 256 + s.last() as nat
    }
}

/// The unsigned integer that a byte string denotes in little-endian order.
pub open spec fn le_val(s: Seq<u8>) -> nat
    decreases s.len(),
{
    if s.len() == 0 {
        0
    } else {
        s.first() as nat + 256 * le_val(s.drop_first())
    }
}

/// The minimal big-endian form of a number: no leading zero byte, except that
/// zero itself is the single byte `0x00`.
pub open spec fn canonical_be(s: Seq<u8>) -> bool {
    s.len() >= 1 && (s.len() == 1 || s.first() != 0)
}

/// A big-endian byte string of length `n` denotes a value below `256^n`.
pub proof fn lemma_be_val_upper(s: Seq<u8>)
    ensures
        be_val(s) < pow(256, s.len()),
    decreases s.len(),
{
    reveal(pow);
    if s.len() == 0 {
        assert(pow(256, 0) == 1);
    } else {
        lemma_be_val_upper(s.drop_last());
        assert(pow(256, s.len()) == 256 * pow(256, (s.len() - 1) as nat));
        assert(be_val(s.drop_last()) * 256 <= (pow(256, (s.len() - 1) as nat) - 1) * 256)
            by (nonlinear_arith)
            requires be_val(s.drop_last()) <= pow(256, (s.len() - 1) as nat) - 1;
    }
}

/// A big-endian byte string with a nonzero leading byte denotes a value of at
/// least `256^(n-1)`.
pub proof fn lemma_be_val_lower(s: Seq<u8>)
    requires
        s.len() >= 1,
        s.first() != 0,
    ensures
        be_val(s) >= pow(256, (s.len() - 1) as nat),
    decreases s.len(),
{
    reveal(pow);
    if s.len() == 1 {
        assert(pow(256, 0) == 1);
        assert(be_val(s) == be_val(s.drop_last()) * 256 + s.last());
        assert(s.last() == s.first());
    } else {
        assert(s.drop_last().first() == s.first());
        lemma_be_val_lower(s.drop_last());
        assert(pow(256, (s.len() - 1) as nat) == 256 * pow(256, (s.len() - 2) as nat));
        assert(be_val(s.drop_last()) * 256 >= pow(256, (s.len() - 2) as nat) * 256)
            by (nonlinear_arith)
            requires be_val(s.drop_last()) >= pow(256, (s.len() - 2) as nat);
    }
}

/// Byte strings of equal length with equal big-endian value are equal.
pub proof fn lemma_be_val_same_len_eq(s1: Seq<u8>, s2: Seq<u8>)
    requires
        s1.len() == s2.len(),
        be_val(s1) == be_val(s2),
    ensures
        s1 == s2,
    decreases s1.len(),
{
    if s1.len() == 0 {
        assert(s1 =~= s2);
    } else {
        let q1 = be_val(s1.drop_last());
        let q2 = be_val(s2.drop_last());
        assert(q1 * 256 + s1.last() == q2 * 256 + s2.last());
        assert(s1.last() == s2.last() && q1 == q2) by (nonlinear_arith)
            requires
                q1 * 256 + s1.last() == q2 * 256 + s2.last(),
                s1.last() < 256,
                s2.last() < 256;
        lemma_be_val_same_len_eq(s1.drop_last(), s2.drop_last());
        assert forall|i: int| 0 <= i < s1.len() implies s1[i] == s2[i] by {
            if i < s1.len() - 1 {
                assert(s1[i] == s1.drop_last()[i]);
                assert(s2[i] == s2.drop_last()[i]);
            } else {
                assert(s1[i] == s1.last());
                assert(s2[i] == s2.last());
            }
        }
        assert(s1 =~= s2);
    }
}

/// A number has exactly one minimal big-endian form.
pub proof fn lemma_canonical_be_unique(s1: Seq<u8>, s2: Seq<u8>)
    requires
        canonical_be(s1),
        canonical_be(s2),
        be_val(s1) == be_val(s2),
    ensures
        s1 == s2,
{
    // A longer form would have at least two bytes and lead nonzero, so its
    // value would be too large to also fit in the shorter length.
    if s1.len() < s2.len() {
        lemma_be_val_upper(s1);
        lemma_be_val_lower(s2);
        lemma_pow_increases(256, s1.len(), (s2.len() - 1) as nat);
    } else if s2.len() < s1.len() {
        lemma_be_val_upper(s2);
        lemma_be_val_lower(s1);
        lemma_pow_increases(256, s2.len(), (s1.len() - 1) as nat);
    }
    lemma_be_val_same_len_eq(s1, s2);
}

/// The 4-byte big-endian form of a number below 2^32.
pub open spec fn be32(n: nat) -> Seq<u8>
    recommends
        n < 0x1_0000_0000,
{
    seq![
        (n / 0x100_0000 % 0x100) as u8,
        (n / 0x1_0000 % 0x100) as u8,
        (n / 0x100 % 0x100) as u8,
        (n % 0x100) as u8,
    ]
}

/// The big-endian value of a 4-byte string, spelled out.
pub proof fn lemma_be_val4(s: Seq<u8>)
    requires
        s.len() == 4,
    ensures
        be_val(s) == s[0] * 0x100_0000 + s[1] * 0x1_0000 + s[2] * 0x100 + s[3],
{
    reveal_with_fuel(be_val, 5);
    assert(s.drop_last() =~= seq![s[0], s[1], s[2]]);
    assert(s.drop_last().drop_last() =~= seq![s[0], s[1]]);
    assert(s.drop_last().drop_last().drop_last() =~= seq![s[0]]);
    assert(seq![s[0]].drop_last() =~= Seq::<u8>::empty());
}

/// `be32` really is the 4-byte big-endian form: reading it back gives `n`.
pub proof fn lemma_be32_val(n: nat)
    requires
        n < 0x1_0000_0000,
    ensures
        be_val(be32(n)) == n,
        be32(n).len() == 4,
{
    let s = be32(n);
    lemma_be_val4(s);
    lemma_mod_division_less_than_divisor(n as int, 0x100);
    lemma_mod_division_less_than_divisor((n / 0x100) as int, 0x100);
    lemma_mod_division_less_than_divisor((n / 0x1_0000) as int, 0x100);
    lemma_small_mod(n / 0x100_0000, 0x100);
    // peel the bytes off one power of 256 at a time
    lemma_fundamental_div_mod(n as int, 0x100);
    lemma_fundamental_div_mod((n / 0x100) as int, 0x100);
    lemma_fundamental_div_mod((n / 0x1_0000) as int, 0x100);
    lemma_div_denominator(n as int, 0x100, 0x100);
    lemma_div_denominator(n as int, 0x1_0000, 0x100);
}

/// Appends the 4-byte big-endian form of `n`.
pub fn push_be32(out: &mut Vec<u8>, n: u32)
    ensures
        final(out)@ == old(out)@ + be32(n as nat),
{
    out.push((n / 0x100_0000 % 0x100) as u8);
    out.push((n / 0x1_0000 % 0x100) as u8);
    out.push((n / 0x100 % 0x100) as u8);
    out.push((n % 0x100) as u8);
    assert(out@ =~= old(out)@ + be32(n as nat));
}

/// Reads a 4-byte big-endian length field.
pub fn u32_from_be(b: &[u8]) -> (r: u32)
    requires
        b@.len() == 4,
    ensures
        r == be_val(b@),
{
    proof {
        lemma_be_val4(b@);
    }
    (b[0] as u32) * 0x100_0000 + (b[1] as u32) * 0x1_0000 + (b[2] as u32) * 0x100 + (b[3] as u32)
}


/// The minimal big-endian form of a number, as a function of the number: the
/// byte string that `canonical_be` and the value pin down uniquely.
pub open spec fn canon_be(n: nat) -> Seq<u8> {
    choose|s: Seq<u8>| canonical_be(s) && be_val(s) == n
}

/// Any byte string in minimal form is what `canon_be` names for its value.
pub proof fn lemma_canon_be(s: Seq<u8>)
    requires
        canonical_be(s),
    ensures
        canon_be(be_val(s)) == s,
{
    let n = be_val(s);
    assert(canonical_be(s) && be_val(s) == n);
    let w = choose|t: Seq<u8>| canonical_be(t) && be_val(t) == n;
    lemma_canonical_be_unique(w, s);
}

/// A minimal-form byte string denoting a value below `256^k` has at most `k`
/// bytes.
pub proof fn lemma_canonical_len_bound(s: Seq<u8>, k: nat)
    requires
        canonical_be(s),
        be_val(s) < pow(256, k),
        k >= 1,
    ensures
        s.len() <= k,
{
    if s.len() > k {
        lemma_be_val_lower(s);
        lemma_pow_increases(256, k, (s.len() - 1) as nat);
    }
}

} // verus!
