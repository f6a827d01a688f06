//! Integers of 256 bits: their digits in base 2, 256 and 2^64.
use vstd::prelude::*;
use vstd::arithmetic::power2::lemma_pow2_pos;
use vstd::arithmetic::power2::lemma_pow2_unfold;
use vstd::arithmetic::power2::pow2;
use ark_ff::BigInt;
use ark_ff::BigInteger;

verus! {

/// The number whose base-256 digits are `s`, least significant first.
pub open spec fn le_value(s: Seq<u8>) -> nat
    decreases s.len(),
{
    if s.len() == 0 {
        0
    } else {
        s[0] as nat + 256 * le_value(s.drop_first())
    }
}

/// The `k` lowest base-256 digits of `n`, least significant first.
pub open spec fn le_digits(n: nat, k: nat) -> Seq<u8>
    decreases k,
{
    if k == 0 {
        Seq::empty()
    } else {
        seq![(n % 256) as u8] + le_digits(n / 256, (k - 1) as nat)
    }
}

/// There are as many digits as are asked for.
pub proof fn lemma_le_digits_len(n: nat, k: nat)
    ensures
        le_digits(n, k).len() == k,
    decreases k,
{
    if k > 0 {
        lemma_le_digits_len(n / 256, (k - 1) as nat);
    }
}

/// The digits of a number are those of which it is the value.
pub proof fn lemma_le_digits(s: Seq<u8>)
    ensures
        le_digits(le_value(s), s.len()) == s,
    decreases s.len(),
{
    if s.len() == 0 {
        assert(le_digits(0, 0) =~= s);
    } else {
        lemma_le_digits(s.drop_first());
        assert(le_digits(le_value(s), s.len()) =~= s);
    }
}

/// The number whose binary digits are `s`, least significant first.
pub open spec fn bits_value(s: Seq<bool>) -> nat
    decreases s.len(),
{
    if s.len() == 0 {
        0
    } else {
        (if s[0] {
            1nat
        } else {
            0nat
        }) + 2 * bits_value(s.drop_first())
    }
}

/// The number with the 64-bit limbs `n`, least significant first.
pub open spec fn limbs_value(n: [u64; 4]) -> nat {
    (n[0] + 0x1_0000_0000_0000_0000 * n[1] + 0x1_0000_0000_0000_0000_0000_0000_0000_0000 * n[2]
        + 0x1_0000_0000_0000_0000_0000_0000_0000_0000_0000_0000_0000_0000 * n[3]) as nat
}

/// Whether the number with the limbs `a` is less than the one with the limbs `b`.
pub fn limbs_less(a: &[u64; 4], b: &[u64; 4]) -> (r: bool)
    ensures
        r == (limbs_value(*a) < limbs_value(*b)),
{
    if a[3] != b[3] {
        a[3] < b[3]
    } else if a[2] != b[2] {
        a[2] < b[2]
    } else if a[1] != b[1] {
        a[1] < b[1]
    } else {
        a[0] < b[0]
    }
}

/// `ark_ff`'s `BigInteger::to_bytes_le`: the 32 bytes of the number, least
/// significant first.
#[verifier::external_body]
pub(crate) fn ark_to_bytes_le(n: [u64; 4]) -> (r: Vec<u8>)
    ensures
        r@.len() == 32,
        le_value(r@) == limbs_value(n),
{
    BigInt(n).to_bytes_le()
}

/// `ark_ff`'s `BigInteger::to_bytes_be`: the 32 bytes of the number, most
/// significant first.
#[verifier::external_body]
pub(crate) fn ark_to_bytes_be(n: [u64; 4]) -> (r: Vec<u8>)
    ensures
        r@.len() == 32,
        le_value(r@.reverse()) == limbs_value(n),
{
    BigInt(n).to_bytes_be()
}

/// `ark_ff`'s `BigInteger::to_bits_le`: the 256 binary digits of the number,
/// least significant first.
#[verifier::external_body]
pub(crate) fn ark_to_bits_le(n: [u64; 4]) -> (r: Vec<bool>)
    ensures
        r@.len() == 256,
        bits_value(r@) == limbs_value(n),
{
    BigInt(n).to_bits_le()
}

/// `ark_ff`'s `BigInteger::from_bits_le`: the number with the given binary
/// digits.
#[verifier::external_body]
pub(crate) fn ark_from_bits_le(bits: &Vec<bool>) -> (r: [u64; 4])
    requires
        bits@.len() <= 256,
    ensures
        limbs_value(r) == bits_value(bits@),
{
    BigInt::<4>::from_bits_le(bits).0
}

/// A number of `k` binary digits is below `2^k`.
pub proof fn lemma_bits_bound(s: Seq<bool>)
    ensures
        bits_value(s) < pow2(s.len()),
    decreases s.len(),
{
    if s.len() == 0 {
        lemma_pow2_pos(0);
    } else {
        lemma_bits_bound(s.drop_first());
        lemma_pow2_unfold(s.len());
    }
}

/// The digits from place `k` on count `2^k` times as much.
pub proof fn lemma_bits_split(s: Seq<bool>, k: nat)
    requires
        k <= s.len(),
    ensures
        bits_value(s) == bits_value(s.take(k as int)) + pow2(k) * bits_value(s.skip(k as int)),
    decreases k,
{
    if k == 0 {
        vstd::arithmetic::power2::lemma2_to64();
        assert(s.skip(0) =~= s);
        assert(s.take(0) =~= Seq::empty());
        assert(pow2(0) * bits_value(s) == bits_value(s)) by (nonlinear_arith)
            requires
                pow2(0) == 1,
        ;
    } else {
        let t = s.drop_first();
        lemma_bits_split(t, (k - 1) as nat);
        assert(s.take(k as int).drop_first() =~= t.take(k - 1));
        assert(s.skip(k as int) =~= t.skip(k - 1));
        lemma_pow2_unfold(k);
        let (p, q) = (pow2((k - 1) as nat), bits_value(s.skip(k as int)));
        assert((2 * p) * q == 2 * (p * q)) by (nonlinear_arith);
    }
}

/// The number that the digits from place `a` to place `b` stand for.
pub proof fn lemma_bits_slice(s: Seq<bool>, a: nat, b: nat)
    requires
        a <= b <= s.len(),
    ensures
        bits_value(s.subrange(a as int, b as int)) == (bits_value(s) / pow2(a)) % pow2((b - a) as nat),
{
    let low = s.take(a as int);
    let rest = s.skip(a as int);
    let k = (b - a) as nat;
    lemma_bits_split(s, a);
    lemma_bits_bound(low);
    lemma_pow2_pos(a);
    lemma_pow2_pos(k);
    assert(bits_value(s) == pow2(a) * bits_value(rest) + bits_value(low));
    vstd::arithmetic::div_mod::lemma_fundamental_div_mod_converse(
        bits_value(s) as int,
        pow2(a) as int,
        bits_value(rest) as int,
        bits_value(low) as int,
    );
    lemma_bits_split(rest, k);
    assert(rest.take(k as int) =~= s.subrange(a as int, b as int));
    lemma_bits_bound(rest.take(k as int));
    vstd::arithmetic::div_mod::lemma_fundamental_div_mod_converse(
        bits_value(rest) as int,
        pow2(k) as int,
        bits_value(rest.skip(k as int)) as int,
        bits_value(rest.take(k as int)) as int,
    );
}

} // verus!
