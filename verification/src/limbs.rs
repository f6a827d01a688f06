//! Elements of one field of the curve cycle written as elements of the other.
use vstd::prelude::*;
use vstd::arithmetic::power2::lemma2_to64;
use vstd::arithmetic::power2::lemma_pow2_adds;
use vstd::arithmetic::power2::lemma_pow2_pos;
use vstd::arithmetic::power2::pow2;
use crate::bigint::ark_from_bits_le;
use crate::bigint::ark_to_bits_le;
use crate::bigint::bits_value;
use crate::bigint::lemma_bits_bound;
use crate::bigint::lemma_bits_slice;
use crate::curve::G1;
use crate::field::f_mul;
use crate::field::Field;
use crate::field::FieldModel;
use crate::field::lemma_op_values;
use crate::field_fq::fq_modulus;
use crate::field_fq::Fq;
use crate::field_fr::fr_modulus;
use crate::field_fr::Fr;
use crate::vecs::copy_range;

verus! {

/// How many bits a limb of a non-native element has.
pub const LIMB_BITS: usize = 55;

/// How many limbs a non-native element has.
pub const N_LIMBS: usize = 5;

/// How many bits of a non-native element one absorbed element holds.
pub const ABSORB_BITS: usize = 253;

/// The digit of a number in base `2^55` at the place `i`.
pub open spec fn number_limb(n: nat, i: int) -> Fr {
    Fr::of((n / pow2((LIMB_BITS * i) as nat)) % pow2(LIMB_BITS as nat))
}

/// The digits of a number in base `2^55`, least significant first.
pub open spec fn number_limbs(n: nat) -> Seq<Fr> {
    Seq::new(N_LIMBS as nat, |i: int| number_limb(n, i))
}

/// The limbs of an element of the base field.
pub open spec fn fq_limbs(a: Fq) -> Seq<Fr> {
    number_limbs(a.val())
}

/// The number with the digits `s` in base `2^55`.
pub open spec fn limbs_number(s: Seq<Fr>) -> nat
    decreases s.len(),
{
    if s.len() == 0 {
        0
    } else {
        s[0].val() + pow2(LIMB_BITS as nat) * limbs_number(s.drop_first())
    }
}

/// What is absorbed of an element of the base field: its low bits, then the rest.
pub open spec fn fq_absorbed(a: Fq) -> Seq<Fr> {
    seq![
        Fr::of(a.val() % pow2(ABSORB_BITS as nat)),
        Fr::of(a.val() / pow2(ABSORB_BITS as nat)),
    ]
}

/// What a sponge over the base field absorbs of an element of the scalar field: its
/// low bits, then the rest.
pub open spec fn fr_absorbed(a: Fr) -> Seq<Fq> {
    seq![
        Fq::of(a.val() % pow2(ABSORB_BITS as nat)),
        Fq::of(a.val() / pow2(ABSORB_BITS as nat)),
    ]
}

/// What is absorbed of a point: the coordinates.
pub open spec fn g1_absorbed(p: G1) -> Seq<Fr> {
    fq_absorbed(p.xy().0) + fq_absorbed(p.xy().1)
}

/// The limbs of a point's coordinates.
pub open spec fn g1_limbs(p: G1) -> Seq<Fr> {
    fq_limbs(p.xy().0) + fq_limbs(p.xy().1)
}

pub proof fn lemma_powers()
    ensures
        pow2(0) == 1,
        pow2(55) == 0x80_0000_0000_0000,
        pow2(110) == 0x80_0000_0000_0000 * 0x80_0000_0000_0000,
        pow2(165) == 0x80_0000_0000_0000 * 0x80_0000_0000_0000 * 0x80_0000_0000_0000,
        pow2(220) == 0x80_0000_0000_0000 * 0x80_0000_0000_0000 * 0x80_0000_0000_0000 * 0x80_0000_0000_0000,
        pow2(36) == 0x10_0000_0000,
        pow2(128) == 0x1_0000_0000_0000_0000_0000_0000_0000_0000,
        pow2(253) < fr_modulus(),
        pow2(253) < fq_modulus(),
        pow2(253) * 2 > fq_modulus(),
        pow2(253) * 8 == 0x1_0000_0000_0000_0000_0000_0000_0000_0000_0000_0000_0000_0000_0000_0000_0000_0000,
{
    lemma2_to64();
    vstd::arithmetic::power2::lemma2_to64_rest();
    lemma_pow2_adds(55, 55);
    lemma_pow2_adds(110, 55);
    lemma_pow2_adds(165, 55);
    lemma_pow2_adds(64, 64);
    lemma_pow2_adds(128, 64);
    lemma_pow2_adds(192, 61);
    assert(pow2(64) * pow2(64) == 0x1_0000_0000_0000_0000_0000_0000_0000_0000) by (nonlinear_arith)
        requires
            pow2(64) == 0x1_0000_0000_0000_0000,
    ;
    assert(pow2(128) * pow2(64) == 0x1_0000_0000_0000_0000_0000_0000_0000_0000_0000_0000_0000_0000)
        by (nonlinear_arith)
        requires
            pow2(128) == 0x1_0000_0000_0000_0000_0000_0000_0000_0000,
            pow2(64) == 0x1_0000_0000_0000_0000,
    ;
    assert(pow2(192) * pow2(61)
        == 0x1_0000_0000_0000_0000_0000_0000_0000_0000_0000_0000_0000_0000 * 0x2000_0000_0000_0000)
        by (nonlinear_arith)
        requires
            pow2(192) == 0x1_0000_0000_0000_0000_0000_0000_0000_0000_0000_0000_0000_0000,
            pow2(61) == 0x2000_0000_0000_0000,
    ;
}

proof fn lemma_pow2_monotone(a: nat, b: nat)
    requires
        a <= b,
    ensures
        pow2(a) <= pow2(b),
{
    if a < b {
        vstd::arithmetic::power2::lemma_pow2_strictly_increases(a, b);
    }
}

/// The element that stands for the bits from place `from` to place `to`.
fn bits_to_fr(bits: &Vec<bool>, from: usize, to: usize) -> (r: Fr)
    requires
        from <= to <= bits@.len(),
        to - from <= ABSORB_BITS,
    ensures
        r == Fr::of((bits_value(bits@) / pow2(from as nat)) % pow2((to - from) as nat)),
{
    let part = copy_range(bits, from, to);
    proof {
        lemma_bits_slice(bits@, from as nat, to as nat);
        lemma_bits_bound(part@);
        lemma_powers();
        lemma_pow2_monotone((to - from) as nat, 253);
    }
    Fr::from_limbs(ark_from_bits_le(&part))
}

/// The element of the scalar field with the given binary digits, none if their
/// number is not below the modulus.
pub fn fr_from_bits(bits: &Vec<bool>) -> (r: Option<Fr>)
    requires
        bits@.len() <= 256,
    ensures
        r == (if bits_value(bits@) < fr_modulus() {
            Some(Fr::of(bits_value(bits@)))
        } else {
            None
        }),
{
    Fr::try_from_limbs(ark_from_bits_le(bits))
}

/// The element of the base field with the given binary digits, none if their
/// number is not below the modulus.
pub fn fq_from_bits(bits: &Vec<bool>) -> (r: Option<Fq>)
    requires
        bits@.len() <= 256,
    ensures
        r == (if bits_value(bits@) < fq_modulus() {
            Some(Fq::of(bits_value(bits@)))
        } else {
            None
        }),
{
    Fq::try_from_limbs(ark_from_bits_le(bits))
}

/// The limbs of an element of the base field.
pub fn f1_to_f2_limbs(a: &Fq) -> (r: Vec<Fr>)
    ensures
        r@ == fq_limbs(*a),
        r@.len() == N_LIMBS,
{
    let bits = ark_to_bits_le(a.limbs());
    let mut r: Vec<Fr> = Vec::new();
    let ghost n = a.val();
    r.push(bits_to_fr(&bits, 0, 55));
    r.push(bits_to_fr(&bits, 55, 110));
    r.push(bits_to_fr(&bits, 110, 165));
    r.push(bits_to_fr(&bits, 165, 220));
    r.push(bits_to_fr(&bits, 220, 256));
    proof {
        lemma_powers();
        let d = 0x80_0000_0000_0000int;
        assert(n / pow2(220) < pow2(36)) by {
            assert(n < fq_modulus());
            assert(n / pow2(220) < 0x10_0000_0000) by (nonlinear_arith)
                requires
                    n < 0x1_0000_0000_0000_0000_0000_0000_0000_0000_0000_0000_0000_0000_0000_0000_0000_0000,
                    pow2(220) == d * d * d * d,
                    d == 0x80_0000_0000_0000int,
            ;
        }
        vstd::arithmetic::div_mod::lemma_small_mod(n / pow2(220), pow2(36));
        vstd::arithmetic::div_mod::lemma_small_mod(n / pow2(220), pow2(55));
        assert(r@ =~= fq_limbs(*a));
    }
    r
}

/// The element of the base field with the given limbs.
pub fn f1_limbs_to_f2(limbs: &Vec<Fr>) -> (r: Fq)
    ensures
        r == Fq::of(limbs_number(limbs@) % fq_modulus()),
{
    let base = Fq::from_limbs([0x80_0000_0000_0000u64, 0, 0, 0]);
    let mut acc: Fq = Fq::zero();
    let mut i: usize = limbs.len();
    proof {
        lemma_powers();
        assert(limbs@.skip(i as int) =~= Seq::empty());
        vstd::arithmetic::div_mod::lemma_small_mod(0, fq_modulus());
        Fq::lemma_val_of(0);
    }
    while i > 0
        invariant
            i <= limbs@.len(),
            base.val() == pow2(55),
            acc == Fq::of(limbs_number(limbs@.skip(i as int)) % fq_modulus()),
        decreases i,
    {
        i = i - 1;
        let low = Fq::from_limbs(limbs[i].limbs());
        let next = acc.times(&base).plus(&low);
        proof {
            let m = fq_modulus();
            let rest = limbs_number(limbs@.skip(i + 1));
            let d = pow2(55);
            assert(limbs@.skip(i as int).drop_first() =~= limbs@.skip(i + 1));
            vstd::arithmetic::div_mod::lemma_mod_bound(rest as int, m as int);
            Fq::lemma_val_of(rest % m);
            lemma_op_values(acc, base);
            lemma_op_values(f_mul(acc, base), low);
            vstd::arithmetic::div_mod::lemma_mul_mod_noop_left(rest as int, d as int, m as int);
            assert(((rest % m) * d) % m == (rest * d) % m);
            vstd::arithmetic::div_mod::lemma_add_mod_noop_right(low.val() as int, (rest * d) as int, m as int);
            assert(d * rest == rest * d) by (nonlinear_arith);
            assert(limbs_number(limbs@.skip(i as int)) == low.val() + d * rest);
        }
        acc = next;
    }
    assert(limbs@.skip(0) =~= limbs@);
    acc
}

/// What is absorbed of an element of the base field.
pub fn absorb_fq(a: &Fq) -> (r: Vec<Fr>)
    ensures
        r@ == fq_absorbed(*a),
        r@.len() == 2,
{
    let bits = ark_to_bits_le(a.limbs());
    let mut r: Vec<Fr> = Vec::new();
    r.push(bits_to_fr(&bits, 0, 253));
    r.push(bits_to_fr(&bits, 253, 256));
    proof {
        lemma_powers();
        lemma2_to64();
        let n = a.val();
        assert(n / pow2(253) < 8) by (nonlinear_arith)
            requires
                n < pow2(253) * 8,
                pow2(253) > 0,
        ;
        vstd::arithmetic::div_mod::lemma_small_mod(n / pow2(253), 8);
        assert(n / pow2(0) == n) by (nonlinear_arith)
            requires
                pow2(0) == 1,
        ;
        assert(r@ =~= fq_absorbed(*a));
    }
    r
}

/// The element that stands for the bits from place `from` to place `to`.
fn bits_to_fq(bits: &Vec<bool>, from: usize, to: usize) -> (r: Fq)
    requires
        from <= to <= bits@.len(),
        to - from <= ABSORB_BITS,
    ensures
        r == Fq::of((bits_value(bits@) / pow2(from as nat)) % pow2((to - from) as nat)),
{
    let part = copy_range(bits, from, to);
    proof {
        lemma_bits_slice(bits@, from as nat, to as nat);
        lemma_bits_bound(part@);
        lemma_powers();
        lemma_pow2_monotone((to - from) as nat, 253);
    }
    Fq::from_limbs(ark_from_bits_le(&part))
}

/// What a sponge over the base field absorbs of an element of the scalar field.
pub fn absorb_fr(a: &Fr) -> (r: Vec<Fq>)
    ensures
        r@ == fr_absorbed(*a),
        r@.len() == 2,
{
    let bits = ark_to_bits_le(a.limbs());
    let mut r: Vec<Fq> = Vec::new();
    r.push(bits_to_fq(&bits, 0, 253));
    r.push(bits_to_fq(&bits, 253, 256));
    proof {
        lemma_powers();
        lemma2_to64();
        let n = a.val();
        assert(n / pow2(253) < 8) by (nonlinear_arith)
            requires
                n < pow2(253) * 8,
                pow2(253) > 0,
        ;
        vstd::arithmetic::div_mod::lemma_small_mod(n / pow2(253), 8);
        assert(n / pow2(0) == n) by (nonlinear_arith)
            requires
                pow2(0) == 1,
        ;
        assert(r@ =~= fr_absorbed(*a));
    }
    r
}

/// What is absorbed of a point.
pub fn absorb_g1(p: &G1) -> (r: Vec<Fr>)
    ensures
        r@ == g1_absorbed(*p),
        r@.len() == 4,
{
    let (x, y) = p.coordinates();
    let mut r = absorb_fq(&x);
    let b = absorb_fq(&y);
    crate::vecs::push_all(&mut r, &b);
    r
}

/// The limbs of a point's coordinates.
pub fn inputize(p: &G1) -> (r: Vec<Fr>)
    ensures
        r@ == g1_limbs(*p),
        r@.len() == 2 * N_LIMBS,
{
    let (x, y) = p.coordinates();
    let mut r = f1_to_f2_limbs(&x);
    let b = f1_to_f2_limbs(&y);
    crate::vecs::push_all(&mut r, &b);
    r
}

/// The limbs of an element lead back to it.
pub proof fn law_limbs_round_trip(a: Fq)
    requires
        a.val() < fq_modulus(),
    ensures
        Fq::of(limbs_number(fq_limbs(a)) % fq_modulus()) == a,
{
    let n = a.val();
    let s = fq_limbs(a);
    lemma_powers();
    let d = 0x80_0000_0000_0000int;
    let (q1, q2, q3, q4) = (n / pow2(55), n / pow2(110), n / pow2(165), n / pow2(220));
    vstd::arithmetic::div_mod::lemma_div_denominator(n as int, d, d);
    vstd::arithmetic::div_mod::lemma_div_denominator(n as int, d * d, d);
    vstd::arithmetic::div_mod::lemma_div_denominator(n as int, d * d * d, d);
    assert(q2 == q1 as int / d && q3 == q2 as int / d && q4 == q3 as int / d);
    assert(q4 < d) by (nonlinear_arith)
        requires
            n < 0x1_0000_0000_0000_0000_0000_0000_0000_0000_0000_0000_0000_0000_0000_0000_0000_0000,
            q4 == n / pow2(220),
            pow2(220) == d * d * d * d,
            d == 0x80_0000_0000_0000int,
    ;
    assert forall|i: int| 0 <= i < 5 implies (#[trigger] s[i]).val() == (n / pow2((LIMB_BITS * i) as nat)) % pow2(55) by {
        lemma_pow2_pos(55);
        Fr::lemma_val_of((n / pow2((LIMB_BITS * i) as nat)) % pow2(55));
    }
    assert(n / pow2(0) == n) by (nonlinear_arith)
        requires
            pow2(0) == 1,
    ;
    assert(s[0].val() == n % pow2(55));
    assert(s[1].val() == q1 % pow2(55));
    assert(s[2].val() == q2 % pow2(55));
    assert(s[3].val() == q3 % pow2(55));
    assert(s[4].val() == q4 % pow2(55));
    let s1 = s.drop_first();
    let s2 = s1.drop_first();
    let s3 = s2.drop_first();
    let s4 = s3.drop_first();
    let s5 = s4.drop_first();
    assert(s1[0] == s[1] && s2[0] == s[2] && s3[0] == s[3] && s4[0] == s[4]);
    assert(limbs_number(s5) == 0);
    assert(limbs_number(s4) == q4);
    assert(limbs_number(s3) == q3);
    assert(limbs_number(s2) == q2);
    assert(limbs_number(s1) == q1);
    assert(limbs_number(s) == n);
    vstd::arithmetic::div_mod::lemma_small_mod(n, fq_modulus());
    a.lemma_of_val();
}

} // verus!
