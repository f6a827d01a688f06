//! The base field of BN254, which is the scalar field of Grumpkin.
use vstd::prelude::*;
use vstd::arithmetic::div_mod::lemma_fundamental_div_mod_converse;
use ark_ff::BigInt;
use ark_ff::PrimeField;
use crate::field::f_add;
use crate::field::f_mul;
use crate::field::f_sub;
use crate::bigint::limbs_less;
use crate::bigint::limbs_value;
use crate::field::Field;
use crate::field::FieldModel;

verus! {

/// An element of the base field of BN254: four 64-bit limbs, least
/// significant first, of an integer below the modulus.
#[derive(Clone, Copy, PartialEq, Eq, Structural, Debug)]
pub struct Fq {
    l0: u64,
    l1: u64,
    l2: u64,
    l3: u64,
}

/// The order of Grumpkin's group.
pub open spec fn fq_modulus() -> nat {
    21888242871839275222246405745257275088696311157297823662689037894645226208583nat
}

impl Fq {
    #[verifier::type_invariant]
    spec fn reduced(self) -> bool {
        self.val() < fq_modulus()
    }
}

impl FieldModel for Fq {
    open spec fn modulus() -> nat {
        fq_modulus()
    }

    closed spec fn val(self) -> nat {
        (self.l0 + 0x1_0000_0000_0000_0000 * self.l1
            + 0x1_0000_0000_0000_0000_0000_0000_0000_0000 * self.l2
            + 0x1_0000_0000_0000_0000_0000_0000_0000_0000_0000_0000_0000_0000 * self.l3) as nat
    }

    closed spec fn of(n: nat) -> Fq {
        let b = 0x1_0000_0000_0000_0000nat;
        Fq {
            l0: (n % b) as u64,
            l1: ((n / b) % b) as u64,
            l2: ((n / b / b) % b) as u64,
            l3: ((n / b / b / b) % b) as u64,
        }
    }

    proof fn lemma_modulus() {
    }

    proof fn lemma_val_of(n: nat) {
    }

    proof fn lemma_of_val(self) {
        let b = 0x1_0000_0000_0000_0000int;
        let t2 = self.l2 + b * self.l3;
        let t1 = self.l1 + b * t2;
        let n = self.l0 + b * t1;
        lemma_fundamental_div_mod_converse(n, b, t1, self.l0 as int);
        lemma_fundamental_div_mod_converse(t1, b, t2, self.l1 as int);
        lemma_fundamental_div_mod_converse(t2, b, self.l3 as int, self.l2 as int);
    }
}

impl Fq {
    /// The limbs of the element's integer.
    pub fn limbs(&self) -> (r: [u64; 4])
        ensures
            limbs_value(r) == self.val(),
            self.val() < fq_modulus(),
    {
        proof {
            use_type_invariant(self);
        }
        [self.l0, self.l1, self.l2, self.l3]
    }

    /// The element with the given limbs.
    pub fn from_limbs(n: [u64; 4]) -> (r: Fq)
        requires
            limbs_value(n) < fq_modulus(),
        ensures
            r == Fq::of(limbs_value(n)),
            r.val() == limbs_value(n),
    {
        let r = Fq { l0: n[0], l1: n[1], l2: n[2], l3: n[3] };
        proof {
            r.lemma_of_val();
        }
        r
    }

    /// The element with the given limbs, if their number is below the modulus.
    pub fn try_from_limbs(n: [u64; 4]) -> (r: Option<Fq>)
        ensures
            r == (if limbs_value(n) < fq_modulus() {
                Some(Fq::of(limbs_value(n)))
            } else {
                None
            }),
    {
        let m: [u64; 4] = [0x3c208c16d87cfd47, 0x97816a916871ca8d, 0xb85045b68181585d, 0x30644e72e131a029];
        assert(limbs_value(m) == fq_modulus());
        if limbs_less(&n, &m) {
            Some(Fq::from_limbs(n))
        } else {
            None
        }
    }

    /// The element that stands for `n`.
    pub fn from_u64(n: u64) -> (r: Fq)
        ensures
            r == Fq::of(n as nat),
            r.val() == n,
    {
        Fq::from_limbs([n, 0, 0, 0])
    }

    /// The element's integer modulo `2^64`.
    pub fn low_u64(&self) -> (r: u64)
        ensures
            r == self.val() % 0x1_0000_0000_0000_0000,
    {
        self.l0
    }

    /// Whether the element's integer is below the other's.
    pub fn less(&self, other: &Fq) -> (b: bool)
        ensures
            b == (self.val() < other.val()),
    {
        let a = self.limbs();
        let b = other.limbs();
        limbs_less(&a, &b)
    }
}

/// `ark_ff`'s addition of two elements of `ark_bn254::Fq`: the sum of the two
/// integers modulo the field's order.
#[verifier::external_body]
fn ark_add(a: &Fq, b: &Fq) -> (r: Fq)
    ensures
        r == f_add(*a, *b),
{
    let sum = ark_bn254::Fq::new(BigInt(a.limbs())) + ark_bn254::Fq::new(BigInt(b.limbs()));
    Fq::from_limbs(sum.into_bigint().0)
}

/// `ark_ff`'s subtraction of two elements of `ark_bn254::Fq`: the difference of
/// the two integers modulo the field's order.
#[verifier::external_body]
fn ark_sub(a: &Fq, b: &Fq) -> (r: Fq)
    ensures
        r == f_sub(*a, *b),
{
    let diff = ark_bn254::Fq::new(BigInt(a.limbs())) - ark_bn254::Fq::new(BigInt(b.limbs()));
    Fq::from_limbs(diff.into_bigint().0)
}

/// `ark_ff`'s multiplication of two elements of `ark_bn254::Fq`: the product of
/// the two integers modulo the field's order.
#[verifier::external_body]
fn ark_mul(a: &Fq, b: &Fq) -> (r: Fq)
    ensures
        r == f_mul(*a, *b),
{
    let prod = ark_bn254::Fq::new(BigInt(a.limbs())) * ark_bn254::Fq::new(BigInt(b.limbs()));
    Fq::from_limbs(prod.into_bigint().0)
}

impl Field for Fq {
    fn zero() -> (r: Fq) {
        Fq::from_u64(0)
    }

    fn one() -> (r: Fq) {
        Fq::from_u64(1)
    }

    fn plus(&self, other: &Fq) -> (r: Fq) {
        ark_add(self, other)
    }

    fn minus(&self, other: &Fq) -> (r: Fq) {
        ark_sub(self, other)
    }

    fn times(&self, other: &Fq) -> (r: Fq) {
        ark_mul(self, other)
    }

    fn same(&self, other: &Fq) -> (b: bool) {
        *self == *other
    }
}

} // verus!
