//! Points of BN254 and Grumpkin in affine coordinates, and BN254's pairing.
use vstd::prelude::*;
use ark_bn254::Bn254;
use ark_bn254::Fq as ArkFq;
use ark_bn254::Fq2 as ArkFq2;
use ark_bn254::G1Affine;
use ark_bn254::G2Affine;
use ark_ec::pairing::Pairing;
use ark_ec::AffineRepr;
use ark_ec::CurveGroup;
use ark_ff::BigInt;
use ark_ff::Field as ArkField;
use ark_ff::PrimeField;
use crate::field::f_zero;
use crate::field::Field;
use crate::field_fq::Fq;
use crate::field_fr::Fr;

verus! {

/// A point of BN254's first group.
#[derive(Clone, Copy, PartialEq, Eq, Structural, Debug)]
pub enum G1 {
    Infinity,
    Point(Fq, Fq),
}

/// A point of Grumpkin.
#[derive(Clone, Copy, PartialEq, Eq, Structural, Debug)]
pub enum Grumpkin {
    Infinity,
    Point(Fr, Fr),
}

/// An element `c0 + c1 * u` of the quadratic extension of BN254's base field.
#[derive(Clone, Copy, PartialEq, Eq, Structural, Debug)]
pub struct Fq2 {
    pub c0: Fq,
    pub c1: Fq,
}

/// A point of BN254's second group.
#[derive(Clone, Copy, PartialEq, Eq, Structural, Debug)]
pub enum G2 {
    Infinity,
    Point(Fq2, Fq2),
}

/// How many elements of the base field an element of the target field has.
pub const GT_LEN: usize = 12;

/// The sum of two points as `ark_ec` computes it on `ark_bn254::G1Affine`.
pub uninterp spec fn g1_add(a: G1, b: G1) -> G1;

/// The difference of two points as `ark_ec` computes it on `ark_bn254::G1Affine`.
pub uninterp spec fn g1_sub(a: G1, b: G1) -> G1;

/// A multiple of a point as `ark_ec` computes it on `ark_bn254::G1Affine`.
pub uninterp spec fn g1_mul(a: G1, s: Fr) -> G1;

/// The sum of two points as `ark_ec` computes it on `ark_grumpkin::Affine`.
pub uninterp spec fn grumpkin_add(a: Grumpkin, b: Grumpkin) -> Grumpkin;

/// A multiple of a point as `ark_ec` computes it on `ark_grumpkin::Affine`.
pub uninterp spec fn grumpkin_mul(a: Grumpkin, s: Fq) -> Grumpkin;

/// The pairing of two points as `ark_ec` computes it on `Bn254`: the target
/// element's coefficients, or none where the final exponentiation fails.
pub uninterp spec fn pairing(a: G1, b: G2) -> Option<Seq<Fq>>;

/// The product of two elements of `ark_bn254::Fq12`, given and returned by their
/// coefficients.
pub uninterp spec fn gt_mul(a: Seq<Fq>, b: Seq<Fq>) -> Seq<Fq>;

/// The sum of two points, which is the point at infinity where both are.
pub open spec fn g1_plus(a: G1, b: G1) -> G1 {
    if a == G1::Infinity && b == G1::Infinity {
        G1::Infinity
    } else {
        g1_add(a, b)
    }
}

/// A multiple of a point: the point at infinity where the point is, or where the
/// scalar is zero.
pub open spec fn g1_times(a: G1, s: Fr) -> G1 {
    if a == G1::Infinity || s == f_zero::<Fr>() {
        G1::Infinity
    } else {
        g1_mul(a, s)
    }
}

/// The sum of two points, which is the point at infinity where both are.
pub open spec fn grumpkin_plus(a: Grumpkin, b: Grumpkin) -> Grumpkin {
    if a == Grumpkin::Infinity && b == Grumpkin::Infinity {
        Grumpkin::Infinity
    } else {
        grumpkin_add(a, b)
    }
}

/// A multiple of a point: the point at infinity where the point is, or where the
/// scalar is zero.
pub open spec fn grumpkin_times(a: Grumpkin, s: Fq) -> Grumpkin {
    if a == Grumpkin::Infinity || s == f_zero::<Fq>() {
        Grumpkin::Infinity
    } else {
        grumpkin_mul(a, s)
    }
}

impl G1 {
    /// The affine coordinates, (0, 0) for the point at infinity.
    pub open spec fn xy(self) -> (Fq, Fq) {
        match self {
            G1::Infinity => (f_zero::<Fq>(), f_zero::<Fq>()),
            G1::Point(x, y) => (x, y),
        }
    }

    /// The point with the given coordinates, where (0, 0) stands for infinity.
    pub open spec fn of_xy(x: Fq, y: Fq) -> G1 {
        if x == f_zero::<Fq>() && y == f_zero::<Fq>() {
            G1::Infinity
        } else {
            G1::Point(x, y)
        }
    }

    pub fn coordinates(&self) -> (r: (Fq, Fq))
        ensures
            r == self.xy(),
    {
        match self {
            G1::Infinity => (Fq::zero(), Fq::zero()),
            G1::Point(x, y) => (*x, *y),
        }
    }

    pub fn from_coordinates(x: &Fq, y: &Fq) -> (r: G1)
        ensures
            r == G1::of_xy(*x, *y),
    {
        let zero = Fq::zero();
        if *x == zero && *y == zero {
            G1::Infinity
        } else {
            G1::Point(*x, *y)
        }
    }

    /// Whether the point is not written with the coordinates that stand for
    /// infinity.
    pub open spec fn proper(self) -> bool {
        self != G1::Point(f_zero::<Fq>(), f_zero::<Fq>())
    }

    pub fn plus(&self, other: &G1) -> (r: G1)
        ensures
            r == g1_plus(*self, *other),
    {
        if *self == G1::Infinity && *other == G1::Infinity {
            return G1::Infinity;
        }
        ark_g1_add(self, other)
    }

    pub fn minus(&self, other: &G1) -> (r: G1)
        ensures
            r == g1_sub(*self, *other),
    {
        ark_g1_sub(self, other)
    }

    pub fn times(&self, s: &Fr) -> (r: G1)
        ensures
            r == g1_times(*self, *s),
    {
        if *self == G1::Infinity || *s == Fr::zero() {
            return G1::Infinity;
        }
        ark_g1_mul(self, s)
    }
}

impl Grumpkin {
    /// The affine coordinates, (0, 0) for the point at infinity.
    pub open spec fn xy(self) -> (Fr, Fr) {
        match self {
            Grumpkin::Infinity => (f_zero::<Fr>(), f_zero::<Fr>()),
            Grumpkin::Point(x, y) => (x, y),
        }
    }

    pub fn coordinates(&self) -> (r: (Fr, Fr))
        ensures
            r == self.xy(),
    {
        match self {
            Grumpkin::Infinity => (Fr::zero(), Fr::zero()),
            Grumpkin::Point(x, y) => (*x, *y),
        }
    }

    pub fn plus(&self, other: &Grumpkin) -> (r: Grumpkin)
        ensures
            r == grumpkin_plus(*self, *other),
    {
        if *self == Grumpkin::Infinity && *other == Grumpkin::Infinity {
            return Grumpkin::Infinity;
        }
        ark_grumpkin_add(self, other)
    }

    pub fn times(&self, s: &Fq) -> (r: Grumpkin)
        ensures
            r == grumpkin_times(*self, *s),
    {
        if *self == Grumpkin::Infinity || *s == Fq::zero() {
            return Grumpkin::Infinity;
        }
        ark_grumpkin_mul(self, s)
    }
}

/// `ark_ec`'s addition on `ark_bn254::G1Affine`.
#[verifier::external_body]
fn ark_g1_add(a: &G1, b: &G1) -> (r: G1)
    ensures
        r == g1_add(*a, *b),
{
    let conv = |p: &G1| match p {
        G1::Infinity => G1Affine::identity(),
        G1::Point(x, y) => G1Affine::new_unchecked(
            ArkFq::new(BigInt(x.limbs())), ArkFq::new(BigInt(y.limbs()))),
    };
    match (conv(a) + conv(b)).into_affine().xy() {
        None => G1::Infinity,
        Some((x, y)) => G1::Point(Fq::from_limbs(x.into_bigint().0), Fq::from_limbs(y.into_bigint().0)),
    }
}

/// `ark_ec`'s subtraction on `ark_bn254::G1Affine`.
#[verifier::external_body]
fn ark_g1_sub(a: &G1, b: &G1) -> (r: G1)
    ensures
        r == g1_sub(*a, *b),
{
    let conv = |p: &G1| match p {
        G1::Infinity => G1Affine::identity(),
        G1::Point(x, y) => G1Affine::new_unchecked(
            ArkFq::new(BigInt(x.limbs())), ArkFq::new(BigInt(y.limbs()))),
    };
    match (conv(a) - conv(b)).into_affine().xy() {
        None => G1::Infinity,
        Some((x, y)) => G1::Point(Fq::from_limbs(x.into_bigint().0), Fq::from_limbs(y.into_bigint().0)),
    }
}

/// `ark_ec`'s multiplication of an `ark_bn254::G1Affine` by a scalar.
#[verifier::external_body]
fn ark_g1_mul(a: &G1, s: &Fr) -> (r: G1)
    ensures
        r == g1_mul(*a, *s),
{
    let point = match a {
        G1::Infinity => G1Affine::identity(),
        G1::Point(x, y) => G1Affine::new_unchecked(
            ArkFq::new(BigInt(x.limbs())), ArkFq::new(BigInt(y.limbs()))),
    };
    match (point * ark_bn254::Fr::new(BigInt(s.limbs()))).into_affine().xy() {
        None => G1::Infinity,
        Some((x, y)) => G1::Point(Fq::from_limbs(x.into_bigint().0), Fq::from_limbs(y.into_bigint().0)),
    }
}

/// `ark_ec`'s addition on `ark_grumpkin::Affine`.
#[verifier::external_body]
fn ark_grumpkin_add(a: &Grumpkin, b: &Grumpkin) -> (r: Grumpkin)
    ensures
        r == grumpkin_add(*a, *b),
{
    let conv = |p: &Grumpkin| match p {
        Grumpkin::Infinity => ark_grumpkin::Affine::identity(),
        Grumpkin::Point(x, y) => ark_grumpkin::Affine::new_unchecked(
            ark_grumpkin::Fq::new(BigInt(x.limbs())), ark_grumpkin::Fq::new(BigInt(y.limbs()))),
    };
    match (conv(a) + conv(b)).into_affine().xy() {
        None => Grumpkin::Infinity,
        Some((x, y)) => Grumpkin::Point(Fr::from_limbs(x.into_bigint().0), Fr::from_limbs(y.into_bigint().0)),
    }
}

/// `ark_ec`'s multiplication of an `ark_grumpkin::Affine` by a scalar.
#[verifier::external_body]
fn ark_grumpkin_mul(a: &Grumpkin, s: &Fq) -> (r: Grumpkin)
    ensures
        r == grumpkin_mul(*a, *s),
{
    let point = match a {
        Grumpkin::Infinity => ark_grumpkin::Affine::identity(),
        Grumpkin::Point(x, y) => ark_grumpkin::Affine::new_unchecked(
            ark_grumpkin::Fq::new(BigInt(x.limbs())), ark_grumpkin::Fq::new(BigInt(y.limbs()))),
    };
    match (point * ark_grumpkin::Fr::new(BigInt(s.limbs()))).into_affine().xy() {
        None => Grumpkin::Infinity,
        Some((x, y)) => Grumpkin::Point(Fr::from_limbs(x.into_bigint().0), Fr::from_limbs(y.into_bigint().0)),
    }
}

/// The contents of an optional vector.
pub open spec fn opt_view<T>(v: Option<Vec<T>>) -> Option<Seq<T>> {
    match v {
        Some(x) => Some(x@),
        None => None,
    }
}

/// `ark_ec`'s pairing on `Bn254`: the Miller loop and the final exponentiation.
/// The target element has twelve coefficients.
#[verifier::external_body]
pub(crate) fn ark_pairing(a: &G1, b: &G2) -> (r: Option<Vec<Fq>>)
    ensures
        opt_view(r) == pairing(*a, *b),
        r matches Some(v) ==> v@.len() == GT_LEN,
{
    let fq = |e: &Fq| ArkFq::new(BigInt(e.limbs()));
    let p = match a {
        G1::Infinity => G1Affine::identity(),
        G1::Point(x, y) => G1Affine::new_unchecked(fq(x), fq(y)),
    };
    let q = match b {
        G2::Infinity => G2Affine::identity(),
        G2::Point(x, y) => G2Affine::new_unchecked(
            ArkFq2::new(fq(&x.c0), fq(&x.c1)), ArkFq2::new(fq(&y.c0), fq(&y.c1))),
    };
    let g = Bn254::final_exponentiation(Bn254::multi_miller_loop([p], [q]))?;
    Some(g.0.to_base_prime_field_elements().map(|e| Fq::from_limbs(e.into_bigint().0)).collect())
}

/// `ark_ff`'s multiplication of two elements of `ark_bn254::Fq12`.
#[verifier::external_body]
pub(crate) fn ark_gt_mul(a: &Vec<Fq>, b: &Vec<Fq>) -> (r: Vec<Fq>)
    requires
        a@.len() == GT_LEN,
        b@.len() == GT_LEN,
    ensures
        r@ == gt_mul(a@, b@),
        r@.len() == GT_LEN,
{
    let conv = |v: &Vec<Fq>| ark_bn254::Fq12::from_base_prime_field_elems(
        v.iter().map(|e| ArkFq::new(BigInt(e.limbs())))).unwrap();
    let prod = conv(a) * conv(b);
    prod.to_base_prime_field_elements().map(|e| Fq::from_limbs(e.into_bigint().0)).collect()
}

} // verus!
