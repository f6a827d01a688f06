//! Commitments to vectors of field elements.
use vstd::prelude::*;
use crate::curve::g1_plus;
use crate::curve::g1_times;
use crate::curve::grumpkin_plus;
use crate::curve::grumpkin_times;
use crate::curve::Grumpkin;
use crate::curve::G1;
use crate::error::outcome;
use crate::error::Error;
use crate::error::ErrorView;
use crate::field::f_zero;
use crate::field_fq::Fq;
use crate::field_fr::Fr;
use crate::vecs::repeated;
use crate::vecs::rows;

verus! {

/// A list of elements as mathematical data.
pub type Elements<F> = Seq<F>;

/// A commitment scheme with its prover's parameters: vectors of `F` are committed
/// to by points `P`.
pub trait CommitmentScheme<F, P>: Sized {
    /// The commitment to `v` with the blinding value `blind`, none where the
    /// parameters do not allow it.
    spec fn commit_spec(&self, v: Elements<F>, blind: F) -> Option<P>;

    fn commit(&self, v: &Vec<F>, blind: &F) -> (r: Option<P>)
        ensures
            r == self.commit_spec(v@, *blind),
    ;
}

/// The sum of the multiples of the first generators by the entries of `v`.
pub open spec fn g1_msm(generators: Seq<G1>, v: Seq<Fr>) -> G1
    decreases v.len(),
{
    if v.len() == 0 {
        G1::Infinity
    } else {
        g1_plus(g1_msm(generators, v.drop_last()), g1_times(generators[v.len() - 1], v.last()))
    }
}

/// The sum of the multiples of the first generators by the entries of `v`.
pub open spec fn grumpkin_msm(generators: Seq<Grumpkin>, v: Seq<Fq>) -> Grumpkin
    decreases v.len(),
{
    if v.len() == 0 {
        Grumpkin::Infinity
    } else {
        grumpkin_plus(grumpkin_msm(generators, v.drop_last()), grumpkin_times(generators[v.len() - 1], v.last()))
    }
}

/// Pedersen commitments on BN254.
#[derive(Debug)]
pub struct Pedersen {
    /// Whether the commitments are blinded.
    pub hiding: bool,
    pub h: G1,
    pub generators: Vec<G1>,
}

/// Pedersen commitments on Grumpkin.
#[derive(Debug)]
pub struct PedersenGrumpkin {
    /// Whether the commitments are blinded.
    pub hiding: bool,
    pub h: Grumpkin,
    pub generators: Vec<Grumpkin>,
}

impl Pedersen {
    /// The sum of the multiples of the first generators by the entries of `v`.
    pub fn msm(&self, v: &Vec<Fr>) -> (r: G1)
        requires
            v@.len() <= self.generators@.len(),
        ensures
            r == g1_msm(self.generators@, v@),
    {
        let mut acc: G1 = G1::Infinity;
        let mut i: usize = 0;
        assert(v@.take(0) =~= Seq::empty());
        while i < v.len()
            invariant
                i <= v@.len() <= self.generators@.len(),
                acc == g1_msm(self.generators@, v@.take(i as int)),
            decreases v.len() - i,
        {
            acc = acc.plus(&self.generators[i].times(&v[i]));
            assert(v@.take(i + 1).drop_last() =~= v@.take(i as int));
            i = i + 1;
        }
        assert(v@.take(i as int) =~= v@);
        acc
    }
}

impl PedersenGrumpkin {
    /// The sum of the multiples of the first generators by the entries of `v`.
    pub fn msm(&self, v: &Vec<Fq>) -> (r: Grumpkin)
        requires
            v@.len() <= self.generators@.len(),
        ensures
            r == grumpkin_msm(self.generators@, v@),
    {
        let mut acc: Grumpkin = Grumpkin::Infinity;
        let mut i: usize = 0;
        assert(v@.take(0) =~= Seq::empty());
        while i < v.len()
            invariant
                i <= v@.len() <= self.generators@.len(),
                acc == grumpkin_msm(self.generators@, v@.take(i as int)),
            decreases v.len() - i,
        {
            acc = acc.plus(&self.generators[i].times(&v[i]));
            assert(v@.take(i + 1).drop_last() =~= v@.take(i as int));
            i = i + 1;
        }
        assert(v@.take(i as int) =~= v@);
        acc
    }

    /// The blinded commitment to `v`, whether or not the commitments are to be
    /// blinded. None where there are too few generators.
    pub open spec fn blinded(&self, v: Seq<Fq>, blind: Fq) -> Option<Grumpkin> {
        if v.len() > self.generators@.len() {
            None
        } else {
            Some(grumpkin_plus(grumpkin_times(self.h, blind), grumpkin_msm(self.generators@, v)))
        }
    }

    /// The blinded commitment to `v`, as a circuit computes it.
    pub fn commit_blinded(&self, v: &Vec<Fq>, blind: &Fq) -> (r: Option<Grumpkin>)
        ensures
            r == self.blinded(v@, *blind),
    {
        if v.len() > self.generators.len() {
            return None;
        }
        Some(self.h.times(blind).plus(&self.msm(v)))
    }
}

impl CommitmentScheme<Fr, G1> for Pedersen {
    open spec fn commit_spec(&self, v: Seq<Fr>, blind: Fr) -> Option<G1> {
        if v.len() > self.generators@.len() {
            None
        } else if self.hiding {
            Some(g1_plus(g1_times(self.h, blind), g1_msm(self.generators@, v)))
        } else {
            Some(g1_msm(self.generators@, v))
        }
    }

    fn commit(&self, v: &Vec<Fr>, blind: &Fr) -> (r: Option<G1>) {
        if v.len() > self.generators.len() {
            return None;
        }
        let acc = self.msm(v);
        if self.hiding {
            Some(self.h.times(blind).plus(&acc))
        } else {
            Some(acc)
        }
    }
}

impl CommitmentScheme<Fq, Grumpkin> for PedersenGrumpkin {
    open spec fn commit_spec(&self, v: Seq<Fq>, blind: Fq) -> Option<Grumpkin> {
        if v.len() > self.generators@.len() {
            None
        } else if self.hiding {
            Some(grumpkin_plus(grumpkin_times(self.h, blind), grumpkin_msm(self.generators@, v)))
        } else {
            Some(grumpkin_msm(self.generators@, v))
        }
    }

    fn commit(&self, v: &Vec<Fq>, blind: &Fq) -> (r: Option<Grumpkin>) {
        if v.len() > self.generators.len() {
            return None;
        }
        let acc = self.msm(v);
        if self.hiding {
            Some(self.h.times(blind).plus(&acc))
        } else {
            Some(acc)
        }
    }
}

/// Whether the commitment to `n` zeros with the blinding value zero is the point at
/// infinity.
pub open spec fn commits_zeros<CS: CommitmentScheme<Fr, G1>>(cs: CS, n: nat) -> bool {
    cs.commit_spec(repeated(f_zero::<Fr>(), n), f_zero::<Fr>()) == Some(G1::Infinity)
}

/// Pedersen's commitment to zeros with the blinding value zero is the point at
/// infinity, whether or not the commitments are blinded.
pub proof fn law_pedersen_commits_zeros(p: Pedersen, n: nat)
    requires
        n <= p.generators@.len(),
    ensures
        commits_zeros(p, n),
{
    lemma_msm_of_zeros(p.generators@, n);
}

proof fn lemma_msm_of_zeros(generators: Seq<G1>, n: nat)
    ensures
        g1_msm(generators, repeated(f_zero::<Fr>(), n)) == G1::Infinity,
    decreases n,
{
    if n > 0 {
        lemma_msm_of_zeros(generators, (n - 1) as nat);
        assert(repeated(f_zero::<Fr>(), n).drop_last() =~= repeated(f_zero::<Fr>(), (n - 1) as nat));
    }
}

/// A proof that the polynomial that a commitment is to has a value at a point.
#[derive(Debug, Clone, Copy, PartialEq, Eq, Structural)]
pub struct KZGProof {
    pub eval: Fr,
    pub proof: G1,
}

/// A key with which the values of committed polynomials are proved.
pub trait OpeningProver<P> {
    /// What proving the value at `challenge` of the polynomial `v` returns.
    spec fn prove_spec(&self, challenge: Fr, v: Elements<Fr>) -> Result<P, ErrorView>;

    /// Proves the value at `challenge` of the polynomial with the coefficients `v`,
    /// whose commitment is not blinded.
    fn prove_with_challenge(&self, challenge: &Fr, v: &Vec<Fr>) -> (r: Result<P, Error>)
        ensures
            outcome(r) == self.prove_spec(*challenge, v@),
    ;
}

/// A key with which the value of a combination of polynomials is proved at once.
pub trait BatchOpeningProver<P> {
    /// What proving the value at `challenge` of the combination of the polynomials in
    /// `v` with the powers of `rc` returns.
    spec fn batch_prove_spec(&self, challenge: Fr, v: Elements<Elements<Fr>>, rc: Fr) -> Result<P, ErrorView>;

    /// Proves the value at `challenge` of the combination of the polynomials in `v`
    /// with the powers of `rc`.
    fn batch_prove_with_challenge(&self, challenge: &Fr, v: &Vec<Vec<Fr>>, rc: &Fr) -> (r: Result<P, Error>)
        ensures
            outcome(r) == self.batch_prove_spec(*challenge, rows(v@), *rc),
    ;
}

/// A key with which proofs of values of committed polynomials are verified.
pub trait OpeningVerifier<P> {
    /// What verifying the value at `challenge` of the polynomial in `cm` returns.
    spec fn verify_spec(&self, challenge: Fr, cm: G1, proof: P) -> Result<(), ErrorView>;

    /// Verifies the value at `challenge` of the polynomial that `cm` is a commitment to.
    fn verify_with_challenge(&self, challenge: &Fr, cm: &G1, proof: &P) -> (r: Result<(), Error>)
        ensures
            outcome(r) == self.verify_spec(*challenge, *cm, *proof),
    ;
}

} // verus!
