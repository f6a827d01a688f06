//! What the commitments are: sums of multiples of the generators, told by the partial sums.
use vstd::prelude::*;
use crate::batch_proc::QaNizkProver;
use crate::batch_proc::QaNizkProverParams;
use crate::commitment::g1_msm;
use crate::commitment::grumpkin_msm;
use crate::commitment::CommitmentScheme;
use crate::commitment::Pedersen;
use crate::commitment::PedersenGrumpkin;
use crate::curve::g1_plus;
use crate::curve::g1_times;
use crate::curve::grumpkin_plus;
use crate::curve::grumpkin_times;
use crate::curve::Grumpkin;
use crate::curve::G1;
use crate::field_fq::Fq;
use crate::field_fr::Fr;

verus! {

/// Whether `sums` are the partial sums of the multiples of the generators by `v`: none at
/// first, then one more multiple each.
pub open spec fn are_g1_sums(sums: Seq<G1>, generators: Seq<G1>, v: Seq<Fr>) -> bool {
    &&& sums.len() == v.len() + 1
    &&& sums[0] is Infinity
    &&& forall|k: int|
        0 <= k < v.len() ==> sums[k + 1] == g1_plus(sums[k], g1_times(generators[k], #[trigger] v[k]))
}

/// The same on the second curve.
pub open spec fn are_grumpkin_sums(sums: Seq<Grumpkin>, generators: Seq<Grumpkin>, v: Seq<Fq>) -> bool {
    &&& sums.len() == v.len() + 1
    &&& sums[0] is Infinity
    &&& forall|k: int|
        0 <= k < v.len() ==> sums[k + 1] == grumpkin_plus(sums[k], grumpkin_times(generators[k], #[trigger] v[k]))
}

proof fn lemma_g1_sums(sums: Seq<G1>, generators: Seq<G1>, v: Seq<Fr>, n: int)
    requires
        are_g1_sums(sums, generators, v),
        0 <= n <= v.len(),
    ensures
        g1_msm(generators, v.take(n)) == sums[n],
    decreases n,
{
    if n > 0 {
        lemma_g1_sums(sums, generators, v, n - 1);
        assert(v.take(n).drop_last() =~= v.take(n - 1));
        assert(v.take(n).last() == v[n - 1]);
    }
}

proof fn lemma_grumpkin_sums(sums: Seq<Grumpkin>, generators: Seq<Grumpkin>, v: Seq<Fq>, n: int)
    requires
        are_grumpkin_sums(sums, generators, v),
        0 <= n <= v.len(),
    ensures
        grumpkin_msm(generators, v.take(n)) == sums[n],
    decreases n,
{
    if n > 0 {
        lemma_grumpkin_sums(sums, generators, v, n - 1);
        assert(v.take(n).drop_last() =~= v.take(n - 1));
        assert(v.take(n).last() == v[n - 1]);
    }
}

/// A commitment is the sum of the multiples of the generators by the entries, to which a
/// hiding one adds the blinding value's multiple of its own generator. There is none where
/// generators are missing.
pub proof fn law_pedersen_commitment(p: Pedersen, v: Seq<Fr>, blind: Fr, sums: Seq<G1>)
    requires
        are_g1_sums(sums, p.generators@, v),
    ensures
        p.commit_spec(v, blind) is Some <==> v.len() <= p.generators@.len(),
        p.commit_spec(v, blind) matches Some(c) ==> c == if p.hiding {
            g1_plus(g1_times(p.h, blind), sums[v.len() as int])
        } else {
            sums[v.len() as int]
        },
{
    lemma_g1_sums(sums, p.generators@, v, v.len() as int);
    assert(v.take(v.len() as int) =~= v);
}

/// The same on the second curve, where a commitment is also blinded on demand.
pub proof fn law_grumpkin_commitment(p: PedersenGrumpkin, v: Seq<Fq>, blind: Fq, sums: Seq<Grumpkin>)
    requires
        are_grumpkin_sums(sums, p.generators@, v),
    ensures
        p.commit_spec(v, blind) is Some <==> v.len() <= p.generators@.len(),
        p.commit_spec(v, blind) matches Some(c) ==> c == if p.hiding {
            grumpkin_plus(grumpkin_times(p.h, blind), sums[v.len() as int])
        } else {
            sums[v.len() as int]
        },
        p.blinded(v, blind) is Some <==> v.len() <= p.generators@.len(),
        p.blinded(v, blind) matches Some(c) ==> c == grumpkin_plus(
            grumpkin_times(p.h, blind),
            sums[v.len() as int],
        ),
{
    lemma_grumpkin_sums(sums, p.generators@, v, v.len() as int);
    assert(v.take(v.len() as int) =~= v);
}

/// A proof of equal commitments is the sum of the multiples of the key by the vector and,
/// last, its blinding value, where the key is long enough for them.
pub proof fn law_equality_proof(p: QaNizkProverParams, w: Seq<Fr>, r: Fr, sums: Seq<G1>)
    requires
        w.len() < p.key@.len(),
        are_g1_sums(sums, p.key@, w + seq![r]),
    ensures
        p.prove_spec(w, r) == sums[w.len() + 1int],
{
    let v = w + seq![r];
    assert(v =~= w.push(r));
    lemma_g1_sums(sums, p.key@, v, v.len() as int);
    assert(v.take(v.len() as int) =~= v);
}

} // verus!
