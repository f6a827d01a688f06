//! Laws of batch processing: what is proved of claims is accepted.
use vstd::prelude::*;
use vstd::arithmetic::power::pow;
use crate::batch_proc::batch_challenges;
use crate::batch_proc::batch_proved;
use crate::batch_proc::claims_given;
use crate::batch_proc::combined_coms;
use crate::batch_proc::combined_point;
use crate::batch_proc::combined_polys;
use crate::batch_proc::entry_challenge;
use crate::batch_proc::hidden;
use crate::batch_proc::individual_openings;
use crate::batch_proc::lengths;
use crate::batch_proc::word_com;
use crate::batch_proc::word_point;
use crate::batch_proc::BatchClaim;
use crate::batch_proc::BatchProcessor;
use crate::batch_proc::BatchProcessorProverParams;
use crate::batch_proc::BatchProcessorVerifierParams;
use crate::batch_proc::BatchProof;
use crate::batch_proc::ClaimRands;
use crate::batch_proc::IndividualClaim;
use crate::batch_proc::IndividualProof;
use crate::batch_proc::QaNizkProver;
use crate::batch_proc::SnarkAdvice;
use crate::commitment::BatchOpeningProver;
use crate::commitment::CommitmentScheme;
use crate::commitment::KZGProof;
use crate::commitment::OpeningProver;
use crate::commitment::OpeningVerifier;
use crate::curve::g1_plus;
use crate::curve::g1_sub;
use crate::curve::g1_times;
use crate::curve::gt_mul;
use crate::curve::pairing;
use crate::curve::G1;
use crate::curve::G2;
use crate::error::ErrorView;
use crate::field::f_mul;
use crate::field::f_pow;
use crate::field::f_zero;
use crate::field::lemma_op_values;
use crate::field::lemma_units;
use crate::field::lemma_val_injective;
use crate::field::FieldModel;
use crate::field_fq::Fq;
use crate::field_fr::fr_modulus;
use crate::field_fr::Fr;
use crate::instance_super::gt_one;
use crate::instance_super::pairing_product;
use crate::instance_super::QaNizkVerifierParams;
use crate::plan_laws::law_low32_keeps_numbers;
use crate::poly::poly_eval;
use crate::r1cs::folded;
use crate::r1cs::lemma_congruent_ops;
use crate::sponge::PoseidonConfigView;
use crate::vecs::joined;
use crate::vecs::rows;

verus! {

/// Whether the openings are complete: what the one key proves of a polynomial, the other
/// accepts for its commitment.
pub open spec fn openings_complete<P, K: CommitmentScheme<Fr, G1> + OpeningProver<P>, KV: OpeningVerifier<P>>(
    pk: K,
    vk: KV,
) -> bool {
    forall|ch: Fr, v: Seq<Fr>, cm: G1, p: P| #![trigger vk.verify_spec(ch, cm, p), pk.prove_spec(ch, v)]
        pk.commit_spec(v, f_zero()) == Some(cm) && pk.prove_spec(ch, v) == Ok::<P, ErrorView>(p)
            ==> vk.verify_spec(ch, cm, p) is Ok
}

/// Whether each point is the commitment to the polynomial at its place.
pub open spec fn committed_to<K: CommitmentScheme<Fr, G1>>(pk: K, polys: Seq<Seq<Fr>>, coms: Seq<G1>) -> bool {
    &&& polys.len() == coms.len()
    &&& forall|i: int| 0 <= i < polys.len() ==> pk.commit_spec(#[trigger] polys[i], f_zero()) == Some(coms[i])
}

/// Whether the openings of combinations are complete: what the one key proves of a
/// combination of polynomials, the other accepts for that of their commitments.
pub open spec fn batch_openings_complete<
    K: CommitmentScheme<Fr, G1> + BatchOpeningProver<KZGProof>,
    KV: OpeningVerifier<KZGProof>,
>(pk: K, vk: KV) -> bool {
    forall|ch: Fr, polys: Seq<Seq<Fr>>, coms: Seq<G1>, rc: Fr, p: KZGProof|
        #![trigger committed_to(pk, polys, coms), pk.batch_prove_spec(ch, polys, rc), vk.verify_spec(ch, combined_point(coms, rc, coms.len()), p)]
        committed_to(pk, polys, coms) && pk.batch_prove_spec(ch, polys, rc) == Ok::<KZGProof, ErrorView>(p)
            ==> vk.verify_spec(ch, combined_point(coms, rc, coms.len()), p) is Ok
}

/// Whether the proofs that commitments are for one vector are complete: what the one key
/// proves of the points and values of an advice, the other accepts for their commitments,
/// where each vector has one blinding value in both.
pub open spec fn same_vector_proofs_complete<
    K: CommitmentScheme<Fr, G1>,
    V: CommitmentScheme<Fr, G1>,
    Q: QaNizkProver,
>(pkey: BatchProcessorProverParams<K, V, Q>, vk: QaNizkVerifierParams) -> bool {
    forall|adv: SnarkAdvice|
        (#[trigger] BatchProcessor::vector_coms(pkey.kzg, pkey.vec, adv)) is Some && adv.r_vec_r == adv.r_vec_r_kzg
            && adv.r_vec_v == adv.r_vec_v_kzg ==> {
            let coms = BatchProcessor::vector_coms(pkey.kzg, pkey.vec, adv)->0;
            vk.accepts(
                seq![coms.2, coms.0, coms.3, coms.1],
                pkey.pk_qa_nizk.prove_spec(
                    hidden(adv.vec_r@, adv.r_vec_r_kzg) + hidden(adv.vec_v@, adv.r_vec_v_kzg),
                    f_zero(),
                ),
            )
        }
}

/// Whether the commitments are additive: a combination of two vectors has that of their
/// commitments.
pub open spec fn commits_additively<V: CommitmentScheme<Fr, G1>>(pk: V) -> bool {
    forall|a: Seq<Fr>, c: Fr, b: Seq<Fr>| #![trigger folded(a, c, b), pk.commit_spec(a, f_zero())]
        a.len() == b.len() && pk.commit_spec(a, f_zero()) is Some && pk.commit_spec(b, f_zero()) is Some
            ==> pk.commit_spec(folded(a, c, b), f_zero()) == Some(
            g1_plus(pk.commit_spec(a, f_zero())->0, g1_times(pk.commit_spec(b, f_zero())->0, c)),
        )
}

/// What is proved of the claim on all words is accepted: where the claims and the advice
/// are made for the words and the proof is made with them, the first part of the proof
/// holds, for keys that are complete. With no keys for the second part this is all that
/// is verified.
pub proof fn law_proved_batch_is_accepted<
    K: CommitmentScheme<Fr, G1> + BatchOpeningProver<KZGProof>,
    V: CommitmentScheme<Fr, G1>,
    Q: QaNizkProver,
    KV: OpeningVerifier<KZGProof>,
    VV,
>(
    pkey: BatchProcessorProverParams<K, V, Q>,
    vkey: BatchProcessorVerifierParams<KV, VV>,
    config: PoseidonConfigView,
    words: Seq<Vec<Fr>>,
    lk1: Seq<Fr>,
    lk2: Seq<Fr>,
    rands: ClaimRands,
    claim: BatchClaim,
    claims: Seq<IndividualClaim>,
    adv: SnarkAdvice,
    hash_cm_f: Fr,
    prf: BatchProof,
)
    requires
        claims_given(pkey, words, lk1, lk2, rands, claim, claims, adv),
        batch_proved(pkey, config, claim, adv, rows(words), lk1, lk2, hash_cm_f, prf),
        batch_openings_complete(pkey.kzg, vkey.kzg),
        same_vector_proofs_complete(pkey, vkey.vk_qa_nizk),
    ensures
        BatchProcessor::part_one_ok(vkey, claim, prf, config),
{
    let polys = combined_polys(rows(words), lk1, lk2, adv);
    let coms = combined_coms(claim, prf);
    assert(committed_to(pkey.kzg, polys, coms));
    assert(vkey.kzg.verify_spec(prf.ch, combined_point(coms, prf.rc, coms.len()), prf.agg_kzg_prf) is Ok);
}

/// What is proved of a claim on a word is accepted: where the claims and the advice are
/// made for the words, and both proofs with them, the individual proof holds, for keys
/// that are complete. Its value is that of the word at the claim's point.
pub proof fn law_proved_individual_is_accepted<
    P,
    K: CommitmentScheme<Fr, G1> + BatchOpeningProver<KZGProof> + OpeningProver<KZGProof>,
    V: CommitmentScheme<Fr, G1> + OpeningProver<P>,
    Q: QaNizkProver,
    KV: OpeningVerifier<KZGProof>,
    VV: OpeningVerifier<P>,
>(
    pkey: BatchProcessorProverParams<K, V, Q>,
    vkey: BatchProcessorVerifierParams<KV, VV>,
    config: PoseidonConfigView,
    words: Seq<Vec<Fr>>,
    lk1: Seq<Fr>,
    lk2: Seq<Fr>,
    rands: ClaimRands,
    claim: BatchClaim,
    claims: Seq<IndividualClaim>,
    adv: SnarkAdvice,
    hash_cm_f: Fr,
    prf: BatchProof,
    i: int,
    ind: IndividualProof<P>,
)
    requires
        vkey.poseidon_config@ == pkey.poseidon_config@,
        words.len() <= usize::MAX,
        claims_given(pkey, words, lk1, lk2, rands, claim, claims, adv),
        batch_proved(pkey, config, claim, adv, rows(words), lk1, lk2, hash_cm_f, prf),
        0 <= i < words.len(),
        individual_openings::<K, P, V, Q>(pkey, adv, words, i) == (
            Ok::<P, ErrorView>(ind.vcom_prf),
            Ok::<KZGProof, ErrorView>(ind.kzg_prf),
        ),
        ind.v_i == adv.vec_v@[i],
        openings_complete::<KZGProof, K, KV>(pkey.kzg, vkey.kzg),
        openings_complete::<P, V, VV>(pkey.vec, vkey.vec),
        commits_additively(pkey.vec),
    ensures
        claims[i].i == i,
        BatchProcessor::individual_ok(vkey, claims[i], prf, ind),
        ind.v_i == poly_eval(
            hidden(words[i]@, rands.word),
            word_point(vkey.poseidon_config@, claim, claims[i].kzg_word, i as nat),
        ),
{
    let word = words[i]@;
    assert(word_com(pkey.kzg, word, rands.word) is Some);
    assert(rows(words)[i] == word);
    let r_i = adv.vec_r@[i];
    assert(r_i == word_point(pkey.poseidon_config@, claims[i].batch_claim, claims[i].kzg_word, i as nat));
    let ch = entry_challenge(pkey.poseidon_config@, r_i, ind.v_i);
    let (a, b) = (adv.vec_r@.push(adv.r_vec_r), adv.vec_v@.push(adv.r_vec_v));
    assert(folded(a, ch, b) =~= BatchProcessor::entry_vector(adv, ch));
    assert(pkey.vec.commit_spec(a, f_zero()) is Some);
    let cm = g1_plus(prf.vcom_vec_r, g1_times(prf.vcom_vec_v, ch));
    assert(pkey.vec.commit_spec(folded(a, ch, b), f_zero()) == Some(cm));
    assert(vkey.vec.verify_spec(ch, cm, ind.vcom_prf) is Ok);
    assert(adv.rands@[i] == rands.word);
    assert(vkey.kzg.verify_spec(r_i, claims[i].kzg_word, ind.kzg_prf) is Ok);
}

/// Whether `v` has `blind` first and then the entries, last entry first.
pub open spec fn blinded_and_reversed(v: Seq<Fr>, entries: Seq<Fr>, blind: Fr) -> bool {
    &&& v.len() == entries.len() + 1
    &&& v[0] == blind
    &&& forall|j: int| 0 <= j < entries.len() ==> v[entries.len() - j] == #[trigger] entries[j]
}

proof fn lemma_hidden(v: Seq<Fr>, entries: Seq<Fr>, blind: Fr)
    requires
        blinded_and_reversed(v, entries, blind),
    ensures
        hidden(entries, blind) == v,
{
    let h = hidden(entries, blind);
    assert(h.len() == v.len());
    assert forall|k: int| 0 <= k < v.len() implies h[k] == v[k] by {
        if k > 0 {
            let j = entries.len() - k;
            assert(v[entries.len() - j] == entries[j]);
        }
    }
    assert(h =~= v);
}

/// The claim's length commitment is that to the words' numbers of elements: the blinding
/// value, and then the numbers, last word first.
pub proof fn law_claim_commits_to_lengths<K: CommitmentScheme<Fr, G1>, V, Q>(
    pkey: BatchProcessorProverParams<K, V, Q>,
    words: Seq<Vec<Fr>>,
    lk1: Seq<Fr>,
    lk2: Seq<Fr>,
    rands: ClaimRands,
    claim: BatchClaim,
    claims: Seq<IndividualClaim>,
    adv: SnarkAdvice,
    v: Seq<Fr>,
    zero: Fr,
)
    requires
        claims_given(pkey, words, lk1, lk2, rands, claim, claims, adv),
        zero.val() == 0,
        v.len() == words.len() + 1,
        v[0] == rands.length,
        forall|i: int|
            0 <= i < words.len() ==> v[words.len() - i].val() == (#[trigger] words[i])@.len() && words[i]@.len()
                < 0x1_0000_0000,
    ensures
        pkey.kzg.commit_spec(v, zero) == Some(claim.kzg_length),
{
    lemma_units::<Fr>();
    lemma_val_injective(zero, f_zero::<Fr>());
    let entries = lengths(rows(words));
    assert forall|i: int| 0 <= i < entries.len() implies v[entries.len() - i] == #[trigger] entries[i] by {
        let w = words[i];
        assert(rows(words)[i] == w@);
        law_low32_keeps_numbers(w@.len());
        lemma_val_injective(v[entries.len() - i], entries[i]);
    }
    lemma_hidden(v, entries, rands.length);
}

/// Words of which one differs in length from its place in the other list have different
/// lists of lengths.
pub proof fn law_lengths_bind(a: Seq<Seq<Fr>>, b: Seq<Seq<Fr>>, i: int)
    requires
        lengths(a) == lengths(b),
        0 <= i < a.len(),
        a[i].len() < 0x1_0000_0000,
        b[i].len() < 0x1_0000_0000,
    ensures
        a.len() == b.len(),
        a[i].len() == b[i].len(),
{
    assert(lengths(a).len() == a.len() && lengths(b).len() == b.len());
    law_low32_keeps_numbers(a[i].len());
    law_low32_keeps_numbers(b[i].len());
    assert(lengths(a)[i].val() == a[i].len());
    assert(lengths(b)[i].val() == b[i].len());
}

/// Whether `all` has the words behind each other, the word `i` from place `starts[i]` on.
pub open spec fn behind_each_other(all: Seq<Fr>, starts: Seq<int>, words: Seq<Vec<Fr>>) -> bool {
    &&& starts.len() == words.len() + 1
    &&& starts[0] == 0
    &&& starts[words.len() as int] == all.len()
    &&& forall|i: int|
        0 <= i < words.len() ==> {
            &&& starts[i + 1] == starts[i] + (#[trigger] words[i])@.len()
            &&& 0 <= starts[i] <= starts[i + 1] <= all.len()
            &&& all.subrange(starts[i], starts[i + 1]) == words[i]@
        }
}

proof fn lemma_behind(all: Seq<Fr>, starts: Seq<int>, words: Seq<Vec<Fr>>, n: int)
    requires
        behind_each_other(all, starts, words),
        0 <= n <= words.len(),
    ensures
        0 <= starts[n] <= all.len(),
        joined(rows(words).take(n)) == all.take(starts[n]),
    decreases n,
{
    if n == 0 {
        assert(rows(words).take(0) =~= Seq::empty());
        assert(all.take(0) =~= Seq::empty());
    } else {
        lemma_behind(all, starts, words, n - 1);
        let w = words[n - 1];
        assert(rows(words).take(n).drop_last() =~= rows(words).take(n - 1));
        assert(rows(words).take(n).last() == w@);
        assert(all.take(starts[n]) =~= all.take(starts[n - 1]) + all.subrange(starts[n - 1], starts[n]));
    }
}

/// The claim's commitment to all words is that to the words behind each other: the
/// blinding value, and then the elements, last one first.
pub proof fn law_claim_commits_to_words<K: CommitmentScheme<Fr, G1>, V, Q>(
    pkey: BatchProcessorProverParams<K, V, Q>,
    words: Seq<Vec<Fr>>,
    lk1: Seq<Fr>,
    lk2: Seq<Fr>,
    rands: ClaimRands,
    claim: BatchClaim,
    claims: Seq<IndividualClaim>,
    adv: SnarkAdvice,
    all: Seq<Fr>,
    starts: Seq<int>,
    v: Seq<Fr>,
    zero: Fr,
)
    requires
        claims_given(pkey, words, lk1, lk2, rands, claim, claims, adv),
        zero.val() == 0,
        behind_each_other(all, starts, words),
        blinded_and_reversed(v, all, rands.all_words),
    ensures
        pkey.kzg.commit_spec(v, zero) == Some(claim.kzg_all_words),
{
    lemma_units::<Fr>();
    lemma_val_injective(zero, f_zero::<Fr>());
    lemma_behind(all, starts, words, words.len() as int);
    assert(rows(words).take(words.len() as int) =~= rows(words));
    assert(all.take(all.len() as int) =~= all);
    lemma_hidden(v, all, rands.all_words);
}

/// The claim's commitments to the columns of the lookup table are those to the columns,
/// last entry first, which nothing blinds.
pub proof fn law_claim_commits_to_table<K: CommitmentScheme<Fr, G1>, V, Q>(
    pkey: BatchProcessorProverParams<K, V, Q>,
    words: Seq<Vec<Fr>>,
    lk1: Seq<Fr>,
    lk2: Seq<Fr>,
    rands: ClaimRands,
    claim: BatchClaim,
    claims: Seq<IndividualClaim>,
    adv: SnarkAdvice,
    v1: Seq<Fr>,
    v2: Seq<Fr>,
    zero: Fr,
)
    requires
        claims_given(pkey, words, lk1, lk2, rands, claim, claims, adv),
        zero.val() == 0,
        v1.len() == lk1.len(),
        v2.len() == lk2.len(),
        forall|j: int| 0 <= j < lk1.len() ==> v1[lk1.len() - 1 - j] == #[trigger] lk1[j],
        forall|j: int| 0 <= j < lk2.len() ==> v2[lk2.len() - 1 - j] == #[trigger] lk2[j],
    ensures
        pkey.kzg.commit_spec(v1, zero) == Some(claim.kzg_lk_col1),
        pkey.kzg.commit_spec(v2, zero) == Some(claim.kzg_lk_col2),
{
    lemma_units::<Fr>();
    lemma_val_injective(zero, f_zero::<Fr>());
    assert forall|k: int| 0 <= k < v1.len() implies lk1.reverse()[k] == v1[k] by {
        assert(v1[lk1.len() - 1 - (lk1.len() - 1 - k)] == lk1[lk1.len() - 1 - k]);
    }
    assert forall|k: int| 0 <= k < v2.len() implies lk2.reverse()[k] == v2[k] by {
        assert(v2[lk2.len() - 1 - (lk2.len() - 1 - k)] == lk2[lk2.len() - 1 - k]);
    }
    assert(lk1.reverse() =~= v1);
    assert(lk2.reverse() =~= v2);
}

/// The sum of the coefficients times the powers of `x`, in integers.
pub open spec fn power_sum(v: Seq<Fr>, x: int) -> int
    decreases v.len(),
{
    if v.len() == 0 {
        0
    } else {
        power_sum(v.drop_last(), x) + v.last().val() * pow(x, (v.len() - 1) as nat)
    }
}

proof fn lemma_power_sum_front(v: Seq<Fr>, x: int)
    requires
        v.len() > 0,
    ensures
        power_sum(v, x) == v[0].val() + x * power_sum(v.drop_first(), x),
    decreases v.len(),
{
    reveal(pow);
    if v.len() == 1 {
        assert(v.drop_last() =~= Seq::empty());
        assert(v.drop_first() =~= Seq::empty());
        assert(pow(x, 0) == 1);
        assert(v.last().val() * 1 == v[0].val());
        assert(x * 0 == 0);
    } else {
        let (front, tail) = (v.drop_last(), v.drop_first());
        lemma_power_sum_front(front, x);
        assert(front.drop_first() =~= tail.drop_last());
        let k = (v.len() - 2) as nat;
        let (c, p, s) = (v.last().val() as int, pow(x, k), power_sum(tail.drop_last(), x));
        assert(pow(x, (k + 1) as nat) == x * p);
        assert(x * (s + c * p) == x * s + c * (x * p)) by (nonlinear_arith);
    }
}

/// The value of a polynomial is the sum of its coefficients times the powers of the point,
/// modulo the field's modulus.
pub proof fn law_value_is_power_sum(v: Seq<Fr>, x: Fr)
    ensures
        poly_eval(v, x).val() == power_sum(v, x.val() as int) % (fr_modulus() as int),
    decreases v.len(),
{
    Fr::lemma_modulus();
    lemma_units::<Fr>();
    let m = fr_modulus() as int;
    let n = x.val() as int;
    if v.len() == 0 {
        vstd::arithmetic::div_mod::lemma_small_mod(0, fr_modulus());
    } else {
        law_value_is_power_sum(v.drop_first(), x);
        lemma_power_sum_front(v, n);
        let (e, s) = (poly_eval(v.drop_first(), x), power_sum(v.drop_first(), n));
        vstd::arithmetic::div_mod::lemma_mod_twice(s, m);
        lemma_congruent_ops(x, n, e, s);
        lemma_congruent_ops(v[0], v[0].val() as int, f_mul(x, e), n * s);
        lemma_op_values(v[0], f_mul(x, e));
        vstd::arithmetic::div_mod::lemma_small_mod(poly_eval(v, x).val(), fr_modulus());
    }
}

/// The claim on a word has the word's number, the claim on all words and the commitment to
/// the word: the blinding value, and then the elements, last one first. The advice has the
/// word's blinding value and the value of that polynomial at the word's point, which is
/// drawn for the claim.
pub proof fn law_claim_commits_to_word<K: CommitmentScheme<Fr, G1>, V, Q>(
    pkey: BatchProcessorProverParams<K, V, Q>,
    words: Seq<Vec<Fr>>,
    lk1: Seq<Fr>,
    lk2: Seq<Fr>,
    rands: ClaimRands,
    claim: BatchClaim,
    claims: Seq<IndividualClaim>,
    adv: SnarkAdvice,
    i: int,
    v: Seq<Fr>,
    zero: Fr,
)
    requires
        claims_given(pkey, words, lk1, lk2, rands, claim, claims, adv),
        words.len() <= usize::MAX,
        zero.val() == 0,
        0 <= i < words.len(),
        blinded_and_reversed(v, words[i]@, rands.word),
    ensures
        claims.len() == words.len(),
        claims[i].i == i,
        claims[i].batch_claim == claim,
        pkey.kzg.commit_spec(v, zero) == Some(claims[i].kzg_word),
        adv.rands@[i] == rands.word,
        adv.vec_r@[i] == word_point(pkey.poseidon_config@, claim, claims[i].kzg_word, i as nat),
        adv.vec_v@[i].val() == power_sum(v, adv.vec_r@[i].val() as int) % (fr_modulus() as int),
        adv.vec_r@.len() == words.len(),
        adv.vec_v@.len() == words.len(),
{
    lemma_units::<Fr>();
    lemma_val_injective(zero, f_zero::<Fr>());
    lemma_hidden(v, words[i]@, rands.word);
    assert(word_com(pkey.kzg, words[i]@, rands.word) is Some);
    assert(rows(words)[i] == words[i]@);
    let r_i = adv.vec_r@[i];
    law_value_is_power_sum(v, r_i);
}

/// A power in the field is the power of the integer, modulo the field's modulus.
pub proof fn law_power(a: Fr, n: nat)
    ensures
        f_pow(a, n).val() == pow(a.val() as int, n) % (fr_modulus() as int),
    decreases n,
{
    reveal(pow);
    Fr::lemma_modulus();
    lemma_units::<Fr>();
    let m = fr_modulus() as int;
    let x = a.val() as int;
    if n == 0 {
        vstd::arithmetic::div_mod::lemma_small_mod(1, fr_modulus());
    } else {
        let k = (n - 1) as nat;
        law_power(a, k);
        let (p, q) = (f_pow(a, k), pow(x, k));
        vstd::arithmetic::div_mod::lemma_mod_twice(q, m);
        lemma_congruent_ops(p, q, a, x);
        lemma_op_values(p, a);
        assert(q * x == x * q) by (nonlinear_arith);
        vstd::arithmetic::div_mod::lemma_small_mod(f_pow(a, n).val(), fr_modulus());
    }
}

/// Whether the product of the pairings of five points with five others is one, where
/// `one` has the coefficients of one.
pub open spec fn five_pairings_are_one(a: Seq<G1>, b: Seq<G2>, one: Seq<Fq>) -> bool {
    let (e0, e1, e2, e3, e4) = (
        pairing(a[0], b[0]),
        pairing(a[1], b[1]),
        pairing(a[2], b[2]),
        pairing(a[3], b[3]),
        pairing(a[4], b[4]),
    );
    &&& e0 is Some && e1 is Some && e2 is Some && e3 is Some && e4 is Some
    &&& gt_mul(gt_mul(gt_mul(gt_mul(gt_mul(one, e0->0), e1->0), e2->0), e3->0), e4->0) == one
}

/// Whether the coefficients are those of one.
pub open spec fn is_gt_one(one: Seq<Fq>) -> bool {
    one.len() == 12 && one[0].val() == 1 && forall|i: int| 1 <= i < 12 ==> (#[trigger] one[i]).val() == 0
}

pub proof fn lemma_gt_one(one: Seq<Fq>)
    requires
        is_gt_one(one),
    ensures
        one == gt_one(),
{
    lemma_units::<Fq>();
    assert forall|i: int| 0 <= i < 12 implies one[i] == gt_one()[i] by {
        lemma_val_injective(one[i], gt_one()[i]);
    }
    assert(one =~= gt_one());
}

/// A proof that four commitments are for one vector is accepted exactly where the product
/// of the pairings of the commitments with the key's first four points, and of the
/// proof's negative with the last one, is one.
pub proof fn law_same_vector_check(vk: QaNizkVerifierParams, x: Seq<G1>, prf: G1, one: Seq<Fq>)
    requires
        x.len() == 4,
        vk.c@.len() == 4,
        is_gt_one(one),
    ensures
        vk.accepts(x, prf) <==> five_pairings_are_one(
            seq![x[0], x[1], x[2], x[3], g1_sub(G1::Infinity, prf)],
            seq![vk.c@[0], vk.c@[1], vk.c@[2], vk.c@[3], vk.a],
            one,
        ),
{
    lemma_gt_one(one);
    let a = x.push(g1_sub(G1::Infinity, prf));
    let b = vk.c@.push(vk.a);
    assert(a =~= seq![x[0], x[1], x[2], x[3], g1_sub(G1::Infinity, prf)]);
    assert(b =~= seq![vk.c@[0], vk.c@[1], vk.c@[2], vk.c@[3], vk.a]);
    reveal_with_fuel(pairing_product, 6);
    assert(a.len() == 5);
}

/// What acceptance of the first part of a batch proof means: the commitments to points and
/// values, as polynomials and as vectors, are for the same vectors; the challenge and the
/// combination coefficient are those that belong to the claim and the proof; and the
/// opening holds at the challenge for the sum of the commitments to the two columns, to
/// all words, to their lengths, to the points and to the values, each times one more power
/// of the coefficient.
pub proof fn law_accepted_batch_opens_the_claim<KV: OpeningVerifier<KZGProof>, VV>(
    vkey: BatchProcessorVerifierParams<KV, VV>,
    claim: BatchClaim,
    prf: BatchProof,
    config: PoseidonConfigView,
    one: Seq<Fq>,
)
    requires
        vkey.vk_qa_nizk.c@.len() == 4,
        is_gt_one(one),
    ensures
        BatchProcessor::part_one_ok(vkey, claim, prf, config) <==> {
            let (k, rc) = (vkey.vk_qa_nizk, prf.rc);
            let p0 = g1_plus(G1::Infinity, g1_times(claim.kzg_lk_col1, f_pow(rc, 0)));
            let p1 = g1_plus(p0, g1_times(claim.kzg_lk_col2, f_pow(rc, 1)));
            let p2 = g1_plus(p1, g1_times(claim.kzg_all_words, f_pow(rc, 2)));
            let p3 = g1_plus(p2, g1_times(claim.kzg_length, f_pow(rc, 3)));
            let p4 = g1_plus(p3, g1_times(prf.kzg_vec_r, f_pow(rc, 4)));
            let p5 = g1_plus(p4, g1_times(prf.kzg_vec_v, f_pow(rc, 5)));
            &&& five_pairings_are_one(
                seq![prf.kzg_vec_r, prf.vcom_vec_r, prf.kzg_vec_v, prf.vcom_vec_v, g1_sub(G1::Infinity, prf.prf_qa_nizk)],
                seq![k.c@[0], k.c@[1], k.c@[2], k.c@[3], k.a],
                one,
            )
            &&& (prf.ch, prf.rc) == batch_challenges(config, claim, prf.hash_cmF, prf.kzg_vec_r, prf.kzg_vec_v)
            &&& vkey.kzg.verify_spec(prf.ch, p5, prf.agg_kzg_prf) is Ok
        },
{
    let x = seq![prf.kzg_vec_r, prf.vcom_vec_r, prf.kzg_vec_v, prf.vcom_vec_v];
    law_same_vector_check(vkey.vk_qa_nizk, x, prf.prf_qa_nizk, one);
    reveal_with_fuel(combined_point, 7);
    let coms = combined_coms(claim, prf);
    assert(coms.len() == 6);
}

/// What acceptance of an individual proof means: at the word's point, the word's commitment
/// opens, and the combination of the commitments to points and values opens at the
/// coefficient that is drawn for the point and the claimed value.
pub proof fn law_accepted_individual_opens_the_word<KV: OpeningVerifier<KZGProof>, P, VV: OpeningVerifier<P>>(
    vkey: BatchProcessorVerifierParams<KV, VV>,
    claim: IndividualClaim,
    prf: BatchProof,
    ind: IndividualProof<P>,
)
    ensures
        BatchProcessor::individual_ok(vkey, claim, prf, ind) <==> {
            let config = vkey.poseidon_config@;
            let point = word_point(config, claim.batch_claim, claim.kzg_word, claim.i as nat);
            let ch = entry_challenge(config, point, ind.v_i);
            &&& vkey.kzg.verify_spec(point, claim.kzg_word, ind.kzg_prf) is Ok
            &&& vkey.vec.verify_spec(ch, g1_plus(prf.vcom_vec_r, g1_times(prf.vcom_vec_v, ch)), ind.vcom_prf) is Ok
        },
{
}

/// What the proof of a claim on all words commits to: the points and the values as
/// vectors with the blinding values behind them, and as polynomials with the blinding
/// values first and the entries last one first.
pub proof fn law_batch_proof_commits_to_points_and_values<
    K: CommitmentScheme<Fr, G1> + BatchOpeningProver<KZGProof>,
    V: CommitmentScheme<Fr, G1>,
    Q: QaNizkProver,
>(
    pkey: BatchProcessorProverParams<K, V, Q>,
    config: PoseidonConfigView,
    claim: BatchClaim,
    adv: SnarkAdvice,
    words: Seq<Seq<Fr>>,
    lk1: Seq<Fr>,
    lk2: Seq<Fr>,
    hash_cm_f: Fr,
    prf: BatchProof,
    r: Seq<Fr>,
    v: Seq<Fr>,
    zero: Fr,
)
    requires
        batch_proved(pkey, config, claim, adv, words, lk1, lk2, hash_cm_f, prf),
        zero.val() == 0,
        blinded_and_reversed(r, adv.vec_r@, adv.r_vec_r_kzg),
        blinded_and_reversed(v, adv.vec_v@, adv.r_vec_v_kzg),
    ensures
        pkey.kzg.commit_spec(r, zero) == Some(prf.kzg_vec_r),
        pkey.kzg.commit_spec(v, zero) == Some(prf.kzg_vec_v),
        pkey.vec.commit_spec(adv.vec_r@ + seq![adv.r_vec_r], zero) == Some(prf.vcom_vec_r),
        pkey.vec.commit_spec(adv.vec_v@ + seq![adv.r_vec_v], zero) == Some(prf.vcom_vec_v),
        prf.hash_cmF == hash_cm_f,
        (prf.ch, prf.rc) == batch_challenges(config, claim, hash_cm_f, prf.kzg_vec_r, prf.kzg_vec_v),
        prf.prf_qa_nizk == pkey.pk_qa_nizk.prove_spec(r + v, zero),
        prf.part2 is None,
{
    lemma_units::<Fr>();
    lemma_val_injective(zero, f_zero::<Fr>());
    lemma_hidden(r, adv.vec_r@, adv.r_vec_r_kzg);
    lemma_hidden(v, adv.vec_v@, adv.r_vec_v_kzg);
    assert(adv.vec_r@.push(adv.r_vec_r) =~= adv.vec_r@ + seq![adv.r_vec_r]);
    assert(adv.vec_v@.push(adv.r_vec_v) =~= adv.vec_v@ + seq![adv.r_vec_v]);
}

} // verus!
