//! What the passes over the words of a batch leave: what each step is told, and what the
//! claims, the chain and the run are made of.
use vstd::prelude::*;
use crate::batch_proc::word_com;
use crate::batch_proc::BatchProcessor;
use crate::batch_proc::BatchProcessorProverParams;
use crate::batch_proc::BatchProcessorVerifierParams;
use crate::batch_proc::ClaimRands;
use crate::batch_proc::QaNizkProver;
use crate::capacity_planner::WordInfo;
use crate::commitment::BatchOpeningProver;
use crate::commitment::CommitmentScheme;
use crate::commitment::KZGProof;
use crate::commitment::OpeningProver;
use crate::commitment::OpeningVerifier;
use crate::curve::G1;
use crate::curve::Grumpkin;
use crate::driver::cm_f_chain;
use crate::driver::covered;
use crate::driver::run;
use crate::driver::Driver;
use crate::driver::RunResult;
use crate::driver::RunSetup;
use crate::error::ErrorView;
use crate::field::lemma_units;
use crate::field::FieldModel;
use crate::field_fq::Fq;
use crate::field_fr::Fr;
use crate::foldpot_super::SuperInput;
use crate::limbs::g1_absorbed;
use crate::passes::inputs_fit;
use crate::passes::memories_match;
use crate::passes::statements_match;
use crate::passes::PassOne;
use crate::passes::PassTwo;
use crate::statements::StatementMapper;
use crate::vecs::rows;

verus! {

/// After the first pass the circuits and steps are those that are planned, their shares
/// cover the lookup table where that is checked, and what is looked up is what the
/// statements without shares look up. Without pairings there are claims on all words and on
/// the chosen one; with them there are none, and all advice is zero.
pub proof fn law_pass_one<A, I, M: StatementMapper<A, I>, K: CommitmentScheme<Fr, G1>, V, Q>(
    d: Driver<M>,
    pkey: Option<&BatchProcessorProverParams<K, V, Q>>,
    words: Seq<Vec<Fr>>,
    infos: Seq<WordInfo<I>>,
    rands: ClaimRands,
    idx: int,
    p: PassOne,
)
    requires
        d.pass_one_gives::<A, I, K, V, Q>(pkey, words, infos, rands, idx, p),
        0 <= idx < words.len() <= usize::MAX,
    ensures
        d.pcs::<A, I>(rows(words), infos, words.len()) == Ok::<Seq<usize>, ErrorView>(p.pcs@),
        p.steps@ == d.steps::<A, I>(rows(words), infos, p.adv, words.len()),
        d.b_check_lkup ==> covered(d.lk_share@, p.pcs@, p.pcs@.len()) >= d.lk_col1@.len(),
        d.statements::<A, I>(rows(words), infos, p.steps@, None, words.len()) matches Ok(built) && p.looked@
            == d.looked_up::<A, I>(p.pcs@, built, p.pcs@.len()),
        p.claims is None <==> d.b_full_mode,
        !d.b_full_mode ==> {
            let (claim, ind) = p.claims->0;
            &&& ind.i == idx
            &&& ind.batch_claim == claim
            &&& word_com(pkey->0.kzg, words[idx]@, rands.word) == Some(ind.kzg_word)
            &&& p.adv.vec_r@.len() == words.len()
            &&& p.adv.vec_v@.len() == words.len()
            &&& p.adv.rands@.len() == words.len()
        },
        d.b_full_mode ==> {
            &&& p.adv.vec_r@.len() == words.len()
            &&& p.adv.vec_v@.len() == words.len()
            &&& p.adv.rands@.len() == words.len()
            &&& forall|k: int| 0 <= k < words.len() ==> (#[trigger] p.adv.vec_r@[k]).val() == 0
            &&& forall|k: int| 0 <= k < words.len() ==> (#[trigger] p.adv.vec_v@[k]).val() == 0
            &&& forall|k: int| 0 <= k < words.len() ==> (#[trigger] p.adv.rands@[k]).val() == 0
            &&& p.adv.r_all_words.val() == 0 && p.adv.r_kzg_len.val() == 0
            &&& p.adv.r_vec_r.val() == 0 && p.adv.r_vec_r_kzg.val() == 0
            &&& p.adv.r_vec_v.val() == 0 && p.adv.r_vec_v_kzg.val() == 0
        },
{
    lemma_units::<Fr>();
    if !d.b_full_mode {
        assert(word_com(pkey->0.kzg, words[idx]@, rands.word) is Some);
    }
}

/// After the second pass each step's share of the lookup table begins where those of the
/// steps before it end, the statements have their shares, each step's commitment is to the
/// fixed memory of its statement, and the chain is over those commitments.
pub proof fn law_pass_two<A, I, M: StatementMapper<A, I>>(
    d: Driver<M>,
    words: Seq<Vec<Fr>>,
    infos: Seq<WordInfo<I>>,
    one: PassOne,
    p: PassTwo,
    k: int,
)
    requires
        d.pass_two_gives::<A, I>(words, infos, one, p),
        0 <= k < one.pcs@.len(),
    ensures
        p.starts@.len() == one.pcs@.len(),
        p.starts@[k] == covered(d.lk_share@, one.pcs@, k as nat),
        p.statements@.len() == one.pcs@.len(),
        d.statements::<A, I>(
            rows(words),
            infos,
            one.steps@,
            Some(
                (
                    p.starts@,
                    crate::statements::multiplicities(
                        one.looked@,
                        covered(d.lk_share@, one.pcs@, one.pcs@.len()),
                    ),
                ),
            ),
            words.len(),
        ) == Ok::<Seq<Seq<Fr>>, ErrorView>(rows(p.statements@)),
        d.planner.layered_circs@[one.pcs@[k] as int]@[0].memory(p.statements@[k]@) == Ok::<G1, ErrorView>(p.cm_fs@[k]),
        p.cm_fs@.len() == one.pcs@.len(),
        p.hash_cm_f == cm_f_chain(d.poseidon_config@, p.cm_fs@),
{
    lemma_covered(d.lk_share@, one.pcs@, k as nat, one.pcs@.len());
    crate::statement_laws::law_memories::<A, I, M>(
        d,
        one.pcs@,
        rows(p.statements@),
        one.pcs@.len(),
        p.cm_fs@,
    );
    assert(rows(p.statements@)[k] == p.statements@[k]@);
    let cm = p.cm_fs@[k];
}

proof fn lemma_covered(share: Seq<usize>, pcs: Seq<usize>, a: nat, b: nat)
    requires
        a <= b,
    ensures
        covered(share, pcs, a) <= covered(share, pcs, b),
    decreases b,
{
    if a < b {
        lemma_covered(share, pcs, a, (b - 1) as nat);
    }
}

/// Inputs fit where there is one for each step, with the lengths of the step's circuit; they
/// match where each has its step's statement and what is absorbed of its step's commitment.
pub proof fn law_inputs_match<CS1: CommitmentScheme<Fr, G1>, CS2: CommitmentScheme<Fq, Grumpkin>>(
    setup: RunSetup<CS1, CS2>,
    full: bool,
    pcs: Seq<usize>,
    stmts: Seq<Seq<Fr>>,
    cm_fs: Seq<G1>,
    inputs: Seq<SuperInput>,
    k: int,
)
    requires
        inputs_fit(setup, full, pcs, inputs),
        statements_match(stmts, inputs),
        memories_match(cm_fs, inputs),
        0 <= k < pcs.len(),
    ensures
        ({
            let c = setup.circuits@[pcs[k] as int];
            &&& inputs.len() == pcs.len()
            &&& inputs[k]@.external_inputs == stmts[k]
            &&& inputs[k]@.cm_f == g1_absorbed(cm_fs[k])
            &&& inputs[k]@.w.len() == c.w_len()
            &&& inputs[k]@.x.len() == (if full {
                3nat
            } else {
                2nat
            })
        }),
{
    let i = inputs[k];
    let c = pcs[k];
}

/// After the third pass the run of all steps succeeded and left the computation's state; it
/// started with the state whose elements are the chain's last link and the digest of the
/// challenge, the coefficient and the number of words. Without pairings the batch proof is
/// accepted, and the challenge and the coefficient are its.
pub proof fn law_pass_three<
    P,
    M,
    K: CommitmentScheme<Fr, G1> + BatchOpeningProver<KZGProof> + OpeningProver<KZGProof>,
    V: CommitmentScheme<Fr, G1> + OpeningProver<P>,
    Q: QaNizkProver,
    KV: OpeningVerifier<KZGProof>,
    VV,
    CS1: CommitmentScheme<Fr, G1>,
    CS2: CommitmentScheme<Fq, Grumpkin>,
>(
    d: Driver<M>,
    setup: RunSetup<CS1, CS2>,
    pkey: Option<&BatchProcessorProverParams<K, V, Q>>,
    vkey: Option<&BatchProcessorVerifierParams<KV, VV>>,
    words: Seq<Vec<Fr>>,
    one: PassOne,
    hash_cm_f: Fr,
    inputs: Seq<SuperInput>,
    res: RunResult<CS1, CS2, P>,
)
    requires
        d.pass_three_gives(setup, pkey, vkey, words, one, hash_cm_f, inputs, res),
    ensures
        res.num_steps == inputs.len(),
        res.proofs is None <==> d.b_full_mode,
        res.nova.circuits == setup.circuits,
        res.nova.pp_hash == setup.pp_hash,
        res.nova.z_0@.len() == 2,
        res.nova.z_0@[0] == hash_cm_f,
        !d.b_full_mode ==> {
            let (prf, ind) = res.proofs->0;
            let st = d.first_state(setup, hash_cm_f, prf.ch, prf.rc, words.len());
            &&& BatchProcessor::part_one_ok(*vkey->0, (one.claims->0).0, prf, d.poseidon_config@)
            &&& prf.hash_cmF == hash_cm_f
            &&& st.zi_part2_inst.ch == prf.ch
            &&& st.zi_part2_inst.rc == prf.rc
            &&& st.z_i == res.nova.z_0@
            &&& st.z_i[1] == st.zi_part2_inst.hash(d.poseidon_config@)
            &&& run(res.nova, st, one.pcs@, inputs, one.pcs@.len()).0 == res.nova.state@
            &&& run(res.nova, st, one.pcs@, inputs, one.pcs@.len()).1 is Ok
        },
{
}

} // verus!
