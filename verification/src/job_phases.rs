//! The two phases of a job, and the proof that they end in.
use vstd::prelude::*;
use crate::batch_proc::BatchClaim;
use crate::batch_proc::BatchPartTwo;
use crate::batch_proc::BatchProcessor;
use crate::batch_proc::BatchProcessorProverParams;
use crate::batch_proc::BatchProcessorVerifierParams;
use crate::batch_proc::BatchProof;
use crate::batch_proc::CircPubInput;
use crate::batch_proc::ClaimRands;
use crate::batch_proc::IndividualClaim;
use crate::batch_proc::IndividualProof;
use crate::batch_proc::PartTwoKeys;
use crate::batch_proc::QaNizkProver;
use crate::capacity_planner::WordInfo;
use crate::commitment::BatchOpeningProver;
use crate::commitment::CommitmentScheme;
use crate::commitment::KZGProof;
use crate::commitment::OpeningProver;
use crate::commitment::OpeningVerifier;
use crate::curve::Grumpkin;
use crate::curve::G1;
use crate::driver::Driver;
use crate::driver::RunResult;
use crate::driver::RunSetup;
use crate::error::Error;
use crate::error::ErrorView;
use crate::field::f_add;
use crate::field::f_zero;
use crate::field::Field;
use crate::field_fq::Fq;
use crate::field_fr::Fr;
use crate::foldpot_super::SuperInput;
use crate::instance_super::cyclepair_row;
use crate::instance_super::paired_points;
use crate::instance_super::pairing_product;
use crate::instance_super::InstanceSuperView;
use crate::instance_super::QaNizkVerifierParams;
use crate::jobs::run_end;
use crate::jobs::AllWitnesses;
use crate::jobs::FoldPotJob;
use crate::jobs::RunEnd;
use crate::part_two::PartTwoView;
use crate::passes::PassOne;
use crate::passes::PassTwo;
use crate::sponge::PoseidonConfig;
use crate::sponge::PoseidonConfigView;
use crate::statements::StatementMapper;
use crate::vecs::rows;

verus! {

/// What a phase gives: the passes' results and the end of the run.
pub struct Phase<CS1: CommitmentScheme<Fr, G1>, CS2: CommitmentScheme<Fq, Grumpkin>, P> {
    pub pass: PassOne,
    pub statements: PassTwo,
    pub run: RunResult<CS1, CS2, P>,
    pub end: RunEnd,
}

/// The second phase's words: the pairings with which the folded instance's commitments
/// are checked against the key, none where a pairing fails.
pub open spec fn pairing_words(
    config: PoseidonConfigView,
    vkey: QaNizkVerifierParams,
    end: (InstanceSuperView, AllWitnesses),
) -> Option<Seq<Seq<Fr>>> {
    let a = paired_points(end.1.com_all_w, end.0.insts, end.1.prf_qa_nizk);
    let b = vkey.c@.push(vkey.a);
    if pairing_product(a, b, a.len()) is Some {
        Some(Seq::new(a.len(), |i: int| cyclepair_row(config, a, b, i)))
    } else {
        None
    }
}

/// What the first phase gives from a run: its end and the second phase's words, or why
/// there are none.
pub open spec fn phase_one_end<
    CS1: CommitmentScheme<Fr, G1>,
    CS2: CommitmentScheme<Fq, Grumpkin>,
    P,
    K: CommitmentScheme<Fr, G1> + OpeningProver<KZGProof>,
    Q: QaNizkProver,
>(res: RunResult<CS1, CS2, P>, comkey: K, qa_pk: Q, qa_vk: QaNizkVerifierParams, r_all_w: Fr) -> Result<
    ((InstanceSuperView, AllWitnesses), Seq<Seq<Fr>>),
    ErrorView,
> {
    if res.proofs is None {
        Err(ErrorView::Other("batch proof is none!"@))
    } else {
        match run_end(res.nova, comkey, qa_pk, r_all_w) {
            Err(e) => Err(e),
            Ok(end) => match pairing_words(res.nova.poseidon_config@, qa_vk, end) {
                None => Err(ErrorView::Other("a pairing has no value"@)),
                Some(words) => Ok((end, words)),
            },
        }
    }
}

/// The first phase of a job: the passes over its words, the end of the run, and the
/// words of the second phase.
pub fn phase_one<
    A,
    I,
    P,
    M: StatementMapper<A, I>,
    K: CommitmentScheme<Fr, G1> + BatchOpeningProver<KZGProof> + OpeningProver<KZGProof>,
    V: CommitmentScheme<Fr, G1> + OpeningProver<P>,
    Q: QaNizkProver,
    KV: OpeningVerifier<KZGProof>,
    VV,
    CS1: CommitmentScheme<Fr, G1>,
    CS2: CommitmentScheme<Fq, Grumpkin>,
>(
    driver: &Driver<M>,
    setup: RunSetup<CS1, CS2>,
    pkey: Option<&BatchProcessorProverParams<K, V, Q>>,
    vkey: Option<&BatchProcessorVerifierParams<KV, VV>>,
    job: &FoldPotJob<I>,
    rands: &ClaimRands,
    inputs: &Vec<SuperInput>,
    comkey: &K,
    qa_pk: &Q,
    qa_vk: &QaNizkVerifierParams,
    r_all_w: &Fr,
) -> (r: Result<(Phase<CS1, CS2, P>, Vec<Vec<Fr>>), Error>)
    requires
        driver.wf::<A, I>(),
        setup.wf(driver.b_full_mode),
        setup.circuits@.len() == driver.n_circ(),
        job.wf(),
        !driver.b_full_mode ==> {
            &&& pkey is Some
            &&& vkey is Some
            &&& pkey->0.poseidon_config@.wf()
            &&& vkey->0.vk_qa_nizk.c@.len() == 4
            &&& job.idx_individual_prf < job.vec_words@.len()
        },
        qa_vk.c@.len() == 3 * setup.circuits@.len() + 1,
    ensures
        match r {
            Ok((p, words)) => {
                &&& driver.pass_all_gives::<A, I, P, K, V, Q, KV, VV, CS1, CS2>(
                    setup,
                    pkey,
                    vkey,
                    job.vec_words@,
                    job.vec_word_info@,
                    *rands,
                    job.idx_individual_prf as int,
                    inputs@,
                    p.pass,
                    p.statements,
                    p.run,
                )
                &&& phase_one_end(p.run, *comkey, *qa_pk, *qa_vk, *r_all_w) == Ok::<
                    ((InstanceSuperView, AllWitnesses), Seq<Seq<Fr>>),
                    ErrorView,
                >((p.end.pair(), rows(words@)))
            },
            Err(e) => {
                ||| driver.pass_all_fails::<A, I, P, K, V, Q, KV, VV, CS1, CS2>(
                    setup,
                    pkey,
                    vkey,
                    job.vec_words@,
                    job.vec_word_info@,
                    *rands,
                    job.idx_individual_prf as int,
                    inputs@,
                    e@,
                )
                ||| exists|one: PassOne, two: PassTwo, res: RunResult<CS1, CS2, P>|
                    #![trigger driver.pass_all_gives::<A, I, P, K, V, Q, KV, VV, CS1, CS2>(setup, pkey, vkey,
                        job.vec_words@, job.vec_word_info@, *rands, job.idx_individual_prf as int, inputs@,
                        one, two, res)]
                    driver.pass_all_gives::<A, I, P, K, V, Q, KV, VV, CS1, CS2>(
                        setup,
                        pkey,
                        vkey,
                        job.vec_words@,
                        job.vec_word_info@,
                        *rands,
                        job.idx_individual_prf as int,
                        inputs@,
                        one,
                        two,
                        res,
                    ) && phase_one_end(res, *comkey, *qa_pk, *qa_vk, *r_all_w) == Err::<
                        ((InstanceSuperView, AllWitnesses), Seq<Seq<Fr>>),
                        ErrorView,
                    >(e@)
            },
        },
{
    let (pass, statements, run) = match driver.pass_all::<A, I, P, K, V, Q, KV, VV, CS1, CS2>(
        setup,
        pkey,
        vkey,
        &job.vec_words,
        &job.vec_word_info,
        rands,
        job.idx_individual_prf,
        inputs,
    ) {
        Err(e) => { return Err(e); },
        Ok(res) => res,
    };
    if run.proofs.is_none() {
        return Err(Error::Other("batch proof is none!".to_owned()));
    }
    let end = match RunEnd::of_run(&run.nova, comkey, qa_pk, r_all_w) {
        Err(e) => { return Err(e); },
        Ok(end) => end,
    };
    match end.u.generate_cyclepair_inputs(
        qa_vk,
        &end.all_w.com_all_w,
        &end.all_w.prf_qa_nizk,
        &run.nova.poseidon_config,
    ) {
        None => Err(Error::Other("a pairing has no value".to_owned())),
        Some(words) => Ok((Phase { pass, statements, run, end }, words)),
    }
}

/// The second phase of a job: the passes over the words of the first phase, which fold
/// pairings, and the end of the run.
pub fn phase_two<
    A,
    I,
    P,
    M: StatementMapper<A, I>,
    K: CommitmentScheme<Fr, G1> + BatchOpeningProver<KZGProof> + OpeningProver<KZGProof>,
    V: CommitmentScheme<Fr, G1> + OpeningProver<P>,
    Q: QaNizkProver,
    KV: OpeningVerifier<KZGProof>,
    VV,
    CS1: CommitmentScheme<Fr, G1>,
    CS2: CommitmentScheme<Fq, Grumpkin>,
>(
    driver: &Driver<M>,
    setup: RunSetup<CS1, CS2>,
    words: &Vec<Vec<Fr>>,
    infos: &Vec<WordInfo<I>>,
    idx: usize,
    inputs: &Vec<SuperInput>,
    comkey: &K,
    qa_pk: &Q,
    r_all_w: &Fr,
) -> (r: Result<Phase<CS1, CS2, P>, Error>)
    requires
        driver.wf::<A, I>(),
        driver.b_full_mode,
        setup.wf(true),
        setup.circuits@.len() == driver.n_circ(),
        words@.len() == infos@.len(),
    ensures
        match r {
            Ok(p) => {
                &&& driver.pass_all_gives::<A, I, P, K, V, Q, KV, VV, CS1, CS2>(
                    setup,
                    None,
                    None,
                    words@,
                    infos@,
                    no_rands(),
                    idx as int,
                    inputs@,
                    p.pass,
                    p.statements,
                    p.run,
                )
                &&& run_end(p.run.nova, *comkey, *qa_pk, *r_all_w) == Ok::<
                    (InstanceSuperView, AllWitnesses),
                    ErrorView,
                >(p.end.pair())
                &&& p.end.u.vec_inst@.len() == setup.circuits@.len()
            },
            Err(e) => {
                ||| driver.pass_all_fails::<A, I, P, K, V, Q, KV, VV, CS1, CS2>(
                    setup,
                    None,
                    None,
                    words@,
                    infos@,
                    no_rands(),
                    idx as int,
                    inputs@,
                    e@,
                )
                ||| exists|one: PassOne, two: PassTwo, res: RunResult<CS1, CS2, P>|
                    #![trigger driver.pass_all_gives::<A, I, P, K, V, Q, KV, VV, CS1, CS2>(setup, None, None,
                        words@, infos@, no_rands(), idx as int, inputs@, one, two, res)]
                    driver.pass_all_gives::<A, I, P, K, V, Q, KV, VV, CS1, CS2>(
                        setup,
                        None,
                        None,
                        words@,
                        infos@,
                        no_rands(),
                        idx as int,
                        inputs@,
                        one,
                        two,
                        res,
                    ) && run_end(res.nova, *comkey, *qa_pk, *r_all_w) == Err::<
                        (InstanceSuperView, AllWitnesses),
                        ErrorView,
                    >(e@)
            },
        },
{
    let zero = Fr::zero();
    let rands = ClaimRands { word: zero, all_words: zero, length: zero, vectors: zero };
    let (pass, statements, run) = match driver.pass_all::<A, I, P, K, V, Q, KV, VV, CS1, CS2>(
        setup,
        None,
        None,
        words,
        infos,
        &rands,
        idx,
        inputs,
    ) {
        Err(e) => { return Err(e); },
        Ok(res) => res,
    };
    match RunEnd::of_run(&run.nova, comkey, qa_pk, r_all_w) {
        Err(e) => Err(e),
        Ok(end) => Ok(Phase { pass, statements, run, end }),
    }
}

/// No claims, so nothing blinds them.
pub open spec fn no_rands() -> ClaimRands {
    ClaimRands { word: f_zero(), all_words: f_zero(), length: f_zero(), vectors: f_zero() }
}

/// The sum of the values that the first run's steps add up.
pub open spec fn kzg_sum(p: PartTwoView) -> Fr {
    f_add(f_add(p.sum_kzg_eval_lk, p.sum_kzg_eval_word), p.sum_kzg_eval_others)
}

/// What the circuits of the decider prove.
#[derive(Debug)]
pub struct CircuitProofs {
    pub snark_proof_main: Vec<u8>,
    pub snark_proof_cp: Vec<u8>,
    /// The digest of what the main circuit gives.
    pub mainres_hash: Fr,
}

/// The public inputs of the CyclePair circuit, from the two runs.
pub open spec fn circuit_input(
    part2: PartTwoView,
    one: AllWitnesses,
    two: (InstanceSuperView, AllWitnesses),
    qa_nizk_vkey_hash: Fr,
    mainres_hash: Fr,
) -> CircPubInput {
    CircPubInput {
        ch1: part2.ch,
        rc1: part2.rc,
        kzg_sum1: kzg_sum(part2),
        kzg_all_com_ch1: one.kzg_all_com_ch,
        eval_w_e1: one.prf_kzg.eval,
        mainres_hash,
        kzg_all_com_ch2: two.1.kzg_all_com_ch,
        eval_w_e2: two.1.prf_kzg.eval,
        qa_nizk_vkey_hash,
        comE2: two.0.insts[0].cm_e,
        comW2: two.0.insts[0].cm_w,
        comF2: two.0.insts[0].cm_f,
    }
}

/// The second part of the batch proof, from the ends of the two runs.
pub open spec fn second_part(
    one: AllWitnesses,
    two: (InstanceSuperView, AllWitnesses),
    circuits: CircuitProofs,
) -> BatchPartTwo {
    BatchPartTwo {
        kzg_all_com1: one.com_all_w,
        kzg_all_com_ch1: one.kzg_all_com_ch,
        kzg_all_com_prf1: one.prf_kzg,
        kzg_all_com2: two.1.com_all_w,
        kzg_all_com_ch2: two.1.kzg_all_com_ch,
        kzg_all_com_prf2: two.1.prf_kzg,
        comE2: two.0.insts[0].cm_e,
        comW2: two.0.insts[0].cm_w,
        comF2: two.0.insts[0].cm_f,
        qa_nizk_prf2: two.1.prf_qa_nizk,
        snark_proof_main: circuits.snark_proof_main,
        snark_proof_cp: circuits.snark_proof_cp,
        mainres_hash: circuits.mainres_hash,
    }
}

impl<CS1: CommitmentScheme<Fr, G1>, CS2: CommitmentScheme<Fq, Grumpkin>, P> Phase<CS1, CS2, P> {
    /// The sum of the values that the run's steps add up.
    pub fn kzg_sum1(&self) -> (r: Fr)
        ensures
            r == kzg_sum(self.run.nova.state@.zi_part2_inst),
    {
        let p = &self.run.nova.state.zi_part2_inst;
        p.sum_kzg_eval_lk.plus(&p.sum_kzg_eval_word).plus(&p.sum_kzg_eval_others)
    }

    /// The public inputs of the CyclePair circuit: this is the first phase, `two` the end
    /// of the second.
    pub fn circuit_input(&self, two: &RunEnd, qa_nizk_vkey_hash: &Fr, mainres_hash: &Fr) -> (r: CircPubInput)
        requires
            two.u.vec_inst@.len() > 0,
        ensures
            r == circuit_input(
                self.run.nova.state@.zi_part2_inst,
                self.end.all_w,
                two.pair(),
                *qa_nizk_vkey_hash,
                *mainres_hash,
            ),
    {
        let u = &two.u.vec_inst[0];
        assert(two.u@.insts[0] == u@);
        CircPubInput {
            ch1: self.run.nova.state.zi_part2_inst.ch,
            rc1: self.run.nova.state.zi_part2_inst.rc,
            kzg_sum1: self.kzg_sum1(),
            kzg_all_com_ch1: self.end.all_w.kzg_all_com_ch,
            eval_w_e1: self.end.all_w.prf_kzg.eval,
            mainres_hash: *mainres_hash,
            kzg_all_com_ch2: two.all_w.kzg_all_com_ch,
            eval_w_e2: two.all_w.prf_kzg.eval,
            qa_nizk_vkey_hash: *qa_nizk_vkey_hash,
            comE2: u.cm_e,
            comW2: u.cm_w,
            comF2: u.cm_f,
        }
    }
}

/// Whether the finished proof of a job holds.
pub open spec fn job_ok<K: OpeningVerifier<KZGProof>, P, V: OpeningVerifier<P>>(
    vkey: BatchProcessorVerifierParams<K, V>,
    keys: PartTwoKeys<K>,
    config: PoseidonConfigView,
    claims: (BatchClaim, IndividualClaim),
    prf: BatchProof,
    ind: IndividualProof<P>,
    kzg_sum1: Option<Fr>,
) -> bool {
    &&& BatchProcessor::part_one_ok(vkey, claims.0, prf, config)
    &&& prf.part2 is Some
    &&& BatchProcessor::part_two_ok(keys, prf, prf.part2->0, kzg_sum1)
    &&& BatchProcessor::individual_ok(vkey, claims.1, prf, ind)
}

/// Puts the proof of a job together and verifies it, with the individual proof. Where the
/// lookup table is not checked as a whole, the verifier takes `kzg_sum1` for the value of
/// the combined polynomial.
pub fn finish_job<K: OpeningVerifier<KZGProof>, P, V: OpeningVerifier<P>>(
    vkey: &BatchProcessorVerifierParams<K, V>,
    keys: &PartTwoKeys<K>,
    poseidon_config: &PoseidonConfig,
    claims: &(BatchClaim, IndividualClaim),
    batch_prf: BatchProof,
    ind_prf: &IndividualProof<P>,
    one: &AllWitnesses,
    two: &RunEnd,
    circuits: CircuitProofs,
    b_check_lkup: bool,
    kzg_sum1: &Fr,
) -> (r: Result<BatchProof, Error>)
    requires
        poseidon_config@.wf(),
        vkey.poseidon_config@.wf(),
        vkey.vk_qa_nizk.c@.len() == 4,
        keys.nova2_qa_nizk_vkey.c@.len() == 4,
        two.u.vec_inst@.len() > 0,
    ensures
        ({
            let full = BatchProof { part2: Some(second_part(*one, two.pair(), circuits)), ..batch_prf };
            let sum = if b_check_lkup {
                None
            } else {
                Some(*kzg_sum1)
            };
            match r {
                Ok(p) => p == full && job_ok(*vkey, *keys, poseidon_config@, *claims, full, *ind_prf, sum),
                Err(e) => !job_ok(*vkey, *keys, poseidon_config@, *claims, full, *ind_prf, sum) && e@
                    == ErrorView::SNARKVerificationFail,
            }
        }),
{
    let u = &two.u.vec_inst[0];
    assert(two.u@.insts[0] == u@);
    let mut prf = batch_prf;
    prf.add_part2(
        BatchPartTwo {
            kzg_all_com1: one.com_all_w,
            kzg_all_com_ch1: one.kzg_all_com_ch,
            kzg_all_com_prf1: one.prf_kzg,
            kzg_all_com2: two.all_w.com_all_w,
            kzg_all_com_ch2: two.all_w.kzg_all_com_ch,
            kzg_all_com_prf2: two.all_w.prf_kzg,
            comE2: u.cm_e,
            comW2: u.cm_w,
            comF2: u.cm_f,
            qa_nizk_prf2: two.all_w.prf_qa_nizk,
            snark_proof_main: circuits.snark_proof_main,
            snark_proof_cp: circuits.snark_proof_cp,
            mainres_hash: circuits.mainres_hash,
        },
    );
    let opt_kzg_sum1 = if b_check_lkup {
        None
    } else {
        Some(*kzg_sum1)
    };
    if !BatchProcessor::verify_batch(vkey, Some(keys), &claims.0, &prf, poseidon_config, &opt_kzg_sum1) {
        return Err(Error::SNARKVerificationFail);
    }
    if !BatchProcessor::verify_individual(vkey, claims.1.i, &claims.1, &prf, ind_prf) {
        return Err(Error::SNARKVerificationFail);
    }
    Ok(prf)
}

/// The public inputs that the CyclePair circuit is proved for are those that the verifier
/// of the job's proof takes, where the run kept the proof's challenges, and, where the
/// lookup table is checked as a whole, its sum is the value of the combined polynomial.
pub proof fn law_circuit_input_agrees<K>(
    keys: PartTwoKeys<K>,
    part2: PartTwoView,
    one: AllWitnesses,
    two: (InstanceSuperView, AllWitnesses),
    circuits: CircuitProofs,
    prf: BatchProof,
    b_check_lkup: bool,
)
    requires
        prf.part2 == Some(second_part(one, two, circuits)),
        (part2.ch, part2.rc) == (prf.ch, prf.rc),
        b_check_lkup ==> prf.agg_kzg_prf.eval == kzg_sum(part2),
    ensures
        BatchProcessor::cp_input(
            prf,
            prf.part2->0,
            keys,
            if b_check_lkup {
                None
            } else {
                Some(kzg_sum(part2))
            },
        ) == circuit_input(part2, one, two, keys.nova1_qa_nizk_vkey_hash, circuits.mainres_hash),
{
}

} // verus!
