//! The passes over the words: the first claims and plans, the second builds the
//! statements and chains their fixed memories, the third proves.
use vstd::prelude::*;
use crate::batch_proc::advice_fits;
use crate::batch_proc::batch_challenges;
use crate::batch_proc::batch_proved;
use crate::batch_proc::claim_spec;
use crate::batch_proc::combined_polys;
use crate::batch_proc::individual_openings;
use crate::batch_proc::word_com;
use crate::batch_proc::BatchClaim;
use crate::batch_proc::BatchProcessor;
use crate::batch_proc::BatchProcessorProverParams;
use crate::batch_proc::BatchProcessorVerifierParams;
use crate::batch_proc::BatchProof;
use crate::batch_proc::ClaimRands;
use crate::batch_proc::IndividualClaim;
use crate::batch_proc::IndividualProof;
use crate::batch_proc::QaNizkProver;
use crate::batch_proc::SnarkAdvice;
use crate::batch_proc::SnarkRandInput;
use crate::capacity_planner::WordInfo;
use crate::commitment::BatchOpeningProver;
use crate::commitment::CommitmentScheme;
use crate::commitment::KZGProof;
use crate::commitment::OpeningProver;
use crate::commitment::OpeningVerifier;
use crate::curve::Grumpkin;
use crate::curve::G1;
use crate::driver::chain_cm_f;
use crate::driver::cm_f_chain;
use crate::driver::covered;
use crate::driver::lemma_covered_grows;
use crate::driver::law_planned_steps_are_chained;
use crate::driver::run;
use crate::driver::Driver;
use crate::driver::RunResult;
use crate::driver::RunSetup;
use crate::error::Error;
use crate::error::ErrorView;
use crate::field::f_zero;
use crate::field::Field;
use crate::field_fq::Fq;
use crate::field_fr::Fr;
use crate::foldpot_super::FoldPotSuper;
use crate::foldpot_super::SuperInput;
use crate::limbs::absorb_g1;
use crate::limbs::g1_absorbed;
use crate::part_two::CYCLEPAIR_INPUT_LEN;
use crate::sponge::PoseidonConfigView;
use crate::statement::StatementExtraInfo;
use crate::statements::count_places;
use crate::statements::law_each_step_has_a_statement;
use crate::statements::multiplicities;
use crate::statements::StatementMapper;
use crate::vecs::repeated;
use crate::vecs::rows;
use crate::vecs::same_elements;

verus! {

/// What the first pass gives.
#[derive(Debug)]
pub struct PassOne {
    /// The steps and their circuits.
    pub steps: Vec<StatementExtraInfo>,
    pub pcs: Vec<usize>,
    /// The claim on all words and the one that is proved, where pairings are not folded.
    pub claims: Option<(BatchClaim, IndividualClaim)>,
    /// The advice for the steps: zeros where pairings are folded.
    pub adv: SnarkAdvice,
    /// The places of the lookup table that the steps' statements look up.
    pub looked: Vec<usize>,
}

/// What the second pass gives.
#[derive(Debug)]
pub struct PassTwo {
    /// Where each step's share of the lookup table begins.
    pub starts: Vec<usize>,
    /// The steps' statements, with their shares of the lookup table.
    pub statements: Vec<Vec<Fr>>,
    /// The commitments to the steps' fixed memories.
    pub cm_fs: Vec<G1>,
    /// The last link of their hash chain.
    pub hash_cm_f: Fr,
}

/// Whether all commitments of the claims succeed.
pub open spec fn claimable<K: CommitmentScheme<Fr, G1>>(
    kzg: K,
    words: Seq<Vec<Fr>>,
    lk1: Seq<Fr>,
    lk2: Seq<Fr>,
    rands: ClaimRands,
) -> bool {
    &&& claim_spec(kzg, rows(words), lk1, lk2, rands) is Some
    &&& forall|i: int| 0 <= i < words.len() ==> (#[trigger] word_com(kzg, words[i]@, rands.word)) is Some
}

/// Whether the advice is made of zeros.
pub open spec fn advice_empty(adv: SnarkAdvice, n: nat) -> bool {
    &&& adv.rands@ == repeated(f_zero::<Fr>(), n)
    &&& adv.vec_v@ == repeated(f_zero::<Fr>(), n)
    &&& adv.vec_r@ == repeated(f_zero::<Fr>(), n)
    &&& adv.r_all_words == f_zero::<Fr>()
    &&& adv.r_kzg_len == f_zero::<Fr>()
    &&& adv.r_vec_r == f_zero::<Fr>()
    &&& adv.r_vec_r_kzg == f_zero::<Fr>()
    &&& adv.r_vec_v == f_zero::<Fr>()
    &&& adv.r_vec_v_kzg == f_zero::<Fr>()
}

/// The advice and the individual claims that belong to words with their claim.
pub open spec fn claims_made<K: CommitmentScheme<Fr, G1>>(
    kzg: K,
    config: PoseidonConfigView,
    words: Seq<Vec<Fr>>,
    lk1: Seq<Fr>,
    lk2: Seq<Fr>,
    rands: ClaimRands,
    idx: int,
    claims: (BatchClaim, IndividualClaim),
    adv: SnarkAdvice,
) -> bool {
    &&& Some(claims.0) == claim_spec(kzg, rows(words), lk1, lk2, rands)
    &&& claims.1 == word_claim(kzg, words, claims.0, rands, idx)
    &&& advice_fits(
        config,
        rows(words),
        Seq::new(words.len(), |i: int| word_claim(kzg, words, claims.0, rands, i)),
        adv,
        rands,
    )
}

/// The claim on the `i`-th word.
pub open spec fn word_claim<K: CommitmentScheme<Fr, G1>>(
    kzg: K,
    words: Seq<Vec<Fr>>,
    claim: BatchClaim,
    rands: ClaimRands,
    i: int,
) -> IndividualClaim {
    IndividualClaim {
        i: i as usize,
        kzg_word: word_com(kzg, words[i]@, rands.word)->0,
        batch_claim: claim,
    }
}

impl<M> Driver<M> {
    /// Whether all commitments of the claims succeed, where claims are made.
    pub open spec fn claims_ok<K: CommitmentScheme<Fr, G1>, V, Q>(
        &self,
        batch_pk: Option<&BatchProcessorProverParams<K, V, Q>>,
        words: Seq<Vec<Fr>>,
        rands: ClaimRands,
    ) -> bool {
        self.b_full_mode || claimable(batch_pk->0.kzg, words, self.lk_col1@, self.lk_col2@, rands)
    }

    /// Whether the first pass gives `p`.
    pub open spec fn pass_one_gives<A, I, K: CommitmentScheme<Fr, G1>, V, Q>(
        &self,
        batch_pk: Option<&BatchProcessorProverParams<K, V, Q>>,
        words: Seq<Vec<Fr>>,
        infos: Seq<WordInfo<I>>,
        rands: ClaimRands,
        idx: int,
        p: PassOne,
    ) -> bool where M: StatementMapper<A, I> {
        &&& self.claims_ok(batch_pk, words, rands)
        &&& self.pcs::<A, I>(rows(words), infos, words.len()) == Ok::<Seq<usize>, ErrorView>(p.pcs@)
        &&& p.steps@ == self.steps::<A, I>(rows(words), infos, p.adv, words.len())
        &&& self.table_covered(p.pcs@)
        &&& self.advice_made(batch_pk, words, rands, idx, p.claims, p.adv)
        &&& self.statements::<A, I>(rows(words), infos, p.steps@, None, words.len()) matches Ok(built)
            && p.looked@ == self.looked_up::<A, I>(p.pcs@, built, p.pcs@.len())
    }

    /// The claims and the advice that belong to the words: no claims and zeros where
    /// pairings are folded.
    pub open spec fn advice_made<K: CommitmentScheme<Fr, G1>, V, Q>(
        &self,
        batch_pk: Option<&BatchProcessorProverParams<K, V, Q>>,
        words: Seq<Vec<Fr>>,
        rands: ClaimRands,
        idx: int,
        claims: Option<(BatchClaim, IndividualClaim)>,
        adv: SnarkAdvice,
    ) -> bool {
        &&& claims is None <==> self.b_full_mode
        &&& self.b_full_mode ==> advice_empty(adv, words.len())
        &&& !self.b_full_mode ==> claims_made(
            batch_pk->0.kzg,
            batch_pk->0.poseidon_config@,
            words,
            self.lk_col1@,
            self.lk_col2@,
            rands,
            idx,
            claims->0,
            adv,
        )
    }

    /// Whether the first pass fails with the error `e`.
    pub open spec fn pass_one_fails<A, I, K: CommitmentScheme<Fr, G1>, V, Q>(
        &self,
        batch_pk: Option<&BatchProcessorProverParams<K, V, Q>>,
        words: Seq<Vec<Fr>>,
        infos: Seq<WordInfo<I>>,
        rands: ClaimRands,
        idx: int,
        e: ErrorView,
    ) -> bool where M: StatementMapper<A, I> {
        let pcs = self.pcs::<A, I>(rows(words), infos, words.len());
        if !self.claims_ok(batch_pk, words, rands) {
            e == ErrorView::CommitmentFail
        } else if pcs is Err {
            pcs == Err::<Seq<usize>, ErrorView>(e)
        } else if !self.table_covered(pcs->Ok_0) {
            e == ErrorView::Other("the lookup table is not covered"@)
        } else {
            exists|claims: Option<(BatchClaim, IndividualClaim)>, adv: SnarkAdvice| #[trigger]
                self.advice_made(batch_pk, words, rands, idx, claims, adv) && self.statements::<A, I>(
                    rows(words),
                    infos,
                    self.steps::<A, I>(rows(words), infos, adv, words.len()),
                    None,
                    words.len(),
                ) == Err::<Seq<Seq<Fr>>, ErrorView>(e)
        }
    }
}

impl<M> Driver<M> {
    /// The first pass: makes the claims on the words, where pairings are not folded,
    /// plans the steps, and builds their statements to see what they look up. Fails where
    /// a commitment fails, where no circuit can handle a word, where the steps do not
    /// take the lookup table that they have to take, or where a statement cannot be
    /// built.
    pub fn pass_one<A, I, K: CommitmentScheme<Fr, G1>, V, Q>(
        &self,
        batch_pk: Option<&BatchProcessorProverParams<K, V, Q>>,
        words: &Vec<Vec<Fr>>,
        infos: &Vec<WordInfo<I>>,
        rands: &ClaimRands,
        idx_ind_proof: usize,
    ) -> (r: Result<PassOne, Error>) where M: StatementMapper<A, I>
        requires
            self.wf::<A, I>(),
            words@.len() == infos@.len(),
            !self.b_full_mode ==> {
                &&& batch_pk is Some
                &&& batch_pk->0.poseidon_config@.wf()
                &&& idx_ind_proof < words@.len()
            },
        ensures
            match r {
                Ok(p) => self.pass_one_gives::<A, I, K, V, Q>(batch_pk, words@, infos@, *rands, idx_ind_proof as int, p),
                Err(e) => self.pass_one_fails::<A, I, K, V, Q>(
                    batch_pk,
                    words@,
                    infos@,
                    *rands,
                    idx_ind_proof as int,
                    e@,
                ),
            },
    {
        let (claims, adv) = if self.b_full_mode {
            (None, SnarkAdvice::empty(words))
        } else {
            match batch_pk {
                None => { return Err(Error::CommitmentFail); },
                Some(pk) => match BatchProcessor::gen_claims(pk, words, &self.lk_col1, &self.lk_col2, rands) {
                    Err(e) => { return Err(e); },
                    Ok((claim, claims, adv)) => {
                        proof {
                            assert(claims@ =~= Seq::new(
                                words@.len(),
                                |i: int| word_claim(pk.kzg, words@, claim, *rands, i),
                            ));
                        }
                        (Some((claim, claims[idx_ind_proof])), adv)
                    },
                },
            }
        };
        let (steps, pcs) = match self.plan_steps(words, infos, &adv) {
            Err(e) => { return Err(e); },
            Ok(p) => p,
        };
        proof {
            law_planned_steps_are_chained::<A, I, M>(*self, rows(words@), infos@, adv, words@.len());
            assert forall|k: int| 0 <= k < pcs@.len() implies (#[trigger] pcs@[k]) < self.lk_share@.len() by {
                assert(steps@[k].pc_i1 == crate::batch_proc::low32(pcs@[k] as nat));
            }
        }
        if !self.check_covered(&pcs) {
            return Err(Error::Other("the lookup table is not covered".to_owned()));
        }
        assert(self.advice_made(batch_pk, words@, *rands, idx_ind_proof as int, claims, adv));
        let built = match self.build_statements(words, infos, &steps, &pcs, None) {
            Err(e) => { return Err(e); },
            Ok(v) => v,
        };
        proof {
            law_each_step_has_a_statement::<A, I, M>(*self, rows(words@), infos@, steps@, None, words@.len());
        }
        let looked = self.list_looked_up(&pcs, &built);
        Ok(PassOne { steps, pcs, claims, adv, looked })
    }

    /// Where each step's share of the lookup table begins.
    pub open spec fn starts(&self, pcs: Seq<usize>) -> Seq<usize> {
        Seq::new(pcs.len(), |k: int| covered(self.lk_share@, pcs, k as nat) as usize)
    }

    /// The steps' statements with their shares of the lookup table, where each place has
    /// the number of times that the first pass saw it looked up.
    pub open spec fn shared_statements<A, I>(
        &self,
        words: Seq<Vec<Fr>>,
        infos: Seq<WordInfo<I>>,
        one: PassOne,
    ) -> Result<Seq<Seq<Fr>>, ErrorView> where M: StatementMapper<A, I> {
        let end = covered(self.lk_share@, one.pcs@, one.pcs@.len());
        self.statements::<A, I>(
            rows(words),
            infos,
            one.steps@,
            Some((self.starts(one.pcs@), multiplicities(one.looked@, end))),
            words.len(),
        )
    }

    /// Whether the second pass gives `p`.
    pub open spec fn pass_two_gives<A, I>(
        &self,
        words: Seq<Vec<Fr>>,
        infos: Seq<WordInfo<I>>,
        one: PassOne,
        p: PassTwo,
    ) -> bool where M: StatementMapper<A, I> {
        &&& covered(self.lk_share@, one.pcs@, one.pcs@.len()) <= usize::MAX
        &&& p.starts@ == self.starts(one.pcs@)
        &&& self.shared_statements::<A, I>(words, infos, one) == Ok::<Seq<Seq<Fr>>, ErrorView>(rows(p.statements@))
        &&& p.statements@.len() == one.pcs@.len()
        &&& self.memories::<A, I>(one.pcs@, rows(p.statements@), one.pcs@.len()) == Ok::<Seq<G1>, ErrorView>(p.cm_fs@)
        &&& p.cm_fs@.len() == one.pcs@.len()
        &&& p.hash_cm_f == cm_f_chain(self.poseidon_config@, p.cm_fs@)
    }

    /// Whether the second pass fails with the error `e`: the shares go beyond the
    /// machine's integers, a statement cannot be built, or a step has no fixed memory.
    pub open spec fn pass_two_fails<A, I>(
        &self,
        words: Seq<Vec<Fr>>,
        infos: Seq<WordInfo<I>>,
        one: PassOne,
        e: ErrorView,
    ) -> bool where M: StatementMapper<A, I> {
        if covered(self.lk_share@, one.pcs@, one.pcs@.len()) > usize::MAX {
            e == ErrorView::OutOfBounds
        } else {
            match self.shared_statements::<A, I>(words, infos, one) {
                Err(x) => e == x,
                Ok(stmts) => self.memories::<A, I>(one.pcs@, stmts, one.pcs@.len()) == Err::<Seq<G1>, ErrorView>(e),
            }
        }
    }

    /// The second pass: builds the statements again, with their shares of the lookup
    /// table, and chains the commitments to the fixed memories of their steps.
    pub fn pass_two<A, I>(&self, words: &Vec<Vec<Fr>>, infos: &Vec<WordInfo<I>>, one: &PassOne) -> (r: Result<
        PassTwo,
        Error,
    >) where M: StatementMapper<A, I>
        requires
            self.wf::<A, I>(),
            words@.len() == infos@.len(),
            self.pcs::<A, I>(rows(words@), infos@, words@.len()) == Ok::<Seq<usize>, ErrorView>(one.pcs@),
            one.steps@.len() == one.pcs@.len(),
        ensures
            match r {
                Ok(p) => self.pass_two_gives::<A, I>(words@, infos@, *one, p),
                Err(e) => self.pass_two_fails::<A, I>(words@, infos@, *one, e@),
            },
    {
        proof {
            law_planned_steps_are_chained::<A, I, M>(*self, rows(words@), infos@, one.adv, words@.len());
            let steps = self.steps::<A, I>(rows(words@), infos@, one.adv, words@.len());
            assert forall|k: int| 0 <= k < one.pcs@.len() implies (#[trigger] one.pcs@[k]) < self.n_circ() by {
                assert(steps[k].pc_i1 == crate::batch_proc::low32(one.pcs@[k] as nat));
            }
        }
        if !self.check_shares(&one.pcs) {
            return Err(Error::OutOfBounds);
        }
        let (starts, end) = self.lookup_starts(&one.pcs);
        let counts = count_places(&one.looked, end);
        proof {
            assert forall|k: int| 0 <= k < one.pcs@.len() implies (#[trigger] starts@[k])
                + self.lk_share@[one.pcs@[k] as int] <= counts@.len() by {
                lemma_covered_grows(self.lk_share@, one.pcs@, (k + 1) as nat, one.pcs@.len());
                lemma_covered_grows(self.lk_share@, one.pcs@, k as nat, one.pcs@.len());
            }
        }
        let statements = match self.build_statements(words, infos, &one.steps, &one.pcs, Some((&starts, &counts))) {
            Err(e) => { return Err(e); },
            Ok(v) => v,
        };
        proof {
            law_each_step_has_a_statement::<A, I, M>(
                *self,
                rows(words@),
                infos@,
                one.steps@,
                Some((starts@, counts@)),
                words@.len(),
            );
        }
        let cm_fs = match self.gen_memories(&one.pcs, &statements) {
            Err(e) => { return Err(e); },
            Ok(v) => v,
        };
        let hash_cm_f = chain_cm_f(&self.poseidon_config, &cm_fs);
        Ok(PassTwo { starts, statements, cm_fs, hash_cm_f })
    }
}

impl<M> Driver<M> {
    /// Whether proving the claims fails with the error `e`: a commitment fails, the
    /// combined polynomial is not proved, the proof does not hold, or one of the two
    /// openings of the individual claim is not proved.
    pub open spec fn claims_fail<
        P,
        K: CommitmentScheme<Fr, G1> + BatchOpeningProver<KZGProof> + OpeningProver<KZGProof>,
        V: CommitmentScheme<Fr, G1> + OpeningProver<P>,
        Q: QaNizkProver,
        KV: OpeningVerifier<KZGProof>,
        VV,
    >(
        &self,
        pkey: BatchProcessorProverParams<K, V, Q>,
        vkey: BatchProcessorVerifierParams<KV, VV>,
        words: Seq<Vec<Fr>>,
        claims: (BatchClaim, IndividualClaim),
        adv: SnarkAdvice,
        hash_cm_f: Fr,
        e: ErrorView,
    ) -> bool {
        let coms = BatchProcessor::vector_coms(pkey.kzg, pkey.vec, adv);
        let (ch, rc) = batch_challenges(self.poseidon_config@, claims.0, hash_cm_f, (coms->0).2, (coms->0).3);
        let agg = pkey.kzg.batch_prove_spec(
            ch,
            combined_polys(rows(words), self.lk_col1@, self.lk_col2@, adv),
            rc,
        );
        let (entry, word) = individual_openings::<K, P, V, Q>(pkey, adv, words, claims.1.i as int);
        if coms is None {
            e == ErrorView::CommitmentFail
        } else if agg is Err {
            agg == Err::<KZGProof, ErrorView>(e)
        } else {
            ||| e == ErrorView::NotSatisfied && exists|prf: BatchProof| #[trigger]
                batch_proved(
                    pkey,
                    self.poseidon_config@,
                    claims.0,
                    adv,
                    rows(words),
                    self.lk_col1@,
                    self.lk_col2@,
                    hash_cm_f,
                    prf,
                ) && !BatchProcessor::part_one_ok(vkey, claims.0, prf, self.poseidon_config@)
            ||| entry == Err::<P, ErrorView>(e)
            ||| entry is Ok && word == Err::<KZGProof, ErrorView>(e)
        }
    }

    /// Whether the steps, from the state that belongs to the challenges, fail with the
    /// error `e`.
    pub open spec fn run_fails<CS1: CommitmentScheme<Fr, G1>, CS2: CommitmentScheme<Fq, Grumpkin>>(
        &self,
        setup: RunSetup<CS1, CS2>,
        hash_cm_f: Fr,
        ch: Fr,
        rc: Fr,
        n_words: nat,
        pcs: Seq<usize>,
        inputs: Seq<SuperInput>,
        e: ErrorView,
    ) -> bool {
        let st = self.first_state(setup, hash_cm_f, ch, rc, n_words);
        exists|f: FoldPotSuper<CS1, CS2>| #[trigger]
            self.started(setup, self.z_0(hash_cm_f, ch, rc, n_words), f) && run(f, st, pcs, inputs, pcs.len()).1
                == Err::<(), ErrorView>(e)
    }
}

impl<M> Driver<M> {
    /// Proves the claim on all words, checks that proof, and proves the individual claim.
    pub fn prove_claims<
        P,
        K: CommitmentScheme<Fr, G1> + BatchOpeningProver<KZGProof> + OpeningProver<KZGProof>,
        V: CommitmentScheme<Fr, G1> + OpeningProver<P>,
        Q: QaNizkProver,
        KV: OpeningVerifier<KZGProof>,
        VV,
    >(
        &self,
        pkey: &BatchProcessorProverParams<K, V, Q>,
        vkey: &BatchProcessorVerifierParams<KV, VV>,
        words: &Vec<Vec<Fr>>,
        claims: &(BatchClaim, IndividualClaim),
        adv: &SnarkAdvice,
        hash_cm_f: &Fr,
    ) -> (r: Result<(BatchProof, IndividualProof<P>), Error>)
        requires
            self.poseidon_config@.wf(),
            pkey.poseidon_config@.wf(),
            vkey.vk_qa_nizk.c@.len() == 4,
            claims.1.i < words@.len(),
            adv.vec_r@.len() == words@.len(),
            adv.vec_v@.len() == words@.len(),
            adv.rands@.len() == words@.len(),
        ensures
            match r {
                Ok((prf, ind)) => {
                    let openings = individual_openings::<K, P, V, Q>(*pkey, *adv, words@, claims.1.i as int);
                    &&& batch_proved(
                        *pkey,
                        self.poseidon_config@,
                        claims.0,
                        *adv,
                        rows(words@),
                        self.lk_col1@,
                        self.lk_col2@,
                        *hash_cm_f,
                        prf,
                    )
                    &&& BatchProcessor::part_one_ok(*vkey, claims.0, prf, self.poseidon_config@)
                    &&& openings == (Ok::<P, ErrorView>(ind.vcom_prf), Ok::<KZGProof, ErrorView>(ind.kzg_prf))
                    &&& ind.v_i == adv.vec_v@[claims.1.i as int]
                },
                Err(e) => self.claims_fail::<P, K, V, Q, KV, VV>(*pkey, *vkey, words@, *claims, *adv, *hash_cm_f, e@),
            },
    {
        let rand_inp = SnarkRandInput {
            kzg_all_words: claims.0.kzg_all_words,
            kzg_length: claims.0.kzg_length,
            kzg_lk_col1: claims.0.kzg_lk_col1,
            kzg_lk_col2: claims.0.kzg_lk_col2,
            hash_cmF: *hash_cm_f,
            kzg_vec_r: G1::Infinity,
            kzg_vec_v: G1::Infinity,
            poseidon_config: self.poseidon_config.clone(),
        };
        assert(rand_inp.claim() == claims.0);
        let (prf, _rand_inp2) = match BatchProcessor::prove_batch(
            pkey,
            adv,
            words,
            &self.lk_col1,
            &self.lk_col2,
            &rand_inp,
        ) {
            Err(e) => { return Err(e); },
            Ok(p) => p,
        };
        assert(batch_proved(
            *pkey,
            self.poseidon_config@,
            claims.0,
            *adv,
            rows(words@),
            self.lk_col1@,
            self.lk_col2@,
            *hash_cm_f,
            prf,
        ));
        if !BatchProcessor::verify_batch(vkey, None, &claims.0, &prf, &self.poseidon_config, &None) {
            return Err(Error::NotSatisfied);
        }
        match BatchProcessor::prove_individual(pkey, adv, words, &claims.1, claims.1.i) {
            Err(e) => Err(e),
            Ok(ind) => Ok((prf, ind)),
        }
    }

    /// Whether the third pass gives `res`.
    pub open spec fn pass_three_gives<
        P,
        K: CommitmentScheme<Fr, G1> + BatchOpeningProver<KZGProof> + OpeningProver<KZGProof>,
        V: CommitmentScheme<Fr, G1> + OpeningProver<P>,
        Q: QaNizkProver,
        KV: OpeningVerifier<KZGProof>,
        VV,
        CS1: CommitmentScheme<Fr, G1>,
        CS2: CommitmentScheme<Fq, Grumpkin>,
    >(
        &self,
        setup: RunSetup<CS1, CS2>,
        pkey: Option<&BatchProcessorProverParams<K, V, Q>>,
        vkey: Option<&BatchProcessorVerifierParams<KV, VV>>,
        words: Seq<Vec<Fr>>,
        one: PassOne,
        hash_cm_f: Fr,
        inputs: Seq<SuperInput>,
        res: RunResult<CS1, CS2, P>,
    ) -> bool {
        let (ch, rc) = if self.b_full_mode {
            (f_zero::<Fr>(), f_zero::<Fr>())
        } else {
            ((res.proofs->0).0.ch, (res.proofs->0).0.rc)
        };
        let st = self.first_state(setup, hash_cm_f, ch, rc, words.len());
        &&& res.proofs is None <==> self.b_full_mode
        &&& !self.b_full_mode ==> {
            let (prf, ind) = res.proofs->0;
            let openings = individual_openings::<K, P, V, Q>(
                *pkey->0,
                one.adv,
                words,
                (one.claims->0).1.i as int,
            );
            &&& batch_proved(
                *pkey->0,
                self.poseidon_config@,
                (one.claims->0).0,
                one.adv,
                rows(words),
                self.lk_col1@,
                self.lk_col2@,
                hash_cm_f,
                prf,
            )
            &&& BatchProcessor::part_one_ok(*vkey->0, (one.claims->0).0, prf, self.poseidon_config@)
            &&& openings == (Ok::<P, ErrorView>(ind.vcom_prf), Ok::<KZGProof, ErrorView>(ind.kzg_prf))
        }
        &&& res.num_steps == inputs.len()
        &&& self.started(setup, self.z_0(hash_cm_f, ch, rc, words.len()), res.nova)
        &&& res.nova.wf()
        &&& run(res.nova, st, one.pcs@, inputs, one.pcs@.len()) == (res.nova.state@, Ok::<
            (),
            ErrorView,
        >(()))
    }

    /// Whether the third pass fails with the error `e`.
    pub open spec fn pass_three_fails<
        P,
        K: CommitmentScheme<Fr, G1> + BatchOpeningProver<KZGProof> + OpeningProver<KZGProof>,
        V: CommitmentScheme<Fr, G1> + OpeningProver<P>,
        Q: QaNizkProver,
        KV: OpeningVerifier<KZGProof>,
        VV,
        CS1: CommitmentScheme<Fr, G1>,
        CS2: CommitmentScheme<Fq, Grumpkin>,
    >(
        &self,
        setup: RunSetup<CS1, CS2>,
        pkey: Option<&BatchProcessorProverParams<K, V, Q>>,
        vkey: Option<&BatchProcessorVerifierParams<KV, VV>>,
        words: Seq<Vec<Fr>>,
        one: PassOne,
        hash_cm_f: Fr,
        inputs: Seq<SuperInput>,
        e: ErrorView,
    ) -> bool {
        if self.b_full_mode {
            self.run_fails(
                setup,
                hash_cm_f,
                f_zero::<Fr>(),
                f_zero::<Fr>(),
                words.len(),
                one.pcs@,
                inputs,
                e,
            )
        } else {
            ||| self.claims_fail::<P, K, V, Q, KV, VV>(
                *pkey->0,
                *vkey->0,
                words,
                one.claims->0,
                one.adv,
                hash_cm_f,
                e,
            )
            ||| exists|prf: BatchProof| #[trigger]
                batch_proved(
                    *pkey->0,
                    self.poseidon_config@,
                    (one.claims->0).0,
                    one.adv,
                    rows(words),
                    self.lk_col1@,
                    self.lk_col2@,
                    hash_cm_f,
                    prf,
                ) && self.run_fails(
                    setup,
                    hash_cm_f,
                    prf.ch,
                    prf.rc,
                    words.len(),
                    one.pcs@,
                    inputs,
                    e,
                )
        }
    }

    /// The third pass: proves the claims, where pairings are not folded, draws the
    /// challenge from that proof, and proves the steps.
    pub fn pass_three<
        P,
        K: CommitmentScheme<Fr, G1> + BatchOpeningProver<KZGProof> + OpeningProver<KZGProof>,
        V: CommitmentScheme<Fr, G1> + OpeningProver<P>,
        Q: QaNizkProver,
        KV: OpeningVerifier<KZGProof>,
        VV,
        CS1: CommitmentScheme<Fr, G1>,
        CS2: CommitmentScheme<Fq, Grumpkin>,
    >(
        &self,
        setup: RunSetup<CS1, CS2>,
        pkey: Option<&BatchProcessorProverParams<K, V, Q>>,
        vkey: Option<&BatchProcessorVerifierParams<KV, VV>>,
        words: &Vec<Vec<Fr>>,
        one: &PassOne,
        hash_cm_f: &Fr,
        inputs: &Vec<SuperInput>,
    ) -> (r: Result<RunResult<CS1, CS2, P>, Error>)
        requires
            self.poseidon_config@.wf(),
            setup.wf(self.b_full_mode),
            one.pcs@.len() == inputs@.len(),
            forall|k: int|
                0 <= k < one.pcs@.len() ==> (#[trigger] one.pcs@[k]) < setup.circuits@.len() && setup.takes(
                    self.b_full_mode,
                    one.pcs@[k] as int,
                    inputs@[k]@,
                ),
            !self.b_full_mode ==> {
                &&& pkey is Some
                &&& vkey is Some
                &&& one.claims is Some
                &&& pkey->0.poseidon_config@.wf()
                &&& vkey->0.vk_qa_nizk.c@.len() == 4
                &&& (one.claims->0).1.i < words@.len()
                &&& one.adv.vec_r@.len() == words@.len()
                &&& one.adv.vec_v@.len() == words@.len()
                &&& one.adv.rands@.len() == words@.len()
            },
        ensures
            match r {
                Ok(res) => self.pass_three_gives(setup, pkey, vkey, words@, *one, *hash_cm_f, inputs@, res),
                Err(e) => self.pass_three_fails::<P, K, V, Q, KV, VV, CS1, CS2>(
                    setup,
                    pkey,
                    vkey,
                    words@,
                    *one,
                    *hash_cm_f,
                    inputs@,
                    e@,
                ),
            },
    {
        let zero = Fr::zero();
        let proofs = if self.b_full_mode {
            None
        } else {
            match (pkey, vkey, &one.claims) {
                (Some(pk), Some(vk), Some(claims)) => match self.prove_claims(
                    pk,
                    vk,
                    words,
                    claims,
                    &one.adv,
                    hash_cm_f,
                ) {
                    Err(e) => { return Err(e); },
                    Ok(p) => Some(p),
                },
                _ => { return Err(Error::CommitmentFail); },
            }
        };
        let (ch, rc) = match &proofs {
            None => (zero, zero),
            Some(p) => (p.0.ch, p.0.rc),
        };
        let num_steps = inputs.len();
        match self.prove_steps(setup, words.len(), hash_cm_f, &ch, &rc, &one.pcs, inputs) {
            Err(e) => Err(e),
            Ok(nova) => Ok(RunResult { nova, num_steps, proofs }),
        }
    }
}

/// Whether each step has an input of the sizes for its circuit.
pub open spec fn inputs_fit<CS1: CommitmentScheme<Fr, G1>, CS2: CommitmentScheme<Fq, Grumpkin>>(
    setup: RunSetup<CS1, CS2>,
    full: bool,
    pcs: Seq<usize>,
    inputs: Seq<SuperInput>,
) -> bool {
    &&& inputs.len() == pcs.len()
    &&& forall|k: int| 0 <= k < pcs.len() ==> setup.takes(full, (#[trigger] pcs[k]) as int, inputs[k]@)
}

/// Whether the steps' inputs hold the fixed memory commitments.
pub open spec fn memories_match(cm_fs: Seq<G1>, inputs: Seq<SuperInput>) -> bool {
    forall|k: int| 0 <= k < inputs.len() ==> (#[trigger] inputs[k])@.cm_f == g1_absorbed(cm_fs[k])
}

/// Checks that the steps' inputs hold the fixed memory commitments.
fn check_memories(cm_fs: &Vec<G1>, inputs: &Vec<SuperInput>) -> (b: bool)
    requires
        cm_fs@.len() == inputs@.len(),
    ensures
        b == memories_match(cm_fs@, inputs@),
{
    let mut k: usize = 0;
    while k < inputs.len()
        invariant
            k <= inputs@.len(),
            cm_fs@.len() == inputs@.len(),
            forall|j: int| 0 <= j < k ==> (#[trigger] inputs@[j])@.cm_f == g1_absorbed(cm_fs@[j]),
        decreases inputs.len() - k,
    {
        let expected = absorb_g1(&cm_fs[k]);
        if !same_elements(&inputs[k].cm_f, &expected) {
            assert(inputs@[k as int]@.cm_f != g1_absorbed(cm_fs@[k as int]));
            return false;
        }
        k = k + 1;
    }
    true
}

/// Whether the steps' external inputs are the statements.
pub open spec fn statements_match(stmts: Seq<Seq<Fr>>, inputs: Seq<SuperInput>) -> bool {
    forall|k: int| 0 <= k < inputs.len() ==> (#[trigger] inputs[k])@.external_inputs == stmts[k]
}

/// Checks that the steps' external inputs are the statements.
fn check_statements(stmts: &Vec<Vec<Fr>>, inputs: &Vec<SuperInput>) -> (b: bool)
    requires
        stmts@.len() == inputs@.len(),
    ensures
        b == statements_match(rows(stmts@), inputs@),
{
    let mut k: usize = 0;
    while k < inputs.len()
        invariant
            k <= inputs@.len(),
            stmts@.len() == inputs@.len(),
            forall|j: int| 0 <= j < k ==> (#[trigger] inputs@[j])@.external_inputs == rows(stmts@)[j],
        decreases inputs.len() - k,
    {
        if !same_elements(&inputs[k].external_inputs, &stmts[k]) {
            assert(inputs@[k as int]@.external_inputs != rows(stmts@)[k as int]);
            return false;
        }
        k = k + 1;
    }
    true
}

/// Whether a step's input has the sizes for the circuit `pc`.
fn check_takes<CS1: CommitmentScheme<Fr, G1>, CS2: CommitmentScheme<Fq, Grumpkin>>(
    setup: &RunSetup<CS1, CS2>,
    full: bool,
    pc: usize,
    inp: &SuperInput,
) -> (b: bool)
    requires
        setup.wf(full),
        pc < setup.circuits@.len(),
    ensures
        b == setup.takes(full, pc as int, inp@),
{
    let c = &setup.circuits[pc];
    assert(setup.circuits@[pc as int].wf(if full { 3nat } else { 2nat }));
    let x_len: usize = if full { 3 } else { 2 };
    let cf_w_len = setup.cf.r1cs.a.n_cols - 1 - setup.cf.r1cs.l;
    let cp_w_len = setup.cp.r1cs.a.n_cols - 1 - setup.cp.r1cs.l;
    if inp.w.len() != c.r1cs.a.n_cols - 1 - c.r1cs.l || inp.x.len() != x_len {
        return false;
    }
    if inp.cf.w.w.len() != cf_w_len || inp.cf.e.w.len() != cf_w_len || inp.cf.f.w.len() != cf_w_len {
        return false;
    }
    if !full {
        return true;
    }
    if inp.cp.w.len() != cp_w_len {
        return false;
    }
    match &inp.next_part2.cyclepair_input {
        None => false,
        Some(v) => v.len() == CYCLEPAIR_INPUT_LEN,
    }
}

/// Whether each step has an input of the sizes for its circuit.
fn check_inputs<CS1: CommitmentScheme<Fr, G1>, CS2: CommitmentScheme<Fq, Grumpkin>>(
    setup: &RunSetup<CS1, CS2>,
    full: bool,
    pcs: &Vec<usize>,
    inputs: &Vec<SuperInput>,
) -> (b: bool)
    requires
        setup.wf(full),
        forall|k: int| 0 <= k < pcs@.len() ==> (#[trigger] pcs@[k]) < setup.circuits@.len(),
    ensures
        b == inputs_fit(*setup, full, pcs@, inputs@),
{
    if inputs.len() != pcs.len() {
        return false;
    }
    let mut k: usize = 0;
    while k < pcs.len()
        invariant
            k <= pcs@.len(),
            inputs@.len() == pcs@.len(),
            setup.wf(full),
            forall|j: int| 0 <= j < pcs@.len() ==> (#[trigger] pcs@[j]) < setup.circuits@.len(),
            forall|j: int| 0 <= j < k ==> setup.takes(full, (#[trigger] pcs@[j]) as int, inputs@[j]@),
        decreases pcs.len() - k,
    {
        assert(pcs@[k as int] < setup.circuits@.len());
        if !check_takes(setup, full, pcs[k], &inputs[k]) {
            return false;
        }
        k = k + 1;
    }
    true
}

impl<M> Driver<M> {
    /// Whether the three passes give `one`, `two` and `res`.
    pub open spec fn pass_all_gives<
        A,
        I,
        P,
        K: CommitmentScheme<Fr, G1> + BatchOpeningProver<KZGProof> + OpeningProver<KZGProof>,
        V: CommitmentScheme<Fr, G1> + OpeningProver<P>,
        Q: QaNizkProver,
        KV: OpeningVerifier<KZGProof>,
        VV,
        CS1: CommitmentScheme<Fr, G1>,
        CS2: CommitmentScheme<Fq, Grumpkin>,
    >(
        &self,
        setup: RunSetup<CS1, CS2>,
        pkey: Option<&BatchProcessorProverParams<K, V, Q>>,
        vkey: Option<&BatchProcessorVerifierParams<KV, VV>>,
        words: Seq<Vec<Fr>>,
        infos: Seq<WordInfo<I>>,
        rands: ClaimRands,
        idx: int,
        inputs: Seq<SuperInput>,
        one: PassOne,
        two: PassTwo,
        res: RunResult<CS1, CS2, P>,
    ) -> bool where M: StatementMapper<A, I> {
        &&& self.pass_one_gives::<A, I, K, V, Q>(pkey, words, infos, rands, idx, one)
        &&& self.pass_two_gives::<A, I>(words, infos, one, two)
        &&& inputs_fit(setup, self.b_full_mode, one.pcs@, inputs)
        &&& statements_match(rows(two.statements@), inputs)
        &&& memories_match(two.cm_fs@, inputs)
        &&& self.pass_three_gives(setup, pkey, vkey, words, one, two.hash_cm_f, inputs, res)
    }

    /// Whether the three passes fail with the error `e`.
    pub open spec fn pass_all_fails<
        A,
        I,
        P,
        K: CommitmentScheme<Fr, G1> + BatchOpeningProver<KZGProof> + OpeningProver<KZGProof>,
        V: CommitmentScheme<Fr, G1> + OpeningProver<P>,
        Q: QaNizkProver,
        KV: OpeningVerifier<KZGProof>,
        VV,
        CS1: CommitmentScheme<Fr, G1>,
        CS2: CommitmentScheme<Fq, Grumpkin>,
    >(
        &self,
        setup: RunSetup<CS1, CS2>,
        pkey: Option<&BatchProcessorProverParams<K, V, Q>>,
        vkey: Option<&BatchProcessorVerifierParams<KV, VV>>,
        words: Seq<Vec<Fr>>,
        infos: Seq<WordInfo<I>>,
        rands: ClaimRands,
        idx: int,
        inputs: Seq<SuperInput>,
        e: ErrorView,
    ) -> bool where M: StatementMapper<A, I> {
        ||| self.pass_one_fails::<A, I, K, V, Q>(pkey, words, infos, rands, idx, e)
        ||| exists|one: PassOne| #[trigger]
            self.pass_one_gives::<A, I, K, V, Q>(pkey, words, infos, rands, idx, one) && self.after_pass_one_fails::<
                A,
                I,
                P,
                K,
                V,
                Q,
                KV,
                VV,
                CS1,
                CS2,
            >(setup, pkey, vkey, words, infos, inputs, one, e)
    }

    /// Whether what follows the first pass fails with the error `e`: the second pass
    /// fails, an input has other sizes than its step takes, other external inputs than
    /// its statement or another fixed memory, or the third pass fails.
    pub open spec fn after_pass_one_fails<
        A,
        I,
        P,
        K: CommitmentScheme<Fr, G1> + BatchOpeningProver<KZGProof> + OpeningProver<KZGProof>,
        V: CommitmentScheme<Fr, G1> + OpeningProver<P>,
        Q: QaNizkProver,
        KV: OpeningVerifier<KZGProof>,
        VV,
        CS1: CommitmentScheme<Fr, G1>,
        CS2: CommitmentScheme<Fq, Grumpkin>,
    >(
        &self,
        setup: RunSetup<CS1, CS2>,
        pkey: Option<&BatchProcessorProverParams<K, V, Q>>,
        vkey: Option<&BatchProcessorVerifierParams<KV, VV>>,
        words: Seq<Vec<Fr>>,
        infos: Seq<WordInfo<I>>,
        inputs: Seq<SuperInput>,
        one: PassOne,
        e: ErrorView,
    ) -> bool where M: StatementMapper<A, I> {
        ||| self.pass_two_fails::<A, I>(words, infos, one, e)
        ||| exists|two: PassTwo| #[trigger]
            self.pass_two_gives::<A, I>(words, infos, one, two) && (if !inputs_fit(
                setup,
                self.b_full_mode,
                one.pcs@,
                inputs,
            ) {
                e == ErrorView::NotExpectedLength(inputs.len() as usize, one.pcs@.len() as usize)
            } else if !statements_match(rows(two.statements@), inputs) || !memories_match(two.cm_fs@, inputs) {
                e == ErrorView::NotEqual
            } else {
                self.pass_three_fails::<P, K, V, Q, KV, VV, CS1, CS2>(
                    setup,
                    pkey,
                    vkey,
                    words,
                    one,
                    two.hash_cm_f,
                    inputs,
                    e,
                )
            })
    }

    /// Runs the three passes over the words. The steps' inputs are those that the synthesis
    /// of the circuits gives for the statements of the words' segments: inputs of other
    /// sizes, with other external inputs than these statements or with other fixed
    /// memories than theirs are refused.
    pub fn pass_all<
        A,
        I,
        P,
        K: CommitmentScheme<Fr, G1> + BatchOpeningProver<KZGProof> + OpeningProver<KZGProof>,
        V: CommitmentScheme<Fr, G1> + OpeningProver<P>,
        Q: QaNizkProver,
        KV: OpeningVerifier<KZGProof>,
        VV,
        CS1: CommitmentScheme<Fr, G1>,
        CS2: CommitmentScheme<Fq, Grumpkin>,
    >(
        &self,
        setup: RunSetup<CS1, CS2>,
        pkey: Option<&BatchProcessorProverParams<K, V, Q>>,
        vkey: Option<&BatchProcessorVerifierParams<KV, VV>>,
        words: &Vec<Vec<Fr>>,
        infos: &Vec<WordInfo<I>>,
        rands: &ClaimRands,
        idx_ind_proof: usize,
        inputs: &Vec<SuperInput>,
    ) -> (r: Result<(PassOne, PassTwo, RunResult<CS1, CS2, P>), Error>) where M: StatementMapper<A, I>
        requires
            self.wf::<A, I>(),
            setup.wf(self.b_full_mode),
            setup.circuits@.len() == self.n_circ(),
            words@.len() == infos@.len(),
            !self.b_full_mode ==> {
                &&& pkey is Some
                &&& vkey is Some
                &&& pkey->0.poseidon_config@.wf()
                &&& vkey->0.vk_qa_nizk.c@.len() == 4
                &&& idx_ind_proof < words@.len()
            },
        ensures
            match r {
                Ok((one, two, res)) => self.pass_all_gives::<A, I, P, K, V, Q, KV, VV, CS1, CS2>(
                    setup,
                    pkey,
                    vkey,
                    words@,
                    infos@,
                    *rands,
                    idx_ind_proof as int,
                    inputs@,
                    one,
                    two,
                    res,
                ),
                Err(e) => self.pass_all_fails::<A, I, P, K, V, Q, KV, VV, CS1, CS2>(
                    setup,
                    pkey,
                    vkey,
                    words@,
                    infos@,
                    *rands,
                    idx_ind_proof as int,
                    inputs@,
                    e@,
                ),
            },
    {
        let one = match self.pass_one(pkey, words, infos, rands, idx_ind_proof) {
            Err(e) => { return Err(e); },
            Ok(p) => p,
        };
        proof {
            law_planned_steps_are_chained::<A, I, M>(*self, rows(words@), infos@, one.adv, words@.len());
            assert forall|k: int| 0 <= k < one.pcs@.len() implies (#[trigger] one.pcs@[k]) < setup.circuits@.len() by {
                assert(one.steps@[k].pc_i1 == crate::batch_proc::low32(one.pcs@[k] as nat));
            }
        }
        let two = match self.pass_two(words, infos, &one) {
            Err(e) => {
                assert(self.after_pass_one_fails::<A, I, P, K, V, Q, KV, VV, CS1, CS2>(
                    setup,
                    pkey,
                    vkey,
                    words@,
                    infos@,
                    inputs@,
                    one,
                    e@,
                ));
                return Err(e);
            },
            Ok(p) => p,
        };
        if !check_inputs(&setup, self.b_full_mode, &one.pcs, inputs) {
            return Err(Error::NotExpectedLength(inputs.len(), one.pcs.len()));
        }
        if !check_statements(&two.statements, inputs) || !check_memories(&two.cm_fs, inputs) {
            return Err(Error::NotEqual);
        }
        match self.pass_three(setup, pkey, vkey, words, &one, &two.hash_cm_f, inputs) {
            Err(e) => Err(e),
            Ok(res) => Ok((one, two, res)),
        }
    }
}

} // verus!
