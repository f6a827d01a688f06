//! Jobs: what is set up for them, and how the proofs of one job come together.
use vstd::prelude::*;
use crate::batch_proc::low32;
use crate::batch_proc::low32_element;
use crate::batch_proc::BatchProcessor;
use crate::batch_proc::QaNizkProver;
use crate::capacity_planner::CapacityPlanner;
use crate::capacity_planner::GadgetMapper;
use crate::capacity_planner::WordInfo;
use crate::commitment::CommitmentScheme;
use crate::commitment::KZGProof;
use crate::commitment::OpeningProver;
use crate::curve::Grumpkin;
use crate::curve::G1;
use crate::decider_circuits::gen_com_all_w;
use crate::decider_circuits::kzg_challenge;
use crate::error::Error;
use crate::error::ErrorView;
use crate::field::f_one;
use crate::field::f_zero;
use crate::field::Field;
use crate::field::FieldModel;
use crate::field_fq::Fq;
use crate::field_fr::Fr;
use crate::foldpot_super::FoldPotSuper;
use crate::instance_super::all_values;
use crate::instance_super::joined_e;
use crate::instance_super::joined_w;
use crate::instance_super::wit_views;
use crate::instance_super::CommittedInstanceFoldPotSuper;
use crate::instance_super::InstanceSuperView;
use crate::instance_super::WitnessFoldPotSuper;
use crate::sponge::PoseidonConfig;
use crate::sponge::PoseidonConfigView;
use crate::statement::StatementExtraInfo;
use crate::vecs::filled;
use crate::vecs::joined;
use crate::vecs::repeated;
use crate::vecs::rows;

verus! {

/// A job: the words that are proved together.
#[derive(Debug)]
pub struct FoldPotJob<I> {
    pub vec_words: Vec<Vec<Fr>>,
    pub vec_word_info: Vec<WordInfo<I>>,
    pub vec_word_fnames: Vec<String>,
    /// The word that an individual proof is made for.
    pub idx_individual_prf: usize,
}

impl<I> FoldPotJob<I> {
    /// Whether each word has a name and what is known of it.
    pub open spec fn wf(&self) -> bool {
        &&& self.vec_word_info@.len() == self.vec_words@.len()
        &&& self.vec_word_fnames@.len() == self.vec_words@.len()
    }

    /// The length of all words.
    pub open spec fn total_len(&self) -> nat {
        joined(rows(self.vec_words@)).len()
    }
}

/// The elements of a file's bytes: for each byte the upper and the lower nibble.
pub fn read_nibbles(bytes: &Vec<u8>) -> (r: Vec<Fr>)
    ensures
        r@.len() == 2 * bytes@.len(),
        forall|k: int|
            0 <= k < bytes@.len() ==> r@[2 * k] == Fr::of(((#[trigger] bytes@[k]) / 16) as nat) && r@[2 * k + 1]
                == Fr::of((bytes@[k] % 16) as nat),
{
    let mut r: Vec<Fr> = Vec::new();
    let mut i: usize = 0;
    while i < bytes.len()
        invariant
            i <= bytes@.len(),
            r@.len() == 2 * i,
            forall|k: int|
                0 <= k < i ==> r@[2 * k] == Fr::of(((#[trigger] bytes@[k]) / 16) as nat) && r@[2 * k + 1] == Fr::of(
                    (bytes@[k] % 16) as nat,
                ),
        decreases bytes.len() - i,
    {
        let b = bytes[i];
        r.push(Fr::from_u64((b / 16) as u64));
        r.push(Fr::from_u64((b % 16) as u64));
        i = i + 1;
    }
    r
}

/// Whether `n` is the largest of the numbers, zero where there are none.
pub open spec fn is_largest(v: Seq<nat>, n: nat) -> bool {
    &&& forall|k: int| 0 <= k < v.len() ==> (#[trigger] v[k]) <= n
    &&& if v.len() == 0 {
        n == 0
    } else {
        v.contains(n)
    }
}

/// How many words the jobs have.
pub open spec fn word_counts<I>(jobs: Seq<FoldPotJob<I>>) -> Seq<nat> {
    Seq::new(jobs.len(), |k: int| jobs[k].vec_words@.len())
}

/// How long the jobs' words are together.
pub open spec fn total_lens<I>(jobs: Seq<FoldPotJob<I>>) -> Seq<nat> {
    Seq::new(jobs.len(), |k: int| jobs[k].total_len())
}

/// The sizes that the keys have to be for: the largest number of words of a job, and the
/// largest length of a job's words.
pub fn job_sizes<I>(jobs: &Vec<FoldPotJob<I>>) -> (r: (usize, usize))
    requires
        forall|k: int| 0 <= k < jobs@.len() ==> (#[trigger] jobs@[k]).total_len() <= usize::MAX,
    ensures
        is_largest(word_counts(jobs@), r.0 as nat),
        is_largest(total_lens(jobs@), r.1 as nat),
{
    let mut max_words: usize = 0;
    let mut max_len: usize = 0;
    let mut i: usize = 0;
    while i < jobs.len()
        invariant
            i <= jobs@.len(),
            forall|k: int| 0 <= k < jobs@.len() ==> (#[trigger] jobs@[k]).total_len() <= usize::MAX,
            is_largest(word_counts(jobs@.take(i as int)), max_words as nat),
            is_largest(total_lens(jobs@.take(i as int)), max_len as nat),
        decreases jobs.len() - i,
    {
        let job = &jobs[i];
        let ghost counts = word_counts(jobs@.take(i as int));
        let ghost lens = total_lens(jobs@.take(i as int));
        let n: usize = job.vec_words.len();
        let len: usize = BatchProcessor::key_size(&job.vec_words);
        assert(word_counts(jobs@.take(i + 1)) =~= counts.push(n as nat));
        assert(total_lens(jobs@.take(i + 1)) =~= lens.push(len as nat));
        proof {
            lemma_larger(counts, max_words as nat, n as nat);
            lemma_larger(lens, max_len as nat, len as nat);
        }
        if n > max_words {
            max_words = n;
        }
        if len > max_len {
            max_len = len;
        }
        i = i + 1;
    }
    assert(jobs@.take(i as int) =~= jobs@);
    (max_words, max_len)
}

/// The largest of the numbers and one more is that one or the largest before.
proof fn lemma_larger(v: Seq<nat>, n: nat, x: nat)
    requires
        is_largest(v, n),
    ensures
        is_largest(v.push(x), if x > n { x } else { n }),
{
    let w = v.push(x);
    assert(w[v.len() as int] == x);
    if x <= n && v.len() > 0 {
        let k = choose|k: int| 0 <= k < v.len() && v[k] == n;
        assert(w[k] == n);
    }
    assert forall|k: int| 0 <= k < w.len() implies (#[trigger] w[k]) <= (if x > n { x } else { n }) by {
        if k < v.len() {
            assert(v[k] <= n);
        }
    }
}

/// What a circuit's keys are made for: the one step of one word of zeros that is as long
/// as the circuit takes.
pub open spec fn dummy_step(id: nat, n_circ: nat, wlen: nat) -> StatementExtraInfo {
    StatementExtraInfo {
        total_words: f_one(),
        word_id: f_one(),
        subseg_id: f_one(),
        total_word_len: low32(wlen),
        total_word_segs: f_one(),
        n_circ: low32(n_circ),
        pc_i: low32(id),
        pc_i1: low32(id),
        act_word_subseg_size: low32(wlen),
        batch_r: f_zero(),
        batch_v: f_zero(),
        r_all_words: f_zero(),
        r_kzg_len: f_zero(),
        r_vec_r: f_zero(),
        r_vec_v: f_zero(),
        r_word_i: f_zero(),
        accumulated_word_len: low32(wlen),
    }
}

/// What a circuit's keys are made for.
pub fn dummy_extra_info(id: usize, n_circ: usize, wlen: usize) -> (r: StatementExtraInfo)
    ensures
        r == dummy_step(id as nat, n_circ as nat, wlen as nat),
{
    let len = low32_element(wlen);
    let pc = low32_element(id);
    let zero = Fr::zero();
    let one = Fr::one();
    StatementExtraInfo {
        total_words: one,
        word_id: one,
        subseg_id: one,
        total_word_len: len,
        total_word_segs: one,
        n_circ: low32_element(n_circ),
        pc_i: pc,
        pc_i1: pc,
        act_word_subseg_size: len,
        batch_r: zero,
        batch_v: zero,
        r_all_words: zero,
        r_kzg_len: zero,
        r_vec_r: zero,
        r_vec_v: zero,
        r_word_i: zero,
        accumulated_word_len: len,
    }
}

/// What the circuit gives for a word of zeros that is as long as it takes.
pub open spec fn dummy_advice<A, I, M: GadgetMapper<A, I>>(m: M, info: WordInfo<I>) -> Result<A, ErrorView> {
    m.advice(repeated(f_zero::<Fr>(), m.max_len()), info.info, info.halo_nibbles@, None, 0)
}

impl<M> CapacityPlanner<M> {
    /// All circuits, layer after layer.
    pub open spec fn circuits(&self) -> Seq<M> {
        joined(rows(self.layered_circs@))
    }

    /// What the circuits' keys are made for, layer after layer. Each circuit has to be
    /// able to handle zeros: what the first that is not lacks is the error.
    pub fn dummy_steps<A, I>(&self, info: &WordInfo<I>) -> (r: Result<Vec<(StatementExtraInfo, A)>, Error>) where
        M: GadgetMapper<A, I>,

        requires
            self.circuits().len() <= usize::MAX,
        ensures
            match r {
                Ok(v) => {
                    &&& v@.len() == self.circuits().len()
                    &&& forall|k: int|
                        0 <= k < v@.len() ==> {
                            let m = self.circuits()[k];
                            &&& (#[trigger] v@[k]).0 == dummy_step(k as nat, self.circuits().len(), m.max_len())
                            &&& dummy_advice::<A, I, M>(m, *info) == Ok::<A, ErrorView>(v@[k].1)
                        }
                },
                Err(e) => exists|k: int| #![trigger self.circuits()[k]]
                    0 <= k < self.circuits().len() && dummy_advice::<A, I, M>(self.circuits()[k], *info) == Err::<
                        A,
                        ErrorView,
                    >(e@) && forall|j: int|
                        0 <= j < k ==> dummy_advice::<A, I, M>(#[trigger] self.circuits()[j], *info) is Ok,
            },
    {
        let ghost all = rows(self.layered_circs@);
        let ghost circs = self.circuits();
        let n_circ = self.count_circuits();
        let mut v: Vec<(StatementExtraInfo, A)> = Vec::new();
        let mut i: usize = 0;
        assert(all.take(0) =~= Seq::empty());
        while i < self.layered_circs.len()
            invariant
                i <= self.layered_circs@.len(),
                all == rows(self.layered_circs@),
                circs == joined(all),
                circs == self.circuits(),
                n_circ == circs.len(),
                v@.len() == joined(all.take(i as int)).len(),
                v@.len() <= circs.len(),
                forall|k: int|
                    0 <= k < v@.len() ==> {
                        &&& (#[trigger] v@[k]).0 == dummy_step(k as nat, circs.len(), circs[k].max_len())
                        &&& dummy_advice::<A, I, M>(circs[k], *info) == Ok::<A, ErrorView>(v@[k].1)
                    },
            decreases self.layered_circs.len() - i,
        {
            assert(all.take(i + 1).drop_last() =~= all.take(i as int));
            assert(all[i as int] == self.layered_circs@[i as int]@);
            proof {
                lemma_row_place(all, i as int);
            }
            let ghost base = joined(all.take(i as int)).len() as int;
            let mut j: usize = 0;
            while j < self.layered_circs[i].len()
                invariant
                    i < self.layered_circs@.len(),
                    j <= self.layered_circs@[i as int]@.len(),
                    circs == self.circuits(),
                    n_circ == circs.len(),
                    0 <= base,
                    v@.len() == base + j,
                    base + self.layered_circs@[i as int]@.len() <= circs.len(),
                    circs.subrange(base, base + self.layered_circs@[i as int]@.len())
                        == self.layered_circs@[i as int]@,
                    forall|k: int|
                        0 <= k < v@.len() ==> {
                            &&& (#[trigger] v@[k]).0 == dummy_step(k as nat, circs.len(), circs[k].max_len())
                            &&& dummy_advice::<A, I, M>(circs[k], *info) == Ok::<A, ErrorView>(v@[k].1)
                        },
                decreases self.layered_circs@[i as int]@.len() - j,
            {
                let circ = &self.layered_circs[i][j];
                assert(circs[base + j] == circs.subrange(
                    base,
                    base + self.layered_circs@[i as int]@.len(),
                )[j as int]);
                let wlen = circ.max_word_len();
                let frag = filled(Fr::zero(), wlen);
                let id: usize = v.len();
                match circ.gen_nd_advice(&frag, &info.info, &info.halo_nibbles, None, 0) {
                    Err(e) => {
                        proof {
                            assert(dummy_advice::<A, I, M>(self.circuits()[id as int], *info) == Err::<A, ErrorView>(e@));
                            assert forall|k: int| 0 <= k < id implies dummy_advice::<A, I, M>(
                                #[trigger] self.circuits()[k],
                                *info,
                            ) is Ok by {
                                assert(dummy_advice::<A, I, M>(circs[k], *info) == Ok::<A, ErrorView>(v@[k].1));
                            }
                        }
                        return Err(e);
                    },
                    Ok(advice) => {
                        v.push((dummy_extra_info(id, n_circ, wlen), advice));
                    },
                }
                j = j + 1;
            }
            assert(v@.len() == joined(all.take(i + 1)).len());
            i = i + 1;
        }
        assert(all.take(i as int) =~= all);
        Ok(v)
    }

    /// How many circuits there are.
    fn count_circuits(&self) -> (n: usize)
        requires
            self.circuits().len() <= usize::MAX,
        ensures
            n == self.circuits().len(),
    {
        let ghost all = rows(self.layered_circs@);
        let mut n: usize = 0;
        let mut i: usize = 0;
        assert(all.take(0) =~= Seq::empty());
        while i < self.layered_circs.len()
            invariant
                i <= self.layered_circs@.len(),
                all == rows(self.layered_circs@),
                n == joined(all.take(i as int)).len(),
                joined(all).len() <= usize::MAX,
            decreases self.layered_circs.len() - i,
        {
            assert(all.take(i + 1).drop_last() =~= all.take(i as int));
            assert(all[i as int] == self.layered_circs@[i as int]@);
            proof {
                lemma_row_place(all, i as int);
            }
            n = n + self.layered_circs[i].len();
            i = i + 1;
        }
        assert(all.take(i as int) =~= all);
        n
    }
}

/// The row `i` stands behind the rows before it.
proof fn lemma_row_place<T>(v: Seq<Seq<T>>, i: int)
    requires
        0 <= i < v.len(),
    ensures
        ({
            let base = joined(v.take(i)).len() as int;
            &&& joined(v.take(i + 1)).len() == base + v[i].len()
            &&& base + v[i].len() <= joined(v).len()
            &&& joined(v).subrange(base, base + v[i].len()) == v[i]
        }),
    decreases v.len(),
{
    let base = joined(v.take(i)).len() as int;
    assert(v.take(i + 1).drop_last() =~= v.take(i));
    assert(v.take(i + 1).last() == v[i]);
    if i + 1 == v.len() {
        assert(v.take(i + 1) =~= v);
        assert(joined(v).subrange(base, base + v[i].len()) =~= v[i]);
    } else {
        let w = v.drop_last();
        lemma_row_place(w, i);
        assert(w.take(i) =~= v.take(i));
        assert(w.take(i + 1) =~= v.take(i + 1));
        assert(joined(v) == joined(w) + v.last());
        assert(joined(v).subrange(base, base + v[i].len()) =~= joined(w).subrange(
            base,
            base + v[i].len(),
        ));
    }
}

/// The commitment to all witnesses, where it is opened, and the proofs of it.
#[derive(Debug, Clone, Copy)]
pub struct AllWitnesses {
    pub com_all_w: G1,
    /// That it is for the same vectors as the instances' commitments.
    pub prf_qa_nizk: G1,
    pub r_all_w: Fr,
    pub prf_kzg: KZGProof,
    pub kzg_all_com_ch: Fr,
}

/// The commitment to all witnesses with its proofs, or why there is none.
pub open spec fn all_witnesses<K: CommitmentScheme<Fr, G1> + OpeningProver<KZGProof>, Q: QaNizkProver>(
    pkey: Q,
    comkey: K,
    w: Seq<crate::instance::WitnessFoldPotView>,
    u: InstanceSuperView,
    config: PoseidonConfigView,
    r_all_w: Fr,
) -> Result<AllWitnesses, ErrorView> {
    let v = all_values(w, r_all_w);
    match comkey.commit_spec(v, f_zero::<Fr>()) {
        None => Err(ErrorView::CommitmentFail),
        Some(com_all_w) => {
            let ch = kzg_challenge(config, u.insts, com_all_w);
            match comkey.prove_spec(ch, v) {
                Err(e) => Err(e),
                Ok(prf_kzg) => Ok(
                    AllWitnesses {
                        com_all_w,
                        prf_qa_nizk: pkey.prove_spec(joined_w(w) + joined_e(w), r_all_w),
                        r_all_w,
                        prf_kzg,
                        kzg_all_com_ch: ch,
                    },
                ),
            }
        },
    }
}

impl WitnessFoldPotSuper {
    /// Commits to all witnesses, blinded by `r_all_w`, and proves that the commitment is
    /// for the same vectors as the instances' commitments, and its value at the challenge
    /// that it and the instances give.
    pub fn gen_com_all_w_and_qa_nizk_prf<
        K: CommitmentScheme<Fr, G1> + OpeningProver<KZGProof>,
        Q: QaNizkProver,
    >(
        &self,
        pkey: &Q,
        comkey: &K,
        u: &CommittedInstanceFoldPotSuper,
        poseidon_config: &PoseidonConfig,
        r_all_w: &Fr,
    ) -> (r: Result<AllWitnesses, Error>)
        requires
            poseidon_config@.wf(),
        ensures
            crate::error::outcome(r) == all_witnesses(
                *pkey,
                *comkey,
                wit_views(self.vec_wit@),
                u@,
                poseidon_config@,
                *r_all_w,
            ),
    {
        let (com_all_w, kzg_all_com_ch) = match gen_com_all_w(self, comkey, u, poseidon_config, r_all_w) {
            None => { return Err(Error::CommitmentFail); },
            Some(c) => c,
        };
        let mut all_w = self.all_values(r_all_w);
        let prf_kzg = match comkey.prove_with_challenge(&kzg_all_com_ch, &all_w) {
            Err(e) => { return Err(e); },
            Ok(p) => p,
        };
        let _ = all_w.pop();
        let ghost w = wit_views(self.vec_wit@);
        assert(all_w@ =~= joined_w(w) + joined_e(w));
        let prf_qa_nizk = pkey.prove(&all_w, r_all_w);
        Ok(AllWitnesses { com_all_w, prf_qa_nizk, r_all_w: *r_all_w, prf_kzg, kzg_all_com_ch })
    }
}

/// The end of a run: the folded instance and the commitment to its witnesses.
pub struct RunEnd {
    pub u: CommittedInstanceFoldPotSuper,
    pub all_w: AllWitnesses,
}

/// The instance with the incoming one folded in.
pub open spec fn folded_u<CS1: CommitmentScheme<Fr, G1>, CS2: CommitmentScheme<Fq, Grumpkin>>(
    nova: FoldPotSuper<CS1, CS2>,
) -> InstanceSuperView {
    InstanceSuperView { insts: nova.next_u(nova.state@).insts, ..nova.state@.run_u }
}

/// The folded instance and the commitment to its witnesses, or why there is none.
pub open spec fn run_end<
    CS1: CommitmentScheme<Fr, G1>,
    CS2: CommitmentScheme<Fq, Grumpkin>,
    K: CommitmentScheme<Fr, G1> + OpeningProver<KZGProof>,
    Q: QaNizkProver,
>(nova: FoldPotSuper<CS1, CS2>, comkey: K, pkey: Q, r_all_w: Fr) -> Result<(InstanceSuperView, AllWitnesses), ErrorView> {
    if nova.cm_t(nova.state@) is None {
        Err(ErrorView::CommitmentFail)
    } else {
        match all_witnesses(
            pkey,
            comkey,
            nova.next_w(nova.state@),
            folded_u(nova),
            nova.poseidon_config@,
            r_all_w,
        ) {
            Err(e) => Err(e),
            Ok(a) => Ok((folded_u(nova), a)),
        }
    }
}

impl RunEnd {
    pub open spec fn pair(self) -> (InstanceSuperView, AllWitnesses) {
        (self.u@, self.all_w)
    }

    /// Folds the last incoming instance of a run and commits to all witnesses.
    pub fn of_run<
        CS1: CommitmentScheme<Fr, G1>,
        CS2: CommitmentScheme<Fq, Grumpkin>,
        K: CommitmentScheme<Fr, G1> + OpeningProver<KZGProof>,
        Q: QaNizkProver,
    >(nova: &FoldPotSuper<CS1, CS2>, comkey: &K, pkey: &Q, r_all_w: &Fr) -> (r: Result<RunEnd, Error>)
        requires
            nova.wf(),
        ensures
            match r {
                Ok(end) => {
                    &&& run_end(*nova, *comkey, *pkey, *r_all_w) == Ok::<(InstanceSuperView, AllWitnesses), ErrorView>(
                        end.pair(),
                    )
                    &&& end.u.vec_inst@.len() == nova.circuits@.len()
                },
                Err(e) => run_end(*nova, *comkey, *pkey, *r_all_w) == Err::<
                    (InstanceSuperView, AllWitnesses),
                    ErrorView,
                >(e@),
            },
    {
        let (u, w, _r, _cm_t) = match nova.gen_next_folded() {
            Err(e) => { return Err(e); },
            Ok(f) => f,
        };
        assert(u.vec_inst@.len() == u@.insts.len());
        match w.gen_com_all_w_and_qa_nizk_prf(pkey, comkey, &u, &nova.poseidon_config, r_all_w) {
            Err(e) => Err(e),
            Ok(all_w) => Ok(RunEnd { u, all_w }),
        }
    }
}

} // verus!
