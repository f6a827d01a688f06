//! The driver: it cuts words into steps, proves them one after the other, and puts the
//! batch proof together.
use vstd::prelude::*;
use crate::batch_proc::BatchProof;
use crate::batch_proc::IndividualProof;
use crate::capacity_planner::law_first_working_is_lowest;
use crate::capacity_planner::total_segs;
use crate::circuits::CF_IO_LEN;
use crate::commitment::CommitmentScheme;
use crate::curve::Grumpkin;
use crate::cyclefold::PairContext;
use crate::cyclepair::CP_IO_LEN;
use crate::field_fq::Fq;
use crate::foldpot_super::FoldPotSuper;
use crate::foldpot_super::StepCircuit;
use crate::foldpot_super::SuperInput;
use crate::foldpot_super::SuperInputView;
use crate::foldpot_super::SuperStateView;
use crate::part_two::PartTwoView;
use crate::part_two::ZiPartTwoInst;
use crate::part_two::CYCLEPAIR_INPUT_LEN;
use crate::batch_proc::low32;
use crate::batch_proc::low32_element;
use crate::batch_proc::SnarkAdvice;
use crate::capacity_planner::lemma_segment_bounds;
use crate::capacity_planner::num_segs;
use crate::capacity_planner::seg_end;
use crate::capacity_planner::seg_sizes;
use crate::capacity_planner::word_advices;
use crate::capacity_planner::CapacityPlanner;
use crate::capacity_planner::GadgetMapper;
use crate::capacity_planner::WordInfo;
use crate::curve::G1;
use crate::error::outcome;
use crate::error::Error;
use crate::error::ErrorView;
use crate::field::f_zero;
use crate::field::Field;
use crate::field::FieldModel;
use crate::field_fr::Fr;
use crate::part_two::compute_step_hc;
use crate::part_two::chained;
use crate::sponge::PoseidonConfig;
use crate::sponge::PoseidonConfigView;
use crate::statement::StatementExtraInfo;
use crate::vecs::rows;

verus! {

/// The driver of a computation: the ladder of circuits, the lookup table and how it is
/// shared out.
pub struct Driver<M> {
    pub planner: CapacityPlanner<M>,
    pub poseidon_config: PoseidonConfig,
    /// The columns of the lookup table.
    pub lk_col1: Vec<Fr>,
    pub lk_col2: Vec<Fr>,
    /// How many entries of the lookup table a step of each circuit takes.
    pub lk_share: Vec<usize>,
    /// Whether the steps have to take the whole table.
    pub b_check_lkup: bool,
    /// Whether pairings are folded too.
    pub b_full_mode: bool,
}

/// The step `k` of a word that is the `wi`-th, counted from zero, and is proved by the
/// circuit `pc` after a step by the circuit `prev_pc`.
pub open spec fn word_step(
    total_words: nat,
    wi: nat,
    len: nat,
    max: nat,
    n_circ: nat,
    prev_pc: nat,
    pc: nat,
    adv: SnarkAdvice,
    k: nat,
) -> StatementExtraInfo {
    StatementExtraInfo {
        total_words: low32(total_words),
        word_id: low32(wi + 1),
        subseg_id: low32(k + 1),
        total_word_len: low32(len),
        total_word_segs: low32(num_segs(len, max)),
        n_circ: low32(n_circ),
        pc_i: low32(if k == 0 { prev_pc } else { pc }),
        pc_i1: low32(pc),
        act_word_subseg_size: low32(seg_sizes(len, max)[k as int] as nat),
        batch_r: adv.vec_r@[wi as int],
        batch_v: adv.vec_v@[wi as int],
        r_all_words: adv.r_all_words,
        r_kzg_len: adv.r_kzg_len,
        r_vec_r: adv.r_vec_r_kzg,
        r_vec_v: adv.r_vec_v_kzg,
        r_word_i: adv.rands@[wi as int],
        accumulated_word_len: low32(seg_end(len, max, k)),
    }
}

/// The steps of a word.
pub open spec fn word_steps(
    total_words: nat,
    wi: nat,
    len: nat,
    max: nat,
    n_circ: nat,
    prev_pc: nat,
    pc: nat,
    adv: SnarkAdvice,
) -> Seq<StatementExtraInfo> {
    Seq::new(
        num_segs(len, max),
        |k: int| word_step(total_words, wi, len, max, n_circ, prev_pc, pc, adv, k as nat),
    )
}

/// The last link of the hash chain of the fixed memory commitments that begins with
/// `start`.
pub open spec fn cm_f_chain_from(config: PoseidonConfigView, start: Fr, cm_fs: Seq<G1>) -> Fr
    decreases cm_fs.len(),
{
    if cm_fs.len() == 0 {
        start
    } else {
        step_hc(config, cm_f_chain_from(config, start, cm_fs.drop_last()), cm_fs.last())
    }
}

/// The last link of the hash chain of the fixed memory commitments.
pub open spec fn cm_f_chain(config: PoseidonConfigView, cm_fs: Seq<G1>) -> Fr {
    cm_f_chain_from(config, f_zero::<Fr>(), cm_fs)
}

/// The next link of that chain.
pub open spec fn step_hc(config: PoseidonConfigView, hc: Fr, cm_f: G1) -> Fr {
    chained(config, hc, crate::limbs::g1_absorbed(cm_f))
}

/// The last link of the hash chain of the fixed memory commitments.
pub fn chain_cm_f(config: &PoseidonConfig, cm_fs: &Vec<G1>) -> (h: Fr)
    requires
        config@.wf(),
    ensures
        h == cm_f_chain(config@, cm_fs@),
{
    let mut h = Fr::zero();
    let mut i: usize = 0;
    assert(cm_fs@.take(0) =~= Seq::empty());
    while i < cm_fs.len()
        invariant
            i <= cm_fs@.len(),
            config@.wf(),
            h == cm_f_chain(config@, cm_fs@.take(i as int)),
        decreases cm_fs.len() - i,
    {
        h = compute_step_hc(config, &h, &cm_fs[i]);
        assert(cm_fs@.take(i + 1).drop_last() =~= cm_fs@.take(i as int));
        i = i + 1;
    }
    assert(cm_fs@.take(i as int) =~= cm_fs@);
    h
}

/// What is covered of the lookup table by the first `n` steps, where the steps are by
/// the circuits `pcs`.
pub open spec fn covered(share: Seq<usize>, pcs: Seq<usize>, n: nat) -> nat
    decreases n,
{
    if n == 0 {
        0
    } else {
        covered(share, pcs, (n - 1) as nat) + share[pcs[n - 1] as int] as nat
    }
}

impl<M> Driver<M> {
    /// The driver of a ladder of circuits, each of which takes its share of the lookup
    /// table.
    pub fn new(
        poseidon_config: PoseidonConfig,
        layered_circs: Vec<Vec<M>>,
        lk_col1: Vec<Fr>,
        lk_col2: Vec<Fr>,
        lk_share: Vec<usize>,
        b_check_lkup: bool,
        b_full_mode: bool,
    ) -> (r: Driver<M>)
        ensures
            r.poseidon_config == poseidon_config,
            r.planner.layered_circs == layered_circs,
            !r.planner.look_ahead,
            r.lk_col1 == lk_col1,
            r.lk_col2 == lk_col2,
            r.lk_share == lk_share,
            r.b_check_lkup == b_check_lkup,
            r.b_full_mode == b_full_mode,
    {
        Driver {
            planner: CapacityPlanner::without_look_ahead(layered_circs),
            poseidon_config,
            lk_col1,
            lk_col2,
            lk_share,
            b_check_lkup,
            b_full_mode,
        }
    }

    /// How long the batch processor's key has to be for words of `max_total_n` elements
    /// together.
    pub fn batch_key_len(&self, max_total_n: usize) -> (n: usize)
        requires
            max_total_n < usize::MAX,
            self.lk_col1@.len() < usize::MAX,
        ensures
            n == (if max_total_n > self.lk_col1@.len() {
                max_total_n as nat
            } else {
                self.lk_col1@.len()
            }) + 1,
    {
        if max_total_n > self.lk_col1.len() {
            max_total_n + 1
        } else {
            self.lk_col1.len() + 1
        }
    }

    /// Whether the ladder is one, with a share of the lookup table for each circuit, and
    /// words are planned with their info as it is.
    pub open spec fn wf<A, I>(&self) -> bool where M: GadgetMapper<A, I> {
        &&& self.planner.wf::<A, I>()
        &&& !self.planner.look_ahead
        &&& self.planner.layered_circs@.len() <= u32::MAX
        &&& self.lk_share@.len() == self.planner.layered_circs@.len()
        &&& self.poseidon_config@.wf()
    }

    pub open spec fn n_circ(&self) -> nat {
        self.planner.layered_circs@.len()
    }

    /// The circuit that proves a word: the first that can handle it.
    pub open spec fn pc_of<A, I>(&self, word: Seq<Fr>, info: WordInfo<I>) -> Option<int> where
        M: GadgetMapper<A, I>,
     {
        self.planner.first_working::<A, I>(word, info, 0, self.n_circ() - 1)
    }

    /// The circuits of the first `n` words' steps, or what the first word that no
    /// circuit can handle lacks of the last one.
    pub open spec fn pcs<A, I>(&self, words: Seq<Seq<Fr>>, infos: Seq<WordInfo<I>>, n: nat) -> Result<
        Seq<usize>,
        ErrorView,
    > where M: GadgetMapper<A, I>
        decreases n,
    {
        if n == 0 {
            Ok(Seq::empty())
        } else {
            match self.pcs::<A, I>(words, infos, (n - 1) as nat) {
                Err(e) => Err(e),
                Ok(before) => match self.pc_of::<A, I>(words[n - 1], infos[n - 1]) {
                    Some(pc) => Ok(
                        before + Seq::new(
                            num_segs(words[n - 1].len(), self.planner.circ(0).max_len()),
                            |k: int| pc as usize,
                        ),
                    ),
                    None => Err(
                        word_advices::<A, I, M>(
                            self.planner.circ(self.n_circ() - 1),
                            false,
                            words[n - 1],
                            infos[n - 1],
                        )->Err_0,
                    ),
                },
            }
        }
    }

    /// The steps of the first `n` words, where each has a circuit.
    pub open spec fn steps<A, I>(
        &self,
        words: Seq<Seq<Fr>>,
        infos: Seq<WordInfo<I>>,
        adv: SnarkAdvice,
        n: nat,
    ) -> Seq<StatementExtraInfo> where M: GadgetMapper<A, I>
        decreases n,
    {
        if n == 0 {
            Seq::empty()
        } else {
            let before = self.pcs::<A, I>(words, infos, (n - 1) as nat)->Ok_0;
            self.steps::<A, I>(words, infos, adv, (n - 1) as nat) + word_steps(
                words.len(),
                (n - 1) as nat,
                words[n - 1].len(),
                self.planner.circ(0).max_len(),
                self.n_circ(),
                if before.len() == 0 {
                    0
                } else {
                    before.last() as nat
                },
                self.pc_of::<A, I>(words[n - 1], infos[n - 1])->0 as nat,
                adv,
            )
        }
    }

    /// The steps of one word.
    fn build_word_steps(
        total_words: usize,
        wi: usize,
        len: usize,
        max: Ghost<nat>,
        n_circ: usize,
        prev_pc: usize,
        pc: usize,
        adv: &SnarkAdvice,
        sizes: &Vec<usize>,
    ) -> (v: Vec<StatementExtraInfo>)
        requires
            max@ > 0,
            wi < usize::MAX,
            wi < adv.vec_r@.len(),
            wi < adv.vec_v@.len(),
            wi < adv.rands@.len(),
            sizes@ == seg_sizes(len as nat, max@),
        ensures
            v@ == word_steps(
                total_words as nat,
                wi as nat,
                len as nat,
                max@,
                n_circ as nat,
                prev_pc as nat,
                pc as nat,
                *adv,
            ),
    {
        let segs = sizes.len();
        let ghost target = word_steps(
            total_words as nat,
            wi as nat,
            len as nat,
            max@,
            n_circ as nat,
            prev_pc as nat,
            pc as nat,
            *adv,
        );
        let mut v: Vec<StatementExtraInfo> = Vec::new();
        let mut acc: usize = 0;
        let mut k: usize = 0;
        assert(0 * max@ == 0);
        while k < segs
            invariant
                k <= segs,
                segs == num_segs(len as nat, max@),
                max@ > 0,
                wi < usize::MAX,
                wi < adv.vec_r@.len(),
                wi < adv.vec_v@.len(),
                wi < adv.rands@.len(),
                sizes@ == seg_sizes(len as nat, max@),
                k < segs ==> acc == k * max@,
                target == word_steps(
                    total_words as nat,
                    wi as nat,
                    len as nat,
                    max@,
                    n_circ as nat,
                    prev_pc as nat,
                    pc as nat,
                    *adv,
                ),
                v@ == target.take(k as int),
            decreases segs - k,
        {
            proof {
                lemma_segment_bounds(len as nat, max@, k as nat);
            }
            let size = sizes[k];
            assert(size == seg_end(len as nat, max@, k as nat) - k * max@);
            acc = acc + size;
            let pc_i = if k == 0 {
                prev_pc
            } else {
                pc
            };
            v.push(
                StatementExtraInfo {
                    total_words: low32_element(total_words),
                    word_id: low32_element(wi + 1),
                    subseg_id: low32_element(k + 1),
                    total_word_len: low32_element(len),
                    total_word_segs: low32_element(segs),
                    n_circ: low32_element(n_circ),
                    pc_i: low32_element(pc_i),
                    pc_i1: low32_element(pc),
                    act_word_subseg_size: low32_element(size),
                    batch_r: adv.vec_r[wi],
                    batch_v: adv.vec_v[wi],
                    r_all_words: adv.r_all_words,
                    r_kzg_len: adv.r_kzg_len,
                    r_vec_r: adv.r_vec_r_kzg,
                    r_vec_v: adv.r_vec_v_kzg,
                    r_word_i: adv.rands[wi],
                    accumulated_word_len: low32_element(acc),
                },
            );
            assert(v@ =~= target.take(k + 1));
            k = k + 1;
        }
        assert(v@ =~= target);
        v
    }

    /// Plans the words: which circuit proves each, and the steps. The error is what the
    /// first word that no circuit can handle lacks of the last circuit.
    pub fn plan_steps<A, I>(&self, words: &Vec<Vec<Fr>>, infos: &Vec<WordInfo<I>>, adv: &SnarkAdvice) -> (r: Result<
        (Vec<StatementExtraInfo>, Vec<usize>),
        Error,
    >) where M: GadgetMapper<A, I>
        requires
            self.wf::<A, I>(),
            words@.len() == infos@.len(),
            adv.vec_r@.len() == words@.len(),
            adv.vec_v@.len() == words@.len(),
            adv.rands@.len() == words@.len(),
        ensures
            match r {
                Ok((steps, pcs)) => {
                    &&& self.pcs::<A, I>(rows(words@), infos@, words@.len()) == Ok::<Seq<usize>, ErrorView>(pcs@)
                    &&& steps@ == self.steps::<A, I>(rows(words@), infos@, *adv, words@.len())
                },
                Err(e) => self.pcs::<A, I>(rows(words@), infos@, words@.len()) == Err::<Seq<usize>, ErrorView>(e@),
            },
    {
        let ghost all = rows(words@);
        let ghost max = self.planner.circ(0).max_len();
        let n_circ = self.planner.layered_circs.len();
        let total_words = words.len();
        let mut steps: Vec<StatementExtraInfo> = Vec::new();
        let mut pcs: Vec<usize> = Vec::new();
        let mut i: usize = 0;
        while i < total_words
            invariant
                i <= total_words,
                total_words == words@.len(),
                words@.len() == infos@.len(),
                adv.vec_r@.len() == words@.len(),
                adv.vec_v@.len() == words@.len(),
                adv.rands@.len() == words@.len(),
                self.wf::<A, I>(),
                all == rows(words@),
                max == self.planner.circ(0).max_len(),
                n_circ == self.planner.layered_circs@.len(),
                self.pcs::<A, I>(all, infos@, i as nat) == Ok::<Seq<usize>, ErrorView>(pcs@),
                steps@ == self.steps::<A, I>(all, infos@, *adv, i as nat),
            decreases total_words - i,
        {
            let word = &words[i];
            assert(all[i as int] == word@);
            match self.planner.par_search_best_layer(false, word, &infos[i], 0, n_circ - 1) {
                Err(e) => {
                    proof {
                        lemma_pcs_err::<A, I, M>(*self, all, infos@, (i + 1) as nat, words@.len());
                    }
                    return Err(e);
                },
                Ok(p) => {
                    assert(self.planner.circ(p.layer as int).max_len() == max);
                    let prev_pc: usize = if pcs.len() == 0 {
                        0
                    } else {
                        pcs[pcs.len() - 1]
                    };
                    let more = Driver::<M>::build_word_steps(
                        total_words,
                        i,
                        word.len(),
                        Ghost(max),
                        n_circ,
                        prev_pc,
                        p.layer,
                        adv,
                        &p.vec_size,
                    );
                    crate::vecs::push_all(&mut steps, &more);
                    crate::vecs::push_all(&mut pcs, &p.vec_pci);
                    assert(self.pcs::<A, I>(all, infos@, (i + 1) as nat) == Ok::<Seq<usize>, ErrorView>(pcs@));
                },
            }
            i = i + 1;
        }
        Ok((steps, pcs))
    }
}

/// Where the first words already have none, the whole has no plan either.
proof fn lemma_pcs_err<A, I, M: GadgetMapper<A, I>>(
    d: Driver<M>,
    words: Seq<Seq<Fr>>,
    infos: Seq<WordInfo<I>>,
    k: nat,
    n: nat,
)
    requires
        k <= n,
        d.pcs::<A, I>(words, infos, k) is Err,
    ensures
        d.pcs::<A, I>(words, infos, n) == d.pcs::<A, I>(words, infos, k),
    decreases n,
{
    if k < n {
        lemma_pcs_err::<A, I, M>(d, words, infos, k, (n - 1) as nat);
    }
}

/// The steps of the words and their circuits belong together: there are as many steps
/// as circuits, each step is by its circuit and folds the instance of the circuit of the
/// step before; the first folds that of the circuit zero.
pub open spec fn chained_steps(steps: Seq<StatementExtraInfo>, pcs: Seq<usize>, n_circ: nat) -> bool {
    &&& steps.len() == pcs.len()
    &&& forall|k: int|
        0 <= k < steps.len() ==> {
            &&& (#[trigger] steps[k]).pc_i1 == low32(pcs[k] as nat)
            &&& pcs[k] < n_circ
            &&& steps[k].pc_i == low32(if k == 0 { 0 } else { pcs[k - 1] as nat })
        }
}

/// The steps that are planned for words are chained.
pub proof fn law_planned_steps_are_chained<A, I, M: GadgetMapper<A, I>>(
    d: Driver<M>,
    words: Seq<Seq<Fr>>,
    infos: Seq<WordInfo<I>>,
    adv: SnarkAdvice,
    n: nat,
)
    requires
        d.wf::<A, I>(),
        n <= words.len(),
        d.pcs::<A, I>(words, infos, n) is Ok,
    ensures
        chained_steps(
            d.steps::<A, I>(words, infos, adv, n),
            d.pcs::<A, I>(words, infos, n)->Ok_0,
            d.n_circ(),
        ),
        d.pcs::<A, I>(words, infos, n)->Ok_0.len() == total_segs(words, d.planner.circ(0).max_len(), n),
    decreases n,
{
    if n > 0 {
        law_planned_steps_are_chained::<A, I, M>(d, words, infos, adv, (n - 1) as nat);
        law_first_working_is_lowest::<A, I, M>(d.planner, words[n - 1], infos[n - 1], 0, d.n_circ() - 1);
        let before = d.pcs::<A, I>(words, infos, (n - 1) as nat)->Ok_0;
        let pcs = d.pcs::<A, I>(words, infos, n)->Ok_0;
        let old_steps = d.steps::<A, I>(words, infos, adv, (n - 1) as nat);
        let steps = d.steps::<A, I>(words, infos, adv, n);
        let pc = d.pc_of::<A, I>(words[n - 1], infos[n - 1])->0;
        let segs = num_segs(words[n - 1].len(), d.planner.circ(0).max_len());
        let new_pcs = Seq::new(segs, |k: int| pc as usize);
        assert(pcs == before + new_pcs);
        assert forall|k: int| 0 <= k < steps.len() implies {
            &&& (#[trigger] steps[k]).pc_i1 == low32(pcs[k] as nat)
            &&& pcs[k] < d.n_circ()
            &&& steps[k].pc_i == low32(if k == 0 { 0 } else { pcs[k - 1] as nat })
        } by {
            if k < before.len() {
                assert(steps[k] == old_steps[k]);
                assert(pcs[k] == before[k]);
            } else {
                let j = k - before.len();
                assert(pcs[k] == pc as usize);
                if j > 0 {
                    assert(pcs[k - 1] == pc as usize);
                } else if k > 0 {
                    assert(pcs[k - 1] == before.last());
                }
            }
        }
    }
}

/// A later step's share begins no earlier.
pub proof fn lemma_covered_grows(share: Seq<usize>, pcs: Seq<usize>, k: nat, n: nat)
    requires
        k <= n,
    ensures
        covered(share, pcs, k) <= covered(share, pcs, n),
    decreases n,
{
    if k < n {
        lemma_covered_grows(share, pcs, k, (n - 1) as nat);
    }
}

impl<M> Driver<M> {
    /// Where each step's share of the lookup table begins, and where the last one ends.
    pub fn lookup_starts(&self, pcs: &Vec<usize>) -> (r: (Vec<usize>, usize))
        requires
            forall|k: int| 0 <= k < pcs@.len() ==> (#[trigger] pcs@[k]) < self.lk_share@.len(),
            covered(self.lk_share@, pcs@, pcs@.len()) <= usize::MAX,
        ensures
            r.0@ == Seq::new(pcs@.len(), |k: int| covered(self.lk_share@, pcs@, k as nat) as usize),
            r.1 == covered(self.lk_share@, pcs@, pcs@.len()),
    {
        let ghost target = Seq::new(pcs@.len(), |k: int| covered(self.lk_share@, pcs@, k as nat) as usize);
        let mut starts: Vec<usize> = Vec::new();
        let mut at: usize = 0;
        let mut k: usize = 0;
        while k < pcs.len()
            invariant
                k <= pcs@.len(),
                forall|j: int| 0 <= j < pcs@.len() ==> (#[trigger] pcs@[j]) < self.lk_share@.len(),
                covered(self.lk_share@, pcs@, pcs@.len()) <= usize::MAX,
                at == covered(self.lk_share@, pcs@, k as nat),
                target == Seq::new(pcs@.len(), |j: int| covered(self.lk_share@, pcs@, j as nat) as usize),
                starts@ == target.take(k as int),
            decreases pcs.len() - k,
        {
            assert(pcs@[k as int] < self.lk_share@.len());
            starts.push(at);
            proof {
                lemma_covered_grows(self.lk_share@, pcs@, (k + 1) as nat, pcs@.len());
            }
            at = at + self.lk_share[pcs[k]];
            assert(starts@ =~= target.take(k + 1));
            k = k + 1;
        }
        assert(starts@ =~= target);
        (starts, at)
    }

    /// Whether the machine's integers reach to the end of the last share.
    pub(crate) fn check_shares(&self, pcs: &Vec<usize>) -> (b: bool)
        requires
            forall|k: int| 0 <= k < pcs@.len() ==> (#[trigger] pcs@[k]) < self.lk_share@.len(),
        ensures
            b == (covered(self.lk_share@, pcs@, pcs@.len()) <= usize::MAX),
    {
        let mut at: usize = 0;
        let mut k: usize = 0;
        while k < pcs.len()
            invariant
                k <= pcs@.len(),
                forall|j: int| 0 <= j < pcs@.len() ==> (#[trigger] pcs@[j]) < self.lk_share@.len(),
                at == covered(self.lk_share@, pcs@, k as nat),
            decreases pcs.len() - k,
        {
            assert(pcs@[k as int] < self.lk_share@.len());
            let share = self.lk_share[pcs[k]];
            if usize::MAX - at < share {
                proof {
                    lemma_covered_grows(self.lk_share@, pcs@, (k + 1) as nat, pcs@.len());
                }
                return false;
            }
            at = at + share;
            k = k + 1;
        }
        true
    }

    /// Whether the steps take the whole lookup table, where they have to.
    pub open spec fn table_covered(&self, pcs: Seq<usize>) -> bool {
        self.b_check_lkup ==> covered(self.lk_share@, pcs, pcs.len()) >= self.lk_col1@.len()
    }

    /// Whether the steps take the whole lookup table, where they have to.
    pub(crate) fn check_covered(&self, pcs: &Vec<usize>) -> (b: bool)
        requires
            forall|k: int| 0 <= k < pcs@.len() ==> (#[trigger] pcs@[k]) < self.lk_share@.len(),
        ensures
            b == self.table_covered(pcs@),
    {
        let mut left: usize = self.lk_col1.len();
        let mut k: usize = 0;
        while k < pcs.len()
            invariant
                k <= pcs@.len(),
                forall|j: int| 0 <= j < pcs@.len() ==> (#[trigger] pcs@[j]) < self.lk_share@.len(),
                left == 0 ==> covered(self.lk_share@, pcs@, k as nat) >= self.lk_col1@.len(),
                left > 0 ==> left == self.lk_col1@.len() - covered(self.lk_share@, pcs@, k as nat),
            decreases pcs.len() - k,
        {
            assert(pcs@[k as int] < self.lk_share@.len());
            let share = self.lk_share[pcs[k]];
            left = if left > share {
                left - share
            } else {
                0
            };
            k = k + 1;
        }
        !self.b_check_lkup || left == 0
    }
}

/// What a run is set up with.
pub struct RunSetup<CS1: CommitmentScheme<Fr, G1>, CS2: CommitmentScheme<Fq, Grumpkin>> {
    pub circuits: Vec<StepCircuit<CS1>>,
    pub hiding: bool,
    pub cf: PairContext<CS2>,
    pub cp: PairContext<CS2>,
    pub pp_hash: Fr,
}

impl<CS1: CommitmentScheme<Fr, G1>, CS2: CommitmentScheme<Fq, Grumpkin>> RunSetup<CS1, CS2> {
    /// Whether the sizes fit together.
    pub open spec fn wf(&self, full: bool) -> bool {
        let x_len: nat = if full { 3 } else { 2 };
        &&& 0 < self.circuits@.len() <= u32::MAX
        &&& forall|k: int| 0 <= k < self.circuits@.len() ==> (#[trigger] self.circuits@[k]).wf(x_len)
        &&& self.cf.r1cs.wf()
        &&& self.cf.r1cs.l == CF_IO_LEN
        &&& self.cp.r1cs.wf()
        &&& self.cp.r1cs.l == CP_IO_LEN
    }

    /// Whether a step's input has the sizes for the circuit `pc`.
    pub open spec fn takes(&self, full: bool, pc: int, inp: SuperInputView) -> bool {
        let cf_w_len = (self.cf.r1cs.a.n_cols - 1 - self.cf.r1cs.l) as nat;
        &&& inp.w.len() == self.circuits@[pc].w_len()
        &&& inp.x.len() == (if full { 3nat } else { 2nat })
        &&& inp.cf.wf(cf_w_len)
        &&& full ==> {
            &&& inp.cp.w.len() == (self.cp.r1cs.a.n_cols - 1 - self.cp.r1cs.l) as nat
            &&& inp.next_part2.cyclepair_input is Some
            &&& inp.next_part2.cyclepair_input->0.len() == CYCLEPAIR_INPUT_LEN
        }
    }
}

/// The computation with another circuit for its next step.
pub open spec fn with_pc<CS1: CommitmentScheme<Fr, G1>, CS2: CommitmentScheme<Fq, Grumpkin>>(
    f: FoldPotSuper<CS1, CS2>,
    pc: Fr,
) -> FoldPotSuper<CS1, CS2> {
    FoldPotSuper { pc_i1: pc, ..f }
}

/// A step by the circuit `pc`.
#[verifier::opaque]
pub open spec fn step_at<CS1: CommitmentScheme<Fr, G1>, CS2: CommitmentScheme<Fq, Grumpkin>>(
    f: FoldPotSuper<CS1, CS2>,
    pc: nat,
    st: SuperStateView,
    inp: SuperInputView,
) -> (SuperStateView, Result<(), ErrorView>) {
    with_pc(f, Fr::of(pc)).step_spec(st, inp)
}

/// Whether a step can be taken: the sizes fit together, and the state tells its second
/// part.
#[verifier::opaque]
pub open spec fn ready<CS1: CommitmentScheme<Fr, G1>, CS2: CommitmentScheme<Fq, Grumpkin>>(
    f: FoldPotSuper<CS1, CS2>,
) -> bool {
    &&& f.wf()
    &&& f.state.z_i@[1] == f.state@.zi_part2_inst.hash(f.poseidon_config@)
}

/// What the first `n` steps by the circuits `pcs` on the given inputs lead to, and the
/// first error.
pub open spec fn run<CS1: CommitmentScheme<Fr, G1>, CS2: CommitmentScheme<Fq, Grumpkin>>(
    f: FoldPotSuper<CS1, CS2>,
    st: SuperStateView,
    pcs: Seq<usize>,
    inputs: Seq<SuperInput>,
    n: nat,
) -> (SuperStateView, Result<(), ErrorView>)
    decreases n,
{
    if n == 0 {
        (st, Ok(()))
    } else {
        let before = run(f, st, pcs, inputs, (n - 1) as nat);
        if before.1 is Err {
            before
        } else {
            step_at(f, pcs[n - 1] as nat, before.0, inputs[n - 1]@)
        }
    }
}

/// Where the first steps already fail, the whole ends there.
proof fn lemma_run_err<CS1: CommitmentScheme<Fr, G1>, CS2: CommitmentScheme<Fq, Grumpkin>>(
    f: FoldPotSuper<CS1, CS2>,
    st: SuperStateView,
    pcs: Seq<usize>,
    inputs: Seq<SuperInput>,
    k: nat,
    n: nat,
)
    requires
        k <= n,
        run(f, st, pcs, inputs, k).1 is Err,
    ensures
        run(f, st, pcs, inputs, n) == run(f, st, pcs, inputs, k),
    decreases n,
{
    if k < n {
        lemma_run_err(f, st, pcs, inputs, k, (n - 1) as nat);
    }
}

/// What a run gives: the computation, the proofs of the claims where pairings are not
/// folded, and the number of steps.
pub struct RunResult<CS1: CommitmentScheme<Fr, G1>, CS2: CommitmentScheme<Fq, Grumpkin>, P> {
    pub nova: FoldPotSuper<CS1, CS2>,
    pub num_steps: usize,
    pub proofs: Option<(BatchProof, IndividualProof<P>)>,
}

impl<M> Driver<M> {
    /// The first state of a run: the last link of the chain of the fixed memory
    /// commitments, and the digest of the second part.
    pub open spec fn z_0(&self, hash_cm_f: Fr, ch: Fr, rc: Fr, n_words: nat) -> Seq<Fr> {
        seq![
            hash_cm_f,
            PartTwoView::new(ch, rc, self.b_full_mode, n_words).hash(self.poseidon_config@),
        ]
    }

    /// The first state of a run.
    pub open spec fn first_state<CS1: CommitmentScheme<Fr, G1>, CS2: CommitmentScheme<Fq, Grumpkin>>(
        &self,
        setup: RunSetup<CS1, CS2>,
        hash_cm_f: Fr,
        ch: Fr,
        rc: Fr,
        n_words: nat,
    ) -> SuperStateView {
        FoldPotSuper::<CS1, CS2>::first_state(
            setup.circuits@,
            setup.cf.r1cs,
            setup.cp.r1cs,
            self.b_full_mode,
            self.z_0(hash_cm_f, ch, rc, n_words),
            PartTwoView::new(ch, rc, self.b_full_mode, n_words),
            0,
        )
    }

    /// Whether the computation is set up as told.
    pub open spec fn started<CS1: CommitmentScheme<Fr, G1>, CS2: CommitmentScheme<Fq, Grumpkin>>(
        &self,
        setup: RunSetup<CS1, CS2>,
        z_0: Seq<Fr>,
        f: FoldPotSuper<CS1, CS2>,
    ) -> bool {
        &&& f.circuits == setup.circuits
        &&& f.poseidon_config@ == self.poseidon_config@
        &&& f.hiding == setup.hiding
        &&& f.cf == setup.cf
        &&& f.cp == setup.cp
        &&& f.pp_hash == setup.pp_hash
        &&& f.z_0@ == z_0
        &&& f.b_full_mode == self.b_full_mode
    }

    /// Proves the steps one after the other, by the circuits `pcs`, from the state that
    /// belongs to the chain of the fixed memory commitments and the challenges.
    pub fn prove_steps<CS1: CommitmentScheme<Fr, G1>, CS2: CommitmentScheme<Fq, Grumpkin>>(
        &self,
        setup: RunSetup<CS1, CS2>,
        n_words: usize,
        hash_cm_f: &Fr,
        ch: &Fr,
        rc: &Fr,
        pcs: &Vec<usize>,
        inputs: &Vec<SuperInput>,
    ) -> (r: Result<FoldPotSuper<CS1, CS2>, Error>)
        requires
            setup.wf(self.b_full_mode),
            self.poseidon_config@.wf(),
            pcs@.len() == inputs@.len(),
            forall|k: int|
                0 <= k < pcs@.len() ==> (#[trigger] pcs@[k]) < setup.circuits@.len() && setup.takes(
                    self.b_full_mode,
                    pcs@[k] as int,
                    inputs@[k]@,
                ),
        ensures
            match r {
                Ok(f) => {
                    let st = self.first_state(setup, *hash_cm_f, *ch, *rc, n_words as nat);
                    &&& self.started(setup, self.z_0(*hash_cm_f, *ch, *rc, n_words as nat), f)
                    &&& f.wf()
                    &&& run(f, st, pcs@, inputs@, pcs@.len()) == (f.state@, Ok::<(), ErrorView>(()))
                },
                Err(e) => {
                    let st = self.first_state(setup, *hash_cm_f, *ch, *rc, n_words as nat);
                    exists|f: FoldPotSuper<CS1, CS2>| #[trigger]
                        self.started(setup, self.z_0(*hash_cm_f, *ch, *rc, n_words as nat), f) && run(
                            f,
                            st,
                            pcs@,
                            inputs@,
                            pcs@.len(),
                        ).1 == Err::<(), ErrorView>(e@)
                },
            },
    {
        let ghost setup0 = setup;
        let mut nova = self.start(setup, n_words, hash_cm_f, ch, rc);
        let ghost f0 = nova;
        let ghost st0 = nova.state@;
        let mut k: usize = 0;
        while k < pcs.len()
            invariant
                k <= pcs@.len(),
                setup0 == setup,
                pcs@.len() == inputs@.len(),
                forall|j: int|
                    0 <= j < pcs@.len() ==> (#[trigger] pcs@[j]) < setup0.circuits@.len() && setup0.takes(
                        self.b_full_mode,
                        pcs@[j] as int,
                        inputs@[j]@,
                    ),
                nova == (FoldPotSuper { state: nova.state, pc_i1: nova.pc_i1, ..f0 }),
                self.started(setup0, self.z_0(*hash_cm_f, *ch, *rc, n_words as nat), f0),
                st0 == self.first_state(setup0, *hash_cm_f, *ch, *rc, n_words as nat),
                ready(nova),
                run(f0, st0, pcs@, inputs@, k as nat) == (nova.state@, Ok::<(), ErrorView>(())),
            decreases pcs.len() - k,
        {
            assert(pcs@[k as int] < setup0.circuits@.len());
            let ghost before = nova;
            proof {
                Fr::lemma_val_of(pcs@[k as int] as nat);
            }
            let res = step_with(&mut nova, pcs[k], &inputs[k]);
            proof {
                lemma_step_same(f0, before, pcs@[k as int] as nat, before.state@, inputs@[k as int]@);
            }
            match res {
                Err(e) => {
                    proof {
                        lemma_run_err(f0, st0, pcs@, inputs@, (k + 1) as nat, pcs@.len());
                    }
                    return Err(e);
                },
                Ok(_) => {},
            }
            k = k + 1;
        }
        proof {
            lemma_run_same(f0, nova, st0, pcs@, inputs@, pcs@.len());
            reveal(ready);
        }
        Ok(nova)
    }

    /// The computation before its first step.
    pub fn start<CS1: CommitmentScheme<Fr, G1>, CS2: CommitmentScheme<Fq, Grumpkin>>(
        &self,
        setup: RunSetup<CS1, CS2>,
        n_words: usize,
        hash_cm_f: &Fr,
        ch: &Fr,
        rc: &Fr,
    ) -> (f: FoldPotSuper<CS1, CS2>)
        requires
            setup.wf(self.b_full_mode),
            self.poseidon_config@.wf(),
        ensures
            self.started(setup, self.z_0(*hash_cm_f, *ch, *rc, n_words as nat), f),
            f.state@ == self.first_state(setup, *hash_cm_f, *ch, *rc, n_words as nat),
            ready(f),
    {
        let part2 = ZiPartTwoInst::new(ch, rc, self.b_full_mode, n_words);
        let mut z_0: Vec<Fr> = Vec::new();
        z_0.push(*hash_cm_f);
        z_0.push(part2.hash(&self.poseidon_config));
        assert(z_0@ =~= self.z_0(*hash_cm_f, *ch, *rc, n_words as nat));
        let nova = FoldPotSuper::init_adv(
            setup.circuits,
            self.poseidon_config.clone(),
            setup.hiding,
            setup.cf,
            setup.cp,
            &setup.pp_hash,
            &z_0,
            0,
            self.b_full_mode,
            ch,
            rc,
            n_words,
        );
        proof {
            reveal(ready);
        }
        nova
    }
}

/// Takes a step by the circuit `pc`.
pub fn step_with<CS1: CommitmentScheme<Fr, G1>, CS2: CommitmentScheme<Fq, Grumpkin>>(
    nova: &mut FoldPotSuper<CS1, CS2>,
    pc: usize,
    inp: &SuperInput,
) -> (r: Result<(), Error>)
    requires
        ready(*old(nova)),
        pc < old(nova).circuits@.len(),
        with_pc(*old(nova), Fr::of(pc as nat)).input_wf(inp@),
    ensures
        *final(nova) == (FoldPotSuper { state: final(nova).state, pc_i1: final(nova).pc_i1, ..*old(nova) }),
        (final(nova).state@, outcome(r)) == step_at(*old(nova), pc as nat, old(nova).state@, inp@),
        r is Ok ==> ready(*final(nova)),
{
    proof {
        reveal(ready);
        reveal(step_at);
    }
    nova.pc_i1 = Fr::from_u64(pc as u64);
    let ghost before = *nova;
    proof {
        lemma_wf_ignores_pc(*old(nova), before);
        lemma_step_ignores_state(*old(nova), before, Fr::of(pc as nat), before.state@, inp@);
    }
    nova.prove_step(inp)
}

/// Which circuit comes next has no part in whether the sizes fit together.
proof fn lemma_wf_ignores_pc<CS1: CommitmentScheme<Fr, G1>, CS2: CommitmentScheme<Fq, Grumpkin>>(
    f: FoldPotSuper<CS1, CS2>,
    g: FoldPotSuper<CS1, CS2>,
)
    requires
        f.wf(),
        g == with_pc(f, g.pc_i1),
        g.pc_i1.val() < f.circuits@.len(),
    ensures
        g.wf(),
{
    let st = f.state@;
    assert(g.last(st) == f.last(st));
    assert(g.x_len() == f.x_len());
    assert(g.sponge() == f.sponge());
    assert(g.cf_state(st) == f.cf_state(st));
}

/// A step depends on the setup, not on the state or circuit that the computation holds.
proof fn lemma_step_same<CS1: CommitmentScheme<Fr, G1>, CS2: CommitmentScheme<Fq, Grumpkin>>(
    f: FoldPotSuper<CS1, CS2>,
    g: FoldPotSuper<CS1, CS2>,
    pc: nat,
    st: SuperStateView,
    inp: SuperInputView,
)
    requires
        g == (FoldPotSuper { state: g.state, pc_i1: g.pc_i1, ..f }),
    ensures
        step_at(f, pc, st, inp) == step_at(g, pc, st, inp),
{
    reveal(step_at);
    lemma_step_ignores_state(f, with_pc(g, Fr::of(pc)), Fr::of(pc), st, inp);
}

/// A step depends on the setup, not on the state that the computation holds.
proof fn lemma_step_ignores_state<CS1: CommitmentScheme<Fr, G1>, CS2: CommitmentScheme<Fq, Grumpkin>>(
    f: FoldPotSuper<CS1, CS2>,
    g: FoldPotSuper<CS1, CS2>,
    pc: Fr,
    st: SuperStateView,
    inp: SuperInputView,
)
    requires
        g == (FoldPotSuper { state: g.state, pc_i1: pc, ..f }),
    ensures
        with_pc(f, pc).step_spec(st, inp) == g.step_spec(st, inp),
{
}

/// The run depends on the setup, not on the state or circuit that the computation holds.
proof fn lemma_run_same<CS1: CommitmentScheme<Fr, G1>, CS2: CommitmentScheme<Fq, Grumpkin>>(
    f: FoldPotSuper<CS1, CS2>,
    g: FoldPotSuper<CS1, CS2>,
    st: SuperStateView,
    pcs: Seq<usize>,
    inputs: Seq<SuperInput>,
    n: nat,
)
    requires
        g == (FoldPotSuper { state: g.state, pc_i1: g.pc_i1, ..f }),
    ensures
        run(f, st, pcs, inputs, n) == run(g, st, pcs, inputs, n),
    decreases n,
{
    if n > 0 {
        lemma_run_same(f, g, st, pcs, inputs, (n - 1) as nat);
        let s = run(f, st, pcs, inputs, (n - 1) as nat).0;
        lemma_step_same(f, g, pcs[n - 1] as nat, s, inputs[n - 1]@);
    }
}

} // verus!
