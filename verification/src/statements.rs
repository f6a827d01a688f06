//! The statements of the steps: built from the words' segments, with the shares of the
//! lookup table, and the fixed memories that belong to them.
use vstd::prelude::*;
use crate::capacity_planner::law_first_working_is_lowest;
use crate::capacity_planner::lemma_advices_len;
use crate::capacity_planner::lemma_no_segments;
use crate::capacity_planner::num_segs;
use crate::capacity_planner::seg_end;
use crate::capacity_planner::seg_sizes;
use crate::capacity_planner::segment;
use crate::capacity_planner::word_advices;
use crate::capacity_planner::lemma_segment_bounds;
use crate::capacity_planner::Count;
use crate::capacity_planner::GadgetMapper;
use crate::capacity_planner::WordInfo;
use crate::commitment::Elements;
use crate::curve::G1;
use crate::driver::Driver;
use crate::error::outcome;
use crate::error::Error;
use crate::error::ErrorView;
use crate::field_fr::Fr;
use crate::statement::StatementExtraInfo;
use crate::vecs::copy_range;
use crate::vecs::filled;
use crate::vecs::push_all;
use crate::vecs::rows;

verus! {

/// A result of a statement's elements as mathematical data.
pub open spec fn elements_outcome(r: Result<Vec<Fr>, Error>) -> Result<Seq<Fr>, ErrorView> {
    match r {
        Ok(v) => Ok(v@),
        Err(e) => Err(e@),
    }
}

/// A statement that may be there, as mathematical data.
pub open spec fn opt_view(p: Option<&Vec<Fr>>) -> Option<Seq<Fr>> {
    match p {
        Some(v) => Some(v@),
        None => None,
    }
}

/// A circuit's side that builds the statements of its steps. A statement is given by its
/// elements, in the order in which the step takes them as external inputs.
pub trait StatementMapper<A, I>: GadgetMapper<A, I> {
    /// The statement for a segment, or why there is none.
    spec fn statement(
        &self,
        seg: Elements<Fr>,
        prev: Option<Elements<Fr>>,
        lk_col1: Elements<Fr>,
        lk_col2: Elements<Fr>,
        ea: StatementExtraInfo,
        advice: A,
        share: Count,
    ) -> Result<Elements<Fr>, ErrorView>;

    /// The places of the lookup table that the statement looks up, each as often as it
    /// does.
    spec fn lookups(&self, stmt: Elements<Fr>, lk_col1: Elements<Fr>, lk_col2: Elements<Fr>) -> Elements<usize>;

    /// The statement with its share of the lookup table, which begins at `start`, and
    /// with how often each place of that share is looked up.
    spec fn with_share(
        &self,
        stmt: Elements<Fr>,
        start: Count,
        lk_col1: Elements<Fr>,
        lk_col2: Elements<Fr>,
        counts: Elements<usize>,
    ) -> Elements<Fr>;

    /// The commitment to the fixed memory of the step with the statement.
    spec fn memory(&self, stmt: Elements<Fr>) -> Result<G1, ErrorView>;

    /// The statement for a segment with its advice, after the statement `prev` for the
    /// segment before.
    fn build_statement(
        &self,
        seg: &Vec<Fr>,
        prev: Option<&Vec<Fr>>,
        lk_col1: &Vec<Fr>,
        lk_col2: &Vec<Fr>,
        ea: &StatementExtraInfo,
        advice: &A,
        share: usize,
    ) -> (r: Result<Vec<Fr>, Error>)
        ensures
            elements_outcome(r) == self.statement(
                seg@,
                opt_view(prev),
                lk_col1@,
                lk_col2@,
                *ea,
                *advice,
                share as nat,
            ),
    ;

    fn list_lookups(&self, stmt: &Vec<Fr>, lk_col1: &Vec<Fr>, lk_col2: &Vec<Fr>) -> (r: Vec<usize>)
        ensures
            r@ == self.lookups(stmt@, lk_col1@, lk_col2@),
    ;

    fn update_lookup(
        &self,
        stmt: &Vec<Fr>,
        start: usize,
        lk_col1: &Vec<Fr>,
        lk_col2: &Vec<Fr>,
        counts: &Vec<usize>,
    ) -> (r: Vec<Fr>)
        ensures
            r@ == self.with_share(stmt@, start as nat, lk_col1@, lk_col2@, counts@),
    ;

    fn gen_cm_f(&self, stmt: &Vec<Fr>) -> (r: Result<G1, Error>)
        ensures
            outcome(r) == self.memory(stmt@),
    ;
}

/// How often `p` is in `s`.
pub open spec fn occurrences(s: Seq<usize>, p: int) -> nat
    decreases s.len(),
{
    if s.len() == 0 {
        0
    } else {
        occurrences(s.drop_last(), p) + (if s.last() == p {
            1nat
        } else {
            0
        })
    }
}

/// How often each place below `n` is in `s`.
pub open spec fn multiplicities(s: Seq<usize>, n: nat) -> Seq<usize> {
    Seq::new(n, |p: int| occurrences(s, p) as usize)
}

proof fn lemma_occurrences_bound(s: Seq<usize>, p: int)
    ensures
        occurrences(s, p) <= s.len(),
    decreases s.len(),
{
    if s.len() > 0 {
        lemma_occurrences_bound(s.drop_last(), p);
    }
}

/// How often each place below `n` is in `s`.
pub fn count_places(s: &Vec<usize>, n: usize) -> (counts: Vec<usize>)
    ensures
        counts@ == multiplicities(s@, n as nat),
{
    let mut counts: Vec<usize> = filled(0, n);
    let len = s.len();
    let mut i: usize = 0;
    assert(s@.take(0) =~= Seq::empty());
    assert(counts@ =~= multiplicities(s@.take(0), n as nat));
    while i < len
        invariant
            i <= len,
            len == s@.len(),
            counts@ == multiplicities(s@.take(i as int), n as nat),
        decreases len - i,
    {
        let p = s[i];
        assert(s@.take(i + 1).drop_last() =~= s@.take(i as int));
        proof {
            lemma_occurrences_bound(s@.take(i as int), p as int);
        }
        if p < n {
            let c = counts[p];
            counts.set(p, c + 1);
        }
        assert(counts@ =~= multiplicities(s@.take(i + 1), n as nat));
        i = i + 1;
    }
    assert(s@.take(i as int) =~= s@);
    counts
}

impl<M> Driver<M> {
    /// The statements of the first `n` segments of a word with the circuit `pc`, whose
    /// first step is `base`: as they are built, or with the shares of the lookup table
    /// that begin at the given places and the given counts. Each is built after the one
    /// before. Where one cannot be built, why.
    pub open spec fn word_statements<A, I>(
        &self,
        pc: int,
        word: Seq<Fr>,
        info: WordInfo<I>,
        steps: Seq<StatementExtraInfo>,
        base: int,
        shared: Option<(Seq<usize>, Seq<usize>)>,
        n: nat,
    ) -> Result<Seq<Seq<Fr>>, ErrorView> where M: StatementMapper<A, I>
        decreases n,
    {
        if n == 0 {
            Ok(Seq::empty())
        } else {
            match self.word_statements::<A, I>(pc, word, info, steps, base, shared, (n - 1) as nat) {
                Err(e) => Err(e),
                Ok(before) => {
                    let k = n - 1;
                    let m = self.planner.circ(pc);
                    let built = m.statement(
                        segment(word, m.max_len(), k as nat),
                        if k == 0 {
                            None
                        } else {
                            Some(before.last())
                        },
                        self.lk_col1@,
                        self.lk_col2@,
                        steps[base + k],
                        word_advices::<A, I, M>(m, false, word, info)->Ok_0[k],
                        self.lk_share@[pc] as nat,
                    );
                    match built {
                        Err(e) => Err(e),
                        Ok(stmt) => Ok(
                            before.push(
                                match shared {
                                    None => stmt,
                                    Some((starts, counts)) => self.share_out::<A, I>(
                                        pc,
                                        stmt,
                                        starts[base + k] as int,
                                        counts,
                                    ),
                                },
                            ),
                        ),
                    }
                },
            }
        }
    }

    /// The statement of a step of the circuit `pc` with its share of the lookup table.
    pub open spec fn share_out<A, I>(&self, pc: int, stmt: Seq<Fr>, start: int, counts: Seq<usize>) -> Seq<Fr> where
        M: StatementMapper<A, I>,
     {
        self.planner.circ(pc).with_share(
            stmt,
            start as nat,
            self.lk_col1@,
            self.lk_col2@,
            counts.subrange(start, start + self.lk_share@[pc]),
        )
    }

    /// The statements of the steps of the first `n` words, where each has a circuit.
    pub open spec fn statements<A, I>(
        &self,
        words: Seq<Seq<Fr>>,
        infos: Seq<WordInfo<I>>,
        steps: Seq<StatementExtraInfo>,
        shared: Option<(Seq<usize>, Seq<usize>)>,
        n: nat,
    ) -> Result<Seq<Seq<Fr>>, ErrorView> where M: StatementMapper<A, I>
        decreases n,
    {
        if n == 0 {
            Ok(Seq::empty())
        } else {
            match self.statements::<A, I>(words, infos, steps, shared, (n - 1) as nat) {
                Err(e) => Err(e),
                Ok(before) => match self.word_statements::<A, I>(
                    self.pc_of::<A, I>(words[n - 1], infos[n - 1])->0,
                    words[n - 1],
                    infos[n - 1],
                    steps,
                    before.len() as int,
                    shared,
                    num_segs(words[n - 1].len(), self.planner.circ(0).max_len()),
                ) {
                    Err(e) => Err(e),
                    Ok(more) => Ok(before + more),
                },
            }
        }
    }

    /// The places of the lookup table that the first `n` statements look up.
    pub open spec fn looked_up<A, I>(&self, pcs: Seq<usize>, stmts: Seq<Seq<Fr>>, n: nat) -> Seq<usize> where
        M: StatementMapper<A, I>,

        decreases n,
    {
        if n == 0 {
            Seq::empty()
        } else {
            self.looked_up::<A, I>(pcs, stmts, (n - 1) as nat) + self.planner.circ(pcs[n - 1] as int).lookups(
                stmts[n - 1],
                self.lk_col1@,
                self.lk_col2@,
            )
        }
    }

    /// The commitments to the fixed memories of the first `n` steps.
    pub open spec fn memories<A, I>(&self, pcs: Seq<usize>, stmts: Seq<Seq<Fr>>, n: nat) -> Result<
        Seq<G1>,
        ErrorView,
    > where M: StatementMapper<A, I>
        decreases n,
    {
        if n == 0 {
            Ok(Seq::empty())
        } else {
            match self.memories::<A, I>(pcs, stmts, (n - 1) as nat) {
                Err(e) => Err(e),
                Ok(before) => match self.planner.circ(pcs[n - 1] as int).memory(stmts[n - 1]) {
                    Err(e) => Err(e),
                    Ok(cm) => Ok(before.push(cm)),
                },
            }
        }
    }
}

/// Where the first segments already have none, the whole word has no statements either.
proof fn lemma_word_statements_err<A, I, M: StatementMapper<A, I>>(
    d: Driver<M>,
    pc: int,
    word: Seq<Fr>,
    info: WordInfo<I>,
    steps: Seq<StatementExtraInfo>,
    base: int,
    shared: Option<(Seq<usize>, Seq<usize>)>,
    k: nat,
    n: nat,
)
    requires
        k <= n,
        d.word_statements::<A, I>(pc, word, info, steps, base, shared, k) is Err,
    ensures
        d.word_statements::<A, I>(pc, word, info, steps, base, shared, n) == d.word_statements::<A, I>(
            pc,
            word,
            info,
            steps,
            base,
            shared,
            k,
        ),
    decreases n,
{
    if k < n {
        lemma_word_statements_err::<A, I, M>(d, pc, word, info, steps, base, shared, k, (n - 1) as nat);
    }
}

/// Each segment has one statement.
proof fn lemma_word_statements_len<A, I, M: StatementMapper<A, I>>(
    d: Driver<M>,
    pc: int,
    word: Seq<Fr>,
    info: WordInfo<I>,
    steps: Seq<StatementExtraInfo>,
    base: int,
    shared: Option<(Seq<usize>, Seq<usize>)>,
    n: nat,
)
    ensures
        d.word_statements::<A, I>(pc, word, info, steps, base, shared, n) matches Ok(v) ==> v.len() == n,
    decreases n,
{
    if n > 0 {
        lemma_word_statements_len::<A, I, M>(d, pc, word, info, steps, base, shared, (n - 1) as nat);
    }
}

/// Where the first words already have none, the whole has no statements either.
proof fn lemma_statements_err<A, I, M: StatementMapper<A, I>>(
    d: Driver<M>,
    words: Seq<Seq<Fr>>,
    infos: Seq<WordInfo<I>>,
    steps: Seq<StatementExtraInfo>,
    shared: Option<(Seq<usize>, Seq<usize>)>,
    k: nat,
    n: nat,
)
    requires
        k <= n,
        d.statements::<A, I>(words, infos, steps, shared, k) is Err,
    ensures
        d.statements::<A, I>(words, infos, steps, shared, n) == d.statements::<A, I>(words, infos, steps, shared, k),
    decreases n,
{
    if k < n {
        lemma_statements_err::<A, I, M>(d, words, infos, steps, shared, k, (n - 1) as nat);
    }
}

/// Each step has one statement.
pub proof fn law_each_step_has_a_statement<A, I, M: StatementMapper<A, I>>(
    d: Driver<M>,
    words: Seq<Seq<Fr>>,
    infos: Seq<WordInfo<I>>,
    steps: Seq<StatementExtraInfo>,
    shared: Option<(Seq<usize>, Seq<usize>)>,
    n: nat,
)
    requires
        d.pcs::<A, I>(words, infos, n) is Ok,
        d.statements::<A, I>(words, infos, steps, shared, n) is Ok,
    ensures
        d.statements::<A, I>(words, infos, steps, shared, n)->Ok_0.len() == d.pcs::<A, I>(words, infos, n)->Ok_0.len(),
    decreases n,
{
    if n > 0 {
        law_each_step_has_a_statement::<A, I, M>(d, words, infos, steps, shared, (n - 1) as nat);
        lemma_word_statements_len::<A, I, M>(
            d,
            d.pc_of::<A, I>(words[n - 1], infos[n - 1])->0,
            words[n - 1],
            infos[n - 1],
            steps,
            d.statements::<A, I>(words, infos, steps, shared, (n - 1) as nat)->Ok_0.len() as int,
            shared,
            num_segs(words[n - 1].len(), d.planner.circ(0).max_len()),
        );
    }
}

/// The steps of a word are by the word's circuit.
proof fn lemma_word_pcs<A, I, M: GadgetMapper<A, I>>(
    d: Driver<M>,
    words: Seq<Seq<Fr>>,
    infos: Seq<WordInfo<I>>,
    i: nat,
    n: nat,
)
    requires
        i < n,
        d.pcs::<A, I>(words, infos, n) is Ok,
    ensures
        d.pcs::<A, I>(words, infos, i) is Ok,
        d.pcs::<A, I>(words, infos, (i + 1) as nat) is Ok,
        d.pc_of::<A, I>(words[i as int], infos[i as int]) is Some,
        ({
            let all = d.pcs::<A, I>(words, infos, n)->Ok_0;
            let base = d.pcs::<A, I>(words, infos, i)->Ok_0.len();
            let segs = num_segs(words[i as int].len(), d.planner.circ(0).max_len());
            &&& base + segs <= all.len()
            &&& forall|j: int|
                base <= j < base + segs ==> #[trigger] all[j] == d.pc_of::<A, I>(
                    words[i as int],
                    infos[i as int],
                )->0 as usize
        }),
    decreases n,
{
    if i + 1 < n {
        lemma_word_pcs::<A, I, M>(d, words, infos, i, (n - 1) as nat);
    }
}

impl<M> Driver<M> {
    /// The statements of a word's segments with the circuit `pc`, whose first step is
    /// `base`.
    fn build_word_statements<A, I>(
        &self,
        pc: usize,
        word: &Vec<Fr>,
        info: &WordInfo<I>,
        steps: &Vec<StatementExtraInfo>,
        base: usize,
        shared: Option<(&Vec<usize>, &Vec<usize>)>,
    ) -> (r: Result<Vec<Vec<Fr>>, Error>) where M: StatementMapper<A, I>
        requires
            self.wf::<A, I>(),
            pc < self.n_circ(),
            self.planner.works::<A, I>(pc as int, word@, *info),
            base + num_segs(word@.len(), self.planner.circ(0).max_len()) <= steps@.len(),
            shared matches Some((starts, counts)) ==> starts@.len() == steps@.len() && forall|k: int|
                base <= k < base + num_segs(word@.len(), self.planner.circ(0).max_len()) ==> (#[trigger] starts@[k])
                    + self.lk_share@[pc as int] <= counts@.len(),
        ensures
            rows_outcome(r) == self.word_statements::<A, I>(
                pc as int,
                word@,
                *info,
                steps@,
                base as int,
                shares_view(shared),
                num_segs(word@.len(), self.planner.circ(0).max_len()),
            ),
    {
        assert(self.planner.layered_circs@[pc as int]@.len() == 1);
        assert(self.planner.circ(pc as int).max_len() == self.planner.circ(0).max_len());
        let circ = &self.planner.layered_circs[pc][0];
        let ghost m = self.planner.circ(pc as int);
        let ghost max = m.max_len();
        let ghost sh = shares_view(shared);
        let plan = match self.planner.gen_nd_advice_at_layer(pc, true, word, info) {
            Err(e) => {
                assert(false);
                return Err(e);
            },
            Ok(p) => p,
        };
        let num = plan.num_segs;
        let wlen = word.len();
        let n_steps = steps.len();
        let share = self.lk_share[pc];
        let mut stmts: Vec<Vec<Fr>> = Vec::new();
        assert(rows(stmts@) =~= Seq::empty());
        proof {
            lemma_advices_len::<A, I, M>(m, false, word@, *info, num as nat);
            lemma_no_segments(word@.len(), max);
            assert(0 * max == 0);
        }
        let mut start: usize = 0;
        let mut k: usize = 0;
        while k < num
            invariant
                k <= num,
                wlen == word@.len(),
                n_steps == steps@.len(),
                num == num_segs(word@.len(), max),
                max == m.max_len(),
                max == self.planner.circ(0).max_len(),
                max > 0,
                *circ == m,
                m == self.planner.circ(pc as int),
                pc < self.lk_share@.len(),
                share == self.lk_share@[pc as int],
                plan.is_for(m, false, pc as nat, word@, *info, true),
                plan.vec_adv@.len() == num,
                plan.vec_size@.len() == num,
                start <= word@.len(),
                start == (if k < num {
                    k * max
                } else {
                    word@.len() as int
                }),
                base + num <= steps@.len(),
                sh == shares_view(shared),
                shared matches Some((starts, counts)) ==> starts@.len() == steps@.len() && forall|j: int|
                    base <= j < base + num ==> (#[trigger] starts@[j]) + self.lk_share@[pc as int] <= counts@.len(),
                stmts@.len() == k,
                self.word_statements::<A, I>(pc as int, word@, *info, steps@, base as int, sh, k as nat) == Ok::<
                    Seq<Seq<Fr>>,
                    ErrorView,
                >(rows(stmts@)),
            decreases num - k,
        {
            proof {
                lemma_segment_bounds(word@.len(), max, k as nat);
            }
            let ghost before = rows(stmts@);
            assert(plan.vec_size@[k as int] == seg_sizes(word@.len(), max)[k as int]);
            let end: usize = start + plan.vec_size[k];
            assert(end == seg_end(word@.len(), max, k as nat));
            let seg = copy_range(word, start, end);
            assert(seg@ == segment(word@, max, k as nat));
            let prev: Option<&Vec<Fr>> = if k == 0 {
                None
            } else {
                Some(&stmts[k - 1])
            };
            assert(opt_view(prev) == (if k == 0 { None } else { Some(before.last()) }));
            let built = circ.build_statement(
                &seg,
                prev,
                &self.lk_col1,
                &self.lk_col2,
                &steps[base + k],
                &plan.vec_adv[k],
                share,
            );
            let stmt = match built {
                Err(e) => {
                    proof {
                        lemma_word_statements_err::<A, I, M>(
                            *self,
                            pc as int,
                            word@,
                            *info,
                            steps@,
                            base as int,
                            sh,
                            (k + 1) as nat,
                            num as nat,
                        );
                    }
                    return Err(e);
                },
                Ok(s) => match shared {
                    None => s,
                    Some((starts, counts)) => {
                        let at = starts[base + k];
                        let n_counts = counts.len();
                        assert(starts@[base + k] + self.lk_share@[pc as int] <= n_counts);
                        let own = copy_range(counts, at, at + share);
                        circ.update_lookup(&s, at, &self.lk_col1, &self.lk_col2, &own)
                    },
                },
            };
            stmts.push(stmt);
            assert(rows(stmts@) =~= before.push(stmt@));
            proof {
                if k + 1 < num {
                    assert((k + 1) * max == k * max + max) by (nonlinear_arith);
                    lemma_segment_bounds(word@.len(), max, (k + 1) as nat);
                }
            }
            start = end;
            k = k + 1;
        }
        Ok(stmts)
    }

    /// The statements of the steps, word after word: as they are built, or with their
    /// shares of the lookup table.
    pub fn build_statements<A, I>(
        &self,
        words: &Vec<Vec<Fr>>,
        infos: &Vec<WordInfo<I>>,
        steps: &Vec<StatementExtraInfo>,
        pcs: &Vec<usize>,
        shared: Option<(&Vec<usize>, &Vec<usize>)>,
    ) -> (r: Result<Vec<Vec<Fr>>, Error>) where M: StatementMapper<A, I>
        requires
            self.wf::<A, I>(),
            words@.len() == infos@.len(),
            self.pcs::<A, I>(rows(words@), infos@, words@.len()) == Ok::<Seq<usize>, ErrorView>(pcs@),
            steps@.len() == pcs@.len(),
            shared matches Some((starts, counts)) ==> starts@.len() == steps@.len() && forall|k: int|
                0 <= k < pcs@.len() ==> (#[trigger] starts@[k]) + self.lk_share@[pcs@[k] as int] <= counts@.len(),
        ensures
            rows_outcome(r) == self.statements::<A, I>(
                rows(words@),
                infos@,
                steps@,
                shares_view(shared),
                words@.len(),
            ),
    {
        let ghost all = rows(words@);
        let ghost sh = shares_view(shared);
        let ghost n = words@.len();
        let mut stmts: Vec<Vec<Fr>> = Vec::new();
        assert(rows(stmts@) =~= Seq::empty());
        let mut i: usize = 0;
        while i < words.len()
            invariant
                i <= words@.len(),
                n == words@.len(),
                self.wf::<A, I>(),
                words@.len() == infos@.len(),
                all == rows(words@),
                sh == shares_view(shared),
                self.pcs::<A, I>(all, infos@, n) == Ok::<Seq<usize>, ErrorView>(pcs@),
                steps@.len() == pcs@.len(),
                shared matches Some((starts, counts)) ==> starts@.len() == steps@.len() && forall|k: int|
                    0 <= k < pcs@.len() ==> (#[trigger] starts@[k]) + self.lk_share@[pcs@[k] as int]
                        <= counts@.len(),
                self.statements::<A, I>(all, infos@, steps@, sh, i as nat) == Ok::<Seq<Seq<Fr>>, ErrorView>(
                    rows(stmts@),
                ),
            decreases words.len() - i,
        {
            let word = &words[i];
            let base = stmts.len();
            let ghost before = rows(stmts@);
            let ghost segs = num_segs(word@.len(), self.planner.circ(0).max_len());
            let ghost pc_spec = self.pc_of::<A, I>(all[i as int], infos@[i as int])->0;
            proof {
                assert(all[i as int] == word@);
                lemma_word_pcs::<A, I, M>(*self, all, infos@, i as nat, n);
                law_each_step_has_a_statement::<A, I, M>(*self, all, infos@, steps@, sh, i as nat);
                law_first_working_is_lowest::<A, I, M>(
                    self.planner,
                    word@,
                    infos@[i as int],
                    0,
                    self.n_circ() - 1,
                );
                lemma_no_segments(word@.len(), self.planner.circ(0).max_len());
            }
            if word.len() > 0 {
                assert(pcs@[base as int] == pc_spec as usize);
                let pc = pcs[base];
                assert(pc == pc_spec);
                proof {
                    assert forall|k: int| base <= k < base + segs implies pcs@[k] == pc by {}
                }
                let mut more = match self.build_word_statements(pc, word, &infos[i], steps, base, shared) {
                    Err(e) => {
                        proof {
                            lemma_statements_err::<A, I, M>(*self, all, infos@, steps@, sh, (i + 1) as nat, n);
                        }
                        return Err(e);
                    },
                    Ok(v) => v,
                };
                let ghost added = rows(more@);
                stmts.append(&mut more);
                assert(rows(stmts@) =~= before + added);
            } else {
                assert(segs == 0);
                assert(rows(stmts@) =~= before + Seq::<Seq<Fr>>::empty());
            }
            i = i + 1;
        }
        Ok(stmts)
    }

    /// The places of the lookup table that the statements look up.
    pub fn list_looked_up<A, I>(&self, pcs: &Vec<usize>, stmts: &Vec<Vec<Fr>>) -> (r: Vec<usize>) where
        M: StatementMapper<A, I>,

        requires
            self.wf::<A, I>(),
            stmts@.len() == pcs@.len(),
            forall|k: int| 0 <= k < pcs@.len() ==> (#[trigger] pcs@[k]) < self.n_circ(),
        ensures
            r@ == self.looked_up::<A, I>(pcs@, rows(stmts@), pcs@.len()),
    {
        let mut r: Vec<usize> = Vec::new();
        let mut k: usize = 0;
        while k < pcs.len()
            invariant
                k <= pcs@.len(),
                self.wf::<A, I>(),
                stmts@.len() == pcs@.len(),
                forall|j: int| 0 <= j < pcs@.len() ==> (#[trigger] pcs@[j]) < self.n_circ(),
                r@ == self.looked_up::<A, I>(pcs@, rows(stmts@), k as nat),
            decreases pcs.len() - k,
        {
            let pc = pcs[k];
            assert(self.planner.layered_circs@[pc as int]@.len() == 1);
            let circ = &self.planner.layered_circs[pc][0];
            let places = circ.list_lookups(&stmts[k], &self.lk_col1, &self.lk_col2);
            push_all(&mut r, &places);
            k = k + 1;
        }
        r
    }

    /// The commitments to the fixed memories of the steps.
    pub fn gen_memories<A, I>(&self, pcs: &Vec<usize>, stmts: &Vec<Vec<Fr>>) -> (r: Result<Vec<G1>, Error>) where
        M: StatementMapper<A, I>,

        requires
            self.wf::<A, I>(),
            stmts@.len() == pcs@.len(),
            forall|k: int| 0 <= k < pcs@.len() ==> (#[trigger] pcs@[k]) < self.n_circ(),
        ensures
            match r {
                Ok(v) => self.memories::<A, I>(pcs@, rows(stmts@), pcs@.len()) == Ok::<Seq<G1>, ErrorView>(v@)
                    && v@.len() == pcs@.len(),
                Err(e) => self.memories::<A, I>(pcs@, rows(stmts@), pcs@.len()) == Err::<Seq<G1>, ErrorView>(e@),
            },
    {
        let mut r: Vec<G1> = Vec::new();
        let mut k: usize = 0;
        while k < pcs.len()
            invariant
                k <= pcs@.len(),
                r@.len() == k,
                self.wf::<A, I>(),
                stmts@.len() == pcs@.len(),
                forall|j: int| 0 <= j < pcs@.len() ==> (#[trigger] pcs@[j]) < self.n_circ(),
                self.memories::<A, I>(pcs@, rows(stmts@), k as nat) == Ok::<Seq<G1>, ErrorView>(r@),
            decreases pcs.len() - k,
        {
            let pc = pcs[k];
            assert(self.planner.layered_circs@[pc as int]@.len() == 1);
            let circ = &self.planner.layered_circs[pc][0];
            match circ.gen_cm_f(&stmts[k]) {
                Err(e) => {
                    proof {
                        lemma_memories_err::<A, I, M>(*self, pcs@, rows(stmts@), (k + 1) as nat, pcs@.len());
                    }
                    return Err(e);
                },
                Ok(cm) => {
                    r.push(cm);
                },
            }
            k = k + 1;
        }
        Ok(r)
    }
}

/// Where the first steps already have none, the whole has no memories either.
proof fn lemma_memories_err<A, I, M: StatementMapper<A, I>>(
    d: Driver<M>,
    pcs: Seq<usize>,
    stmts: Seq<Seq<Fr>>,
    k: nat,
    n: nat,
)
    requires
        k <= n,
        d.memories::<A, I>(pcs, stmts, k) is Err,
    ensures
        d.memories::<A, I>(pcs, stmts, n) == d.memories::<A, I>(pcs, stmts, k),
    decreases n,
{
    if k < n {
        lemma_memories_err::<A, I, M>(d, pcs, stmts, k, (n - 1) as nat);
    }
}

/// A result of statements as mathematical data.
pub open spec fn rows_outcome(r: Result<Vec<Vec<Fr>>, Error>) -> Result<Seq<Seq<Fr>>, ErrorView> {
    match r {
        Ok(v) => Ok(rows(v@)),
        Err(e) => Err(e@),
    }
}

/// Where the shares of the lookup table begin and how often its places are looked up, as
/// mathematical data.
pub open spec fn shares_view(s: Option<(&Vec<usize>, &Vec<usize>)>) -> Option<(Seq<usize>, Seq<usize>)> {
    match s {
        Some((starts, counts)) => Some((starts@, counts@)),
        None => None,
    }
}

} // verus!
