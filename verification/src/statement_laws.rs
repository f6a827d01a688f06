//! What the advices, the statements and the chains of a run of words are, step by step.
use vstd::prelude::*;
use crate::capacity_planner::advices;
use crate::capacity_planner::halo_of;
use crate::capacity_planner::num_segs;
use crate::capacity_planner::segment;
use crate::capacity_planner::total_segs;
use crate::capacity_planner::word_advices;
use crate::capacity_planner::GadgetMapper;
use crate::capacity_planner::WordInfo;
use crate::commitment::CommitmentScheme;
use crate::curve::G1;
use crate::curve::Grumpkin;
use crate::driver::cm_f_chain;
use crate::driver::cm_f_chain_from;
use crate::driver::covered;
use crate::driver::run;
use crate::driver::step_at;
use crate::driver::with_pc;
use crate::driver::Driver;
use crate::error::ErrorView;
use crate::field::f_zero;
use crate::field::lemma_units;
use crate::field::lemma_val_injective;
use crate::field::FieldModel;
use crate::field_fq::Fq;
use crate::field_fr::fr_modulus;
use crate::field_fr::Fr;
use crate::foldpot_super::FoldPotSuper;
use crate::foldpot_super::SuperInput;
use crate::foldpot_super::SuperInputView;
use crate::foldpot_super::SuperStateView;
use crate::limbs::g1_absorbed;
use crate::part_two::PartTwoView;
use crate::sponge::poseidon_output;
use crate::sponge::PoseidonConfigView;
use crate::sponge::SpongeOpView;
use crate::statement::StatementExtraInfo;
use crate::statements::multiplicities;
use crate::statements::occurrences;
use crate::statements::StatementMapper;
use crate::transcript_laws::law_digests;
use crate::transcript_laws::told;

verus! {

/// Where the segment behind the `k`-th one begins: `max` elements further, at most at the
/// word's end.
pub open spec fn cut(len: nat, max: nat, k: nat) -> nat {
    if k * max <= len {
        k * max
    } else {
        len
    }
}

/// The segments of a word follow each other: the `k`-th is from where the one before ends,
/// `max` elements long where the word has them.
pub proof fn law_segment(word: Seq<Fr>, max: nat, k: nat)
    requires
        max > 0,
        k < num_segs(word.len(), max),
    ensures
        segment(word, max, k) == word.subrange(
            cut(word.len(), max, k) as int,
            cut(word.len(), max, (k + 1) as nat) as int,
        ),
        cut(word.len(), max, k) == k * max,
        k + 1 == num_segs(word.len(), max) ==> cut(word.len(), max, (k + 1) as nat) == word.len(),
        k + 1 < num_segs(word.len(), max) ==> segment(word, max, k).len() == max,
        0 < segment(word, max, k).len() <= max,
{
    let (n, m, i) = (word.len() as int, max as int, k as int);
    vstd::arithmetic::div_mod::lemma_fundamental_div_mod(n, m);
    vstd::arithmetic::div_mod::lemma_mod_bound(n, m);
    let q = n / m;
    let r = n % m;
    assert(m * q + r == n);
    assert(i * m < n) by (nonlinear_arith)
        requires
            m * q + r == n,
            0 <= r < m,
            m > 0,
            (r == 0 && i < q) || (r != 0 && i < q + 1),
    ;
    assert((i + 1) * m == i * m + m) by (nonlinear_arith);
    if k + 1 == num_segs(word.len(), max) {
        assert((i + 1) * m >= n) by (nonlinear_arith)
            requires
                m * q + r == n,
                0 <= r < m,
                (r == 0 && i + 1 == q) || (r != 0 && i + 1 == q + 1),
        ;
    } else {
        assert((i + 1) * m <= n) by (nonlinear_arith)
            requires
                m * q + r == n,
                0 <= r < m,
                i + 1 <= q,
        ;
    }
}

/// The nibbles behind a segment that an advice is made with: those known of the word, or,
/// where the planner looks ahead and the word goes on, the first ones of the next segment,
/// as many as the circuit can handle.
pub proof fn law_halo<A, I, M: GadgetMapper<A, I>>(m: M, ahead: bool, word: Seq<Fr>, known: Seq<u8>, k: nat)
    requires
        m.max_len() > 0,
        k < num_segs(word.len(), m.max_len()),
    ensures
        ({
            let (h, limit) = (halo_of(m, ahead, word, known, k), m.capacity().halo_nibbles as nat);
            let last = k + 1 == num_segs(word.len(), m.max_len());
            &&& !ahead || last || limit == 0 ==> h == known
            &&& ahead && !last && limit > 0 ==> {
                let next = m.nibbles(segment(word, m.max_len(), (k + 1) as nat));
                &&& h.len() <= limit
                &&& h.len() <= next.len()
                &&& h.len() == limit || h.len() == next.len()
                &&& forall|j: int| 0 <= j < h.len() ==> #[trigger] h[j] == next[j]
            }
        }),
{
    let max = m.max_len();
    law_segment(word, max, k);
    if k + 1 < num_segs(word.len(), max) {
        law_segment(word, max, (k + 1) as nat);
        let (i, n) = ((k + 1) as int, max as int);
        assert((i + 1) * n == i * n + n) by (nonlinear_arith);
    }
}

/// Whether `v` are the advices for the first segments of a word: each made with its
/// segment, the nibbles behind it and the advice before it.
pub open spec fn are_advices<A, I, M: GadgetMapper<A, I>>(
    v: Seq<A>,
    m: M,
    ahead: bool,
    word: Seq<Fr>,
    info: WordInfo<I>,
) -> bool {
    forall|k: int|
        0 <= k < v.len() ==> m.advice(
            segment(word, m.max_len(), k as nat),
            info.info,
            halo_of(m, ahead, word, info.halo_nibbles@, k as nat),
            if k == 0 {
                None
            } else {
                Some(v[k - 1])
            },
            k as nat,
        ) == Ok::<A, ErrorView>(#[trigger] v[k])
}

/// The advices for the segments of a word are made one after the other.
pub proof fn law_advices<A, I, M: GadgetMapper<A, I>>(
    m: M,
    ahead: bool,
    word: Seq<Fr>,
    info: WordInfo<I>,
    n: nat,
    v: Seq<A>,
)
    ensures
        advices::<A, I, M>(m, ahead, word, info, n) == Ok::<Seq<A>, ErrorView>(v) <==> v.len() == n && are_advices::<
            A,
            I,
            M,
        >(v, m, ahead, word, info),
    decreases n,
{
    let r = advices::<A, I, M>(m, ahead, word, info, n);
    if n == 0 {
        if v.len() == 0 {
            assert(v =~= Seq::empty());
        }
    } else {
        let before = advices::<A, I, M>(m, ahead, word, info, (n - 1) as nat);
        if r == Ok::<Seq<A>, ErrorView>(v) {
            law_advices::<A, I, M>(m, ahead, word, info, (n - 1) as nat, before->Ok_0);
            let w = before->Ok_0;
            assert forall|k: int| 0 <= k < v.len() implies m.advice(
                segment(word, m.max_len(), k as nat),
                info.info,
                halo_of(m, ahead, word, info.halo_nibbles@, k as nat),
                if k == 0 {
                    None
                } else {
                    Some(v[k - 1])
                },
                k as nat,
            ) == Ok::<A, ErrorView>(#[trigger] v[k]) by {
                if k < n - 1 {
                    assert(w[k] == v[k]);
                }
            }
        }
        if v.len() == n && are_advices::<A, I, M>(v, m, ahead, word, info) {
            let w = v.drop_last();
            assert forall|k: int| 0 <= k < w.len() implies m.advice(
                segment(word, m.max_len(), k as nat),
                info.info,
                halo_of(m, ahead, word, info.halo_nibbles@, k as nat),
                if k == 0 {
                    None
                } else {
                    Some(w[k - 1])
                },
                k as nat,
            ) == Ok::<A, ErrorView>(#[trigger] w[k]) by {
                assert(w[k] == v[k]);
            }
            law_advices::<A, I, M>(m, ahead, word, info, (n - 1) as nat, w);
            assert(v[n - 1] == v.last());
            assert(w.push(v.last()) =~= v);
        }
    }
}

/// Whether `stmt` is the statement for the `k`-th segment of a word that the circuit `pc`
/// takes, behind the statement `prev`: built for the segment with its step and its advice,
/// and where the lookup table is shared, given the step's share of it.
pub open spec fn is_word_statement<A, I, M: StatementMapper<A, I>>(
    stmt: Seq<Fr>,
    prev: Option<Seq<Fr>>,
    d: Driver<M>,
    pc: int,
    word: Seq<Fr>,
    info: WordInfo<I>,
    steps: Seq<StatementExtraInfo>,
    base: int,
    shared: Option<(Seq<usize>, Seq<usize>)>,
    k: nat,
) -> bool {
    let m = d.planner.layered_circs@[pc]@[0];
    let built = m.statement(
        segment(word, m.max_len(), k),
        prev,
        d.lk_col1@,
        d.lk_col2@,
        steps[base + k],
        word_advices::<A, I, M>(m, false, word, info)->Ok_0[k as int],
        d.lk_share@[pc] as nat,
    );
    &&& built is Ok
    &&& stmt == match shared {
        None => built->Ok_0,
        Some((starts, counts)) => m.with_share(
            built->Ok_0,
            starts[base + k] as nat,
            d.lk_col1@,
            d.lk_col2@,
            counts.subrange(starts[base + k] as int, starts[base + k] + d.lk_share@[pc]),
        ),
    }
}

/// Whether `v` are the statements for the first segments of a word, each behind the one
/// before it.
pub open spec fn are_word_statements<A, I, M: StatementMapper<A, I>>(
    v: Seq<Seq<Fr>>,
    d: Driver<M>,
    pc: int,
    word: Seq<Fr>,
    info: WordInfo<I>,
    steps: Seq<StatementExtraInfo>,
    base: int,
    shared: Option<(Seq<usize>, Seq<usize>)>,
) -> bool {
    forall|k: int|
        0 <= k < v.len() ==> is_word_statement::<A, I, M>(
            #[trigger] v[k],
            if k == 0 {
                None
            } else {
                Some(v[k - 1])
            },
            d,
            pc,
            word,
            info,
            steps,
            base,
            shared,
            k as nat,
        )
}

proof fn lemma_last_statement<A, I, M: StatementMapper<A, I>>(
    d: Driver<M>,
    pc: int,
    word: Seq<Fr>,
    info: WordInfo<I>,
    steps: Seq<StatementExtraInfo>,
    base: int,
    shared: Option<(Seq<usize>, Seq<usize>)>,
    n: nat,
)
    requires
        n > 0,
        d.word_statements::<A, I>(pc, word, info, steps, base, shared, n) is Ok,
    ensures
        ({
            let before = d.word_statements::<A, I>(pc, word, info, steps, base, shared, (n - 1) as nat);
            let v = d.word_statements::<A, I>(pc, word, info, steps, base, shared, n)->Ok_0;
            &&& before is Ok
            &&& v == before->Ok_0.push(v.last())
            &&& is_word_statement::<A, I, M>(
                v.last(),
                if n == 1 {
                    None
                } else {
                    Some(before->Ok_0.last())
                },
                d,
                pc,
                word,
                info,
                steps,
                base,
                shared,
                (n - 1) as nat,
            )
        }),
{
}

/// The statements for the segments of a word are built one after the other.
pub proof fn law_word_statements<A, I, M: StatementMapper<A, I>>(
    d: Driver<M>,
    pc: int,
    word: Seq<Fr>,
    info: WordInfo<I>,
    steps: Seq<StatementExtraInfo>,
    base: int,
    shared: Option<(Seq<usize>, Seq<usize>)>,
    n: nat,
)
    ensures
        d.word_statements::<A, I>(pc, word, info, steps, base, shared, n) matches Ok(v) ==> v.len() == n
            && are_word_statements::<A, I, M>(v, d, pc, word, info, steps, base, shared),
    decreases n,
{
    if n > 0 && d.word_statements::<A, I>(pc, word, info, steps, base, shared, n) is Ok {
        lemma_last_statement::<A, I, M>(d, pc, word, info, steps, base, shared, n);
        law_word_statements::<A, I, M>(d, pc, word, info, steps, base, shared, (n - 1) as nat);
        let v = d.word_statements::<A, I>(pc, word, info, steps, base, shared, n)->Ok_0;
        let w = d.word_statements::<A, I>(pc, word, info, steps, base, shared, (n - 1) as nat)->Ok_0;
        lemma_one_more::<A, I, M>(d, pc, word, info, steps, base, shared, w, v);
    }
}

proof fn lemma_one_more<A, I, M: StatementMapper<A, I>>(
    d: Driver<M>,
    pc: int,
    word: Seq<Fr>,
    info: WordInfo<I>,
    steps: Seq<StatementExtraInfo>,
    base: int,
    shared: Option<(Seq<usize>, Seq<usize>)>,
    w: Seq<Seq<Fr>>,
    v: Seq<Seq<Fr>>,
)
    requires
        v == w.push(v.last()),
        are_word_statements::<A, I, M>(w, d, pc, word, info, steps, base, shared),
        is_word_statement::<A, I, M>(
            v.last(),
            if w.len() == 0 {
                None
            } else {
                Some(w.last())
            },
            d,
            pc,
            word,
            info,
            steps,
            base,
            shared,
            w.len(),
        ),
    ensures
        are_word_statements::<A, I, M>(v, d, pc, word, info, steps, base, shared),
{
    assert forall|k: int| 0 <= k < v.len() implies is_word_statement::<A, I, M>(
        #[trigger] v[k],
        if k == 0 {
            None
        } else {
            Some(v[k - 1])
        },
        d,
        pc,
        word,
        info,
        steps,
        base,
        shared,
        k as nat,
    ) by {
        if k < w.len() {
            assert(v[k] == w[k]);
            if k > 0 {
                assert(v[k - 1] == w[k - 1]);
            }
        } else if k > 0 {
            assert(v[k - 1] == w.last());
        }
    }
}

/// The statements of several words stand behind each other, those of the word `i` from
/// where those of the words before it end, by the word's own circuit.
pub proof fn law_statements_of_words<A, I, M: StatementMapper<A, I>>(
    d: Driver<M>,
    words: Seq<Seq<Fr>>,
    infos: Seq<WordInfo<I>>,
    steps: Seq<StatementExtraInfo>,
    shared: Option<(Seq<usize>, Seq<usize>)>,
    n: nat,
    i: nat,
)
    requires
        i < n,
        d.statements::<A, I>(words, infos, steps, shared, n) is Ok,
    ensures
        ({
            let all = d.statements::<A, I>(words, infos, steps, shared, n)->Ok_0;
            let max = d.planner.layered_circs@[0]@[0].max_len();
            let (from, to) = (total_segs(words, max, i), total_segs(words, max, (i + 1) as nat));
            &&& all.len() == total_segs(words, max, n)
            &&& from <= to <= all.len()
            &&& to == from + num_segs(words[i as int].len(), max)
            &&& are_word_statements::<A, I, M>(
                all.subrange(from as int, to as int),
                d,
                d.pc_of::<A, I>(words[i as int], infos[i as int])->0,
                words[i as int],
                infos[i as int],
                steps,
                from as int,
                shared,
            )
        }),
    decreases n,
{
    let max = d.planner.layered_circs@[0]@[0].max_len();
    let all = d.statements::<A, I>(words, infos, steps, shared, n)->Ok_0;
    let before = d.statements::<A, I>(words, infos, steps, shared, (n - 1) as nat)->Ok_0;
    lemma_statements_len::<A, I, M>(d, words, infos, steps, shared, (n - 1) as nat);
    lemma_statements_len::<A, I, M>(d, words, infos, steps, shared, n);
    let (word, info) = (words[n - 1], infos[n - 1]);
    let pc = d.pc_of::<A, I>(word, info)->0;
    let segs = num_segs(word.len(), max);
    let more = d.word_statements::<A, I>(pc, word, info, steps, before.len() as int, shared, segs)->Ok_0;
    law_word_statements::<A, I, M>(d, pc, word, info, steps, before.len() as int, shared, segs);
    assert(all =~= before + more);
    let (from, to) = (total_segs(words, max, i), total_segs(words, max, (i + 1) as nat));
    if i < n - 1 {
        law_statements_of_words::<A, I, M>(d, words, infos, steps, shared, (n - 1) as nat, i);
        assert(all.subrange(from as int, to as int) =~= before.subrange(from as int, to as int));
    } else {
        assert(all.subrange(from as int, to as int) =~= more);
    }
}

proof fn lemma_statements_len<A, I, M: StatementMapper<A, I>>(
    d: Driver<M>,
    words: Seq<Seq<Fr>>,
    infos: Seq<WordInfo<I>>,
    steps: Seq<StatementExtraInfo>,
    shared: Option<(Seq<usize>, Seq<usize>)>,
    n: nat,
)
    ensures
        d.statements::<A, I>(words, infos, steps, shared, n) matches Ok(v) ==> v.len() == total_segs(
            words,
            d.planner.layered_circs@[0]@[0].max_len(),
            n,
        ),
    decreases n,
{
    if n > 0 && d.statements::<A, I>(words, infos, steps, shared, n) is Ok {
        lemma_statements_len::<A, I, M>(d, words, infos, steps, shared, (n - 1) as nat);
        let before = d.statements::<A, I>(words, infos, steps, shared, (n - 1) as nat)->Ok_0;
        law_word_statements::<A, I, M>(
            d,
            d.pc_of::<A, I>(words[n - 1], infos[n - 1])->0,
            words[n - 1],
            infos[n - 1],
            steps,
            before.len() as int,
            shared,
            num_segs(words[n - 1].len(), d.planner.layered_circs@[0]@[0].max_len()),
        );
    }
}

/// How often a place is looked up is how often it occurs among the lookups.
pub proof fn law_multiplicities(s: Seq<usize>, n: nat, p: usize)
    requires
        p < n,
        s.len() <= usize::MAX,
    ensures
        multiplicities(s, n).len() == n,
        multiplicities(s, n)[p as int] == s.to_multiset().count(p),
{
    lemma_occurrences(s, p);
}

proof fn lemma_occurrences(s: Seq<usize>, p: usize)
    ensures
        occurrences(s, p as int) == s.to_multiset().count(p),
        occurrences(s, p as int) <= s.len(),
    decreases s.len(),
{
    broadcast use vstd::seq_lib::group_to_multiset_ensures;

    if s.len() == 0 {
        assert(s.to_multiset().len() == 0);
        assert(!s.contains(p));
    } else {
        lemma_occurrences(s.drop_last(), p);
        assert(s =~= s.drop_last().push(s.last()));
    }
}

/// The fixed memories' commitments: each step's circuit commits to the step's statement.
pub proof fn law_memories<A, I, M: StatementMapper<A, I>>(
    d: Driver<M>,
    pcs: Seq<usize>,
    stmts: Seq<Seq<Fr>>,
    n: nat,
    v: Seq<G1>,
)
    ensures
        d.memories::<A, I>(pcs, stmts, n) == Ok::<Seq<G1>, ErrorView>(v) <==> {
            &&& v.len() == n
            &&& forall|k: int|
                0 <= k < n ==> d.planner.layered_circs@[pcs[k] as int]@[0].memory(stmts[k]) == Ok::<G1, ErrorView>(
                    #[trigger] v[k],
                )
        },
    decreases n,
{
    if n == 0 {
        if v.len() == 0 {
            assert(v =~= Seq::empty());
        }
    } else {
        let before = d.memories::<A, I>(pcs, stmts, (n - 1) as nat);
        if d.memories::<A, I>(pcs, stmts, n) == Ok::<Seq<G1>, ErrorView>(v) {
            law_memories::<A, I, M>(d, pcs, stmts, (n - 1) as nat, before->Ok_0);
            let w = before->Ok_0;
            assert forall|k: int| 0 <= k < n implies d.planner.layered_circs@[pcs[k] as int]@[0].memory(stmts[k])
                == Ok::<G1, ErrorView>(#[trigger] v[k]) by {
                if k < n - 1 {
                    assert(w[k] == v[k]);
                }
            }
        }
        if v.len() == n && (forall|k: int|
            0 <= k < n ==> d.planner.layered_circs@[pcs[k] as int]@[0].memory(stmts[k]) == Ok::<G1, ErrorView>(
                #[trigger] v[k],
            )) {
            let w = v.drop_last();
            assert forall|k: int| 0 <= k < n - 1 implies d.planner.layered_circs@[pcs[k] as int]@[0].memory(stmts[k])
                == Ok::<G1, ErrorView>(#[trigger] w[k]) by {
                assert(w[k] == v[k]);
            }
            law_memories::<A, I, M>(d, pcs, stmts, (n - 1) as nat, w);
            assert(v[n - 1] == v.last());
            assert(w.push(v.last()) =~= v);
        }
    }
}

/// What the statements look up: each what its circuit says, behind each other. `starts`
/// are where each one's lookups begin.
pub proof fn law_looked_up<A, I, M: StatementMapper<A, I>>(
    d: Driver<M>,
    pcs: Seq<usize>,
    stmts: Seq<Seq<Fr>>,
    n: nat,
    k: int,
)
    requires
        0 <= k < n,
    ensures
        ({
            let all = d.looked_up::<A, I>(pcs, stmts, n);
            let from = d.looked_up::<A, I>(pcs, stmts, k as nat).len();
            let own = d.planner.layered_circs@[pcs[k] as int]@[0].lookups(stmts[k], d.lk_col1@, d.lk_col2@);
            &&& d.looked_up::<A, I>(pcs, stmts, 0).len() == 0
            &&& d.looked_up::<A, I>(pcs, stmts, (k + 1) as nat).len() == from + own.len()
            &&& from + own.len() <= all.len()
            &&& all.subrange(from as int, (from + own.len()) as int) == own
        }),
    decreases n,
{
    let all = d.looked_up::<A, I>(pcs, stmts, n);
    let before = d.looked_up::<A, I>(pcs, stmts, (n - 1) as nat);
    let from = d.looked_up::<A, I>(pcs, stmts, k as nat).len();
    let own = d.planner.layered_circs@[pcs[k] as int]@[0].lookups(stmts[k], d.lk_col1@, d.lk_col2@);
    if k < n - 1 {
        law_looked_up::<A, I, M>(d, pcs, stmts, (n - 1) as nat, k);
        assert(all.subrange(from as int, (from + own.len()) as int) =~= before.subrange(
            from as int,
            (from + own.len()) as int,
        ));
    } else {
        assert(all.subrange(from as int, (from + own.len()) as int) =~= own);
    }
}

/// How much of the lookup table the first steps cover: the sum of their circuits' shares,
/// told by the partial sums.
pub proof fn law_covered(share: Seq<usize>, pcs: Seq<usize>, sums: Seq<int>, n: nat)
    requires
        sums.len() > n,
        sums[0] == 0,
        forall|k: int| 0 <= k < n ==> sums[k + 1] == sums[k] + share[(#[trigger] pcs[k]) as int],
    ensures
        covered(share, pcs, n) == sums[n as int],
    decreases n,
{
    if n > 0 {
        law_covered(share, pcs, sums, (n - 1) as nat);
        assert(sums[n - 1 + 1] == sums[n - 1] + share[pcs[n - 1] as int]);
    }
}

/// Whether `links` are the links of the chain of commitments that starts with `start`: each
/// the digest of the one before with what is absorbed of the commitment.
pub open spec fn are_memory_links(config: PoseidonConfigView, links: Seq<Fr>, cm_fs: Seq<G1>) -> bool {
    &&& links.len() == cm_fs.len() + 1
    &&& forall|k: int|
        0 <= k < cm_fs.len() ==> links[k + 1] == poseidon_output(
            config,
            seq![SpongeOpView::Absorb(seq![links[k]] + g1_absorbed(#[trigger] cm_fs[k]))],
            1,
        )[0]
}

/// The chain of the fixed memories' commitments ends with its last link; it starts with zero.
pub proof fn law_memory_chain(config: PoseidonConfigView, links: Seq<Fr>, cm_fs: Seq<G1>)
    requires
        are_memory_links(config, links, cm_fs),
    ensures
        cm_f_chain_from(config, links[0], cm_fs) == links[cm_fs.len() as int],
        links[0].val() == 0 ==> cm_f_chain(config, cm_fs) == links[cm_fs.len() as int],
    decreases cm_fs.len(),
{
    lemma_units::<Fr>();
    if links[0].val() == 0 {
        lemma_val_injective(links[0], f_zero::<Fr>());
    }
    if cm_fs.len() > 0 {
        let n = cm_fs.len() - 1;
        let (l, c) = (links.drop_last(), cm_fs.drop_last());
        assert forall|k: int| 0 <= k < c.len() implies l[k + 1] == poseidon_output(
            config,
            seq![SpongeOpView::Absorb(seq![l[k]] + g1_absorbed(#[trigger] c[k]))],
            1,
        )[0] by {
            assert(c[k] == cm_fs[k]);
        }
        law_memory_chain(config, l, c);
        assert(cm_fs[n] == cm_fs.last());
        let e = g1_absorbed(cm_fs[n]);
        law_digests(config, links[n], e);
        assert(told(Seq::empty(), seq![seq![links[n]] + e]) =~= seq![SpongeOpView::Absorb(seq![links[n]] + e)]);
    }
}

/// Each step of a run is by the circuit that is planned for it: after a run of at least one
/// step that succeeded, the last one's circuit is noted.
pub proof fn law_run_takes_planned_circuits<CS1: CommitmentScheme<Fr, G1>, CS2: CommitmentScheme<Fq, Grumpkin>>(
    f: FoldPotSuper<CS1, CS2>,
    st: SuperStateView,
    pcs: Seq<usize>,
    inputs: Seq<SuperInput>,
    n: nat,
)
    requires
        n > 0,
        run(f, st, pcs, inputs, n).1 is Ok,
    ensures
        ({
            let before = run(f, st, pcs, inputs, (n - 1) as nat);
            let after = run(f, st, pcs, inputs, n).0;
            &&& before.1 is Ok
            &&& run(f, st, pcs, inputs, n) == with_pc(f, after.pc_i).step_spec(before.0, inputs[n - 1]@)
            &&& after.pc_i.val() == pcs[n - 1]
            &&& after.run_u.pc_i == after.pc_i
        }),
{
    assert(pcs[n - 1] < fr_modulus()) by {
        assert(usize::MAX <= 0xffff_ffff_ffff_ffff);
    }
    Fr::lemma_val_of(pcs[n - 1] as nat);
    let before = run(f, st, pcs, inputs, (n - 1) as nat);
    reveal(step_at);
    let g = with_pc(f, Fr::of(pcs[n - 1] as nat));
    lemma_step_notes_circuit(g, before.0, inputs[n - 1]@);
}

proof fn lemma_step_notes_circuit<CS1: CommitmentScheme<Fr, G1>, CS2: CommitmentScheme<Fq, Grumpkin>>(
    f: FoldPotSuper<CS1, CS2>,
    st: SuperStateView,
    inp: SuperInputView,
)
    requires
        f.step_spec(st, inp).1 is Ok,
    ensures
        f.step_spec(st, inp).0.pc_i == f.pc_i1,
        f.step_spec(st, inp).0.run_u.pc_i == f.pc_i1,
{
}

/// The second part of the first state: the challenge, the coefficient, sums and a result of
/// zero, the number of words, and zeros for the pairing's input where pairings are folded.
pub proof fn law_first_second_part(ch: Fr, rc: Fr, full: bool, n_words: nat)
    requires
        n_words < fr_modulus(),
    ensures
        ({
            let p = PartTwoView::new(ch, rc, full, n_words);
            &&& p.ch == ch
            &&& p.rc == rc
            &&& p.sum_kzg_eval_lk.val() == 0
            &&& p.sum_kzg_eval_word.val() == 0
            &&& p.sum_kzg_eval_others.val() == 0
            &&& p.f_result.val() == 0
            &&& p.n_words.val() == n_words
            &&& p.cyclepair_input is Some <==> full
            &&& p.cyclepair_input matches Some(v) ==> v.len() == 160 && forall|k: int|
                0 <= k < 160 ==> (#[trigger] v[k]).val() == 0
        }),
{
    lemma_units::<Fr>();
    Fr::lemma_val_of(n_words);
}

/// The elements of the second part of a state, each in its place.
pub proof fn law_second_part_places(p: PartTwoView)
    ensures
        ({
            let v = p.elements();
            let extra = match p.cyclepair_input {
                Some(c) => c,
                None => Seq::empty(),
            };
            &&& v.len() == 7 + extra.len()
            &&& v[0] == p.ch
            &&& v[1] == p.rc
            &&& v[2] == p.sum_kzg_eval_lk
            &&& v[3] == p.sum_kzg_eval_word
            &&& v[4] == p.sum_kzg_eval_others
            &&& v[5] == p.f_result
            &&& v[6] == p.n_words
            &&& forall|k: int| 0 <= k < extra.len() ==> v[7 + k] == #[trigger] extra[k]
        }),
{
}

} // verus!
