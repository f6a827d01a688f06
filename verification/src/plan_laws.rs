//! What the planned steps tell of their words.
use vstd::prelude::*;
use crate::batch_proc::low32;
use crate::batch_proc::SnarkAdvice;
use crate::capacity_planner::law_first_working_is_lowest;
use crate::capacity_planner::lemma_no_segments;
use crate::capacity_planner::lemma_segment_bounds;
use crate::capacity_planner::num_segs;
use crate::capacity_planner::seg_end;
use crate::capacity_planner::CapacityPlanner;
use crate::capacity_planner::GadgetMapper;
use crate::capacity_planner::WordInfo;
use crate::driver::Driver;
use crate::field::FieldModel;
use crate::field_fr::Fr;
use crate::statement::StatementExtraInfo;

verus! {

/// A number of 32 bits as a field element has the number for its integer.
pub proof fn law_low32_keeps_numbers(n: nat)
    ensures
        n < 0x1_0000_0000 ==> low32(n).val() == n,
        low32(n).val() == n % 0x1_0000_0000,
{
    Fr::lemma_val_of(n % 0x1_0000_0000);
    if n < 0x1_0000_0000 {
        vstd::arithmetic::div_mod::lemma_small_mod(n, 0x1_0000_0000);
    }
}

/// Whether `steps` are those of the word with the number `i`, counted from zero, which has
/// `len` elements: each covers at least one and at most `max` elements, together they cover
/// the word, and each tells the words' number, its own word's number, length and count of
/// steps, its own number, what it covers and what is covered up to it, and the values of
/// the batch proof that belong to the word.
pub open spec fn tells_of_word(
    steps: Seq<StatementExtraInfo>,
    n_words: nat,
    i: nat,
    len: nat,
    max: nat,
    n_circ: nat,
    adv: SnarkAdvice,
) -> bool {
    &&& len == 0 <==> steps.len() == 0
    &&& forall|k: int|
        0 <= k < steps.len() ==> {
            let s = #[trigger] steps[k];
            &&& s.total_words.val() == n_words
            &&& s.word_id.val() == i + 1
            &&& s.subseg_id.val() == k + 1
            &&& s.total_word_len.val() == len
            &&& s.total_word_segs.val() == steps.len()
            &&& s.n_circ.val() == n_circ
            &&& 1 <= s.act_word_subseg_size.val() <= max
            &&& k + 1 < steps.len() ==> s.act_word_subseg_size.val() == max
            &&& s.accumulated_word_len.val() == k * max + s.act_word_subseg_size.val()
            &&& k + 1 == steps.len() ==> s.accumulated_word_len.val() == len
            &&& s.batch_r == adv.vec_r@[i as int]
            &&& s.batch_v == adv.vec_v@[i as int]
            &&& s.r_word_i == adv.rands@[i as int]
            &&& s.r_all_words == adv.r_all_words
            &&& s.r_kzg_len == adv.r_kzg_len
            &&& s.r_vec_r == adv.r_vec_r_kzg
            &&& s.r_vec_v == adv.r_vec_v_kzg
        }
}

proof fn lemma_segs_bound(len: nat, max: nat)
    requires
        max > 0,
    ensures
        num_segs(len, max) <= len,
{
    lemma_no_segments(len, max);
    let n = num_segs(len, max);
    if n > 0 {
        lemma_segment_bounds(len, max, (n - 1) as nat);
        assert((n - 1) * max >= n - 1) by (nonlinear_arith)
            requires
                n >= 1,
                max >= 1,
        ;
    }
}

/// The steps that are planned for words tell of their words: for each word the steps from
/// where those of the words before end.
pub proof fn law_steps_tell_of_words<A, I, M: GadgetMapper<A, I>>(
    d: Driver<M>,
    words: Seq<Seq<Fr>>,
    infos: Seq<WordInfo<I>>,
    adv: SnarkAdvice,
    n: nat,
    i: nat,
)
    requires
        d.wf::<A, I>(),
        i < n <= words.len(),
        words.len() < 0x1_0000_0000,
        words[i as int].len() < 0x1_0000_0000,
        d.pcs::<A, I>(words, infos, n) is Ok,
    ensures
        ({
            let all = d.steps::<A, I>(words, infos, adv, n);
            let before = d.steps::<A, I>(words, infos, adv, i);
            let upto = d.steps::<A, I>(words, infos, adv, (i + 1) as nat);
            &&& before.len() <= upto.len() <= all.len()
            &&& tells_of_word(
                all.subrange(before.len() as int, upto.len() as int),
                words.len(),
                i,
                words[i as int].len(),
                d.planner.circ(0).max_len(),
                d.planner.layered_circs@.len(),
                adv,
            )
        }),
    decreases n,
{
    let max = d.planner.circ(0).max_len();
    let all = d.steps::<A, I>(words, infos, adv, n);
    let before = d.steps::<A, I>(words, infos, adv, i);
    let upto = d.steps::<A, I>(words, infos, adv, (i + 1) as nat);
    let short = d.steps::<A, I>(words, infos, adv, (n - 1) as nat);
    if i + 1 < n {
        law_steps_tell_of_words::<A, I, M>(d, words, infos, adv, (n - 1) as nat, i);
        assert(all.subrange(before.len() as int, upto.len() as int) =~= short.subrange(
            before.len() as int,
            upto.len() as int,
        ));
    } else {
        let len = words[i as int].len();
        let own = all.subrange(before.len() as int, upto.len() as int);
        lemma_no_segments(len, max);
        lemma_segs_bound(len, max);
        law_low32_keeps_numbers(words.len());
        law_low32_keeps_numbers((i + 1) as nat);
        law_low32_keeps_numbers(len);
        law_low32_keeps_numbers(num_segs(len, max));
        law_low32_keeps_numbers(d.n_circ());
        assert forall|k: int| 0 <= k < own.len() implies {
            let s = #[trigger] own[k];
            &&& s.total_words.val() == words.len()
            &&& s.word_id.val() == i + 1
            &&& s.subseg_id.val() == k + 1
            &&& s.total_word_len.val() == len
            &&& s.total_word_segs.val() == own.len()
            &&& s.n_circ.val() == d.planner.layered_circs@.len()
            &&& 1 <= s.act_word_subseg_size.val() <= max
            &&& k + 1 < own.len() ==> s.act_word_subseg_size.val() == max
            &&& s.accumulated_word_len.val() == k * max + s.act_word_subseg_size.val()
            &&& k + 1 == own.len() ==> s.accumulated_word_len.val() == len
            &&& s.batch_r == adv.vec_r@[i as int]
            &&& s.batch_v == adv.vec_v@[i as int]
            &&& s.r_word_i == adv.rands@[i as int]
            &&& s.r_all_words == adv.r_all_words
            &&& s.r_kzg_len == adv.r_kzg_len
            &&& s.r_vec_r == adv.r_vec_r_kzg
            &&& s.r_vec_v == adv.r_vec_v_kzg
        } by {
            lemma_segment_bounds(len, max, k as nat);
            assert((k + 1) * max == k * max + max) by (nonlinear_arith);
            law_low32_keeps_numbers((k + 1) as nat);
            law_low32_keeps_numbers((seg_end(len, max, k as nat) - k * max) as nat);
            law_low32_keeps_numbers(seg_end(len, max, k as nat));
        }
    }
}

/// Whether some circuit of the ladder can handle the word.
pub open spec fn has_circuit<A, I, M: GadgetMapper<A, I>>(p: CapacityPlanner<M>, word: Seq<Fr>, info: WordInfo<I>) -> bool {
    exists|l: int| 0 <= l < p.layered_circs@.len() && #[trigger] p.works::<A, I>(l, word, info)
}

/// Whether `pc` is the lowest circuit of the ladder that can handle the word.
pub open spec fn is_lowest<A, I, M: GadgetMapper<A, I>>(
    p: CapacityPlanner<M>,
    pc: int,
    word: Seq<Fr>,
    info: WordInfo<I>,
) -> bool {
    &&& 0 <= pc < p.layered_circs@.len()
    &&& p.works::<A, I>(pc, word, info)
    &&& forall|l: int| 0 <= l < pc ==> !#[trigger] p.works::<A, I>(l, word, info)
}

proof fn lemma_pc_of<A, I, M: GadgetMapper<A, I>>(d: Driver<M>, word: Seq<Fr>, info: WordInfo<I>)
    ensures
        d.pc_of::<A, I>(word, info) is Some <==> has_circuit::<A, I, M>(d.planner, word, info),
        d.pc_of::<A, I>(word, info) matches Some(pc) ==> is_lowest::<A, I, M>(d.planner, pc, word, info),
{
    law_first_working_is_lowest::<A, I, M>(d.planner, word, info, 0, d.n_circ() - 1);
}

/// Words have a plan exactly where each has a circuit that can handle it.
pub proof fn law_plan_needs_circuits<A, I, M: GadgetMapper<A, I>>(
    d: Driver<M>,
    words: Seq<Seq<Fr>>,
    infos: Seq<WordInfo<I>>,
    n: nat,
)
    ensures
        d.pcs::<A, I>(words, infos, n) is Ok <==> forall|i: int|
            0 <= i < n ==> has_circuit::<A, I, M>(d.planner, #[trigger] words[i], infos[i]),
    decreases n,
{
    if n > 0 {
        law_plan_needs_circuits::<A, I, M>(d, words, infos, (n - 1) as nat);
        let w = words[n - 1];
        lemma_pc_of::<A, I, M>(d, w, infos[n - 1]);
    }
}

/// The steps of each word are by the lowest circuit that can handle it.
pub proof fn law_words_are_proved_by_lowest_circuits<A, I, M: GadgetMapper<A, I>>(
    d: Driver<M>,
    words: Seq<Seq<Fr>>,
    infos: Seq<WordInfo<I>>,
    n: nat,
    i: nat,
    k: int,
)
    requires
        d.wf::<A, I>(),
        i < n,
        d.pcs::<A, I>(words, infos, n) is Ok,
        d.pcs::<A, I>(words, infos, i)->Ok_0.len() <= k < d.pcs::<A, I>(words, infos, (i + 1) as nat)->Ok_0.len(),
    ensures
        d.pcs::<A, I>(words, infos, (i + 1) as nat) is Ok,
        d.pcs::<A, I>(words, infos, (i + 1) as nat)->Ok_0.len() <= d.pcs::<A, I>(words, infos, n)->Ok_0.len(),
        is_lowest::<A, I, M>(
            d.planner,
            d.pcs::<A, I>(words, infos, n)->Ok_0[k] as int,
            words[i as int],
            infos[i as int],
        ),
    decreases n,
{
    if i + 1 < n {
        law_words_are_proved_by_lowest_circuits::<A, I, M>(d, words, infos, (n - 1) as nat, i, k);
    } else {
        lemma_pc_of::<A, I, M>(d, words[i as int], infos[i as int]);
    }
}

/// A word is sampled where it is at least four segments long and not too long; the sample is
/// the segment's length of elements from the word's middle on.
pub proof fn law_sample<A, I, M: GadgetMapper<A, I>>(p: CapacityPlanner<M>, word: Seq<Fr>)
    requires
        p.wf::<A, I>(),
    ensures
        ({
            let max = p.layered_circs@[0]@[0].max_len();
            &&& p.sampled::<A, I>(word) <==> 4 * max <= word.len() && word.len() <= 135300
            &&& p.sampled::<A, I>(word) ==> {
                let s = p.sample::<A, I>(word);
                &&& s.len() == max
                &&& forall|j: int| 0 <= j < max ==> #[trigger] s[j] == word[word.len() as int / 2 + j]
            }
        }),
{
}

/// The layer that is found for a word works for it. One is found where the last one works
/// for the word and, if it is sampled, for its sample; where the last one works for neither
/// the word nor its sample, none is.
pub proof fn law_working_layer<A, I, M: GadgetMapper<A, I>>(p: CapacityPlanner<M>, word: Seq<Fr>, info: WordInfo<I>)
    requires
        p.wf::<A, I>(),
    ensures
        ({
            let last = p.layered_circs@.len() - 1;
            let found = p.working::<A, I>(word, info);
            let sampled = p.sampled::<A, I>(word);
            &&& found matches Ok(r) ==> p.works::<A, I>(r, word, info)
            &&& p.works::<A, I>(last, word, info) && (sampled ==> p.works::<A, I>(
                last,
                p.sample::<A, I>(word),
                info,
            )) ==> found is Ok
            &&& sampled && !p.works::<A, I>(last, p.sample::<A, I>(word), info) ==> found is Err
            &&& !sampled ==> (found is Ok <==> p.works::<A, I>(last, word, info))
            &&& !sampled ==> (found matches Ok(r) ==> r == last)
        }),
{
}

} // verus!
