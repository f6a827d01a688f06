//! Laws of the smaller values: points, numbers as text, digests of parameters, dummies,
//! sizes, and which error is given when.
use vstd::prelude::*;
use crate::calldata_laws::be_value;
use crate::calldata_laws::lemma_be_of_reversed;
use crate::capacity_planner::num_segs;
use crate::capacity_planner::segment;
use crate::capacity_planner::word_advices;
use crate::capacity_planner::GadgetMapper;
use crate::capacity_planner::Plan;
use crate::capacity_planner::WordInfo;
use crate::circuit_laws::is_zero_instance;
use crate::circuit_laws::law_dummy_is_zero;
use crate::curve::g1_add;
use crate::curve::g1_mul;
use crate::curve::g1_plus;
use crate::curve::g1_times;
use crate::curve::grumpkin_add;
use crate::curve::grumpkin_mul;
use crate::curve::grumpkin_plus;
use crate::curve::grumpkin_times;
use crate::curve::Grumpkin;
use crate::curve::G1;
use crate::cyclepair::agree_on_common;
use crate::decider::total;
use crate::decider_circuits::Phase1RetView;
use crate::error::ErrorView;
use crate::error_text::decimal;
use crate::error_text::digit;
use crate::field::canonical;
use crate::field::f_zero;
use crate::field::lemma_units;
use crate::field::lemma_val_injective;
use crate::field::FieldModel;
use crate::field_fq::Fq;
use crate::field_fr::fr_modulus;
use crate::field_fr::Fr;
use crate::foldpot::blinding_error;
use crate::foldpot::input_error;
use crate::foldpot::key_len;
use crate::foldpot_super::hashes_bytes;
use crate::foldpot_super::sha3_256;
use crate::foldpot_super::vp_hashes;
use crate::foldpot_super::VerifierParamsFoldPotSuper;
use crate::instance::WitnessFoldPotView;
use crate::instance_super::dummy_insts;
use crate::instance_super::dummy_wits;
use crate::jobs::dummy_step;
use crate::jobs::is_largest;
use crate::jobs::total_lens;
use crate::jobs::word_counts;
use crate::jobs::FoldPotJob;
use crate::plan_laws::law_low32_keeps_numbers;
use crate::r1cs::R1CS;
use crate::setup_laws::is_zero_witness;
use crate::sigma_laws::hold_elements;
use crate::sigma_laws::law_elements_bytes;
use crate::vecs::joined;
use crate::vecs::rows;

verus! {

/// Sums and multiples of points are what the curve gives, but that two points at infinity
/// add to infinity, and that infinity and the multiple by zero are infinity.
pub proof fn law_point_operations(a: G1, b: G1, s: Fr, c: Grumpkin, d: Grumpkin, t: Fq)
    ensures
        a is Infinity && b is Infinity ==> g1_plus(a, b) is Infinity,
        a is Point || b is Point ==> g1_plus(a, b) == g1_add(a, b),
        a is Infinity || s.val() == 0 ==> g1_times(a, s) is Infinity,
        a is Point && s.val() != 0 ==> g1_times(a, s) == g1_mul(a, s),
        c is Infinity && d is Infinity ==> grumpkin_plus(c, d) is Infinity,
        c is Point || d is Point ==> grumpkin_plus(c, d) == grumpkin_add(c, d),
        c is Infinity || t.val() == 0 ==> grumpkin_times(c, t) is Infinity,
        c is Point && t.val() != 0 ==> grumpkin_times(c, t) == grumpkin_mul(c, t),
{
    lemma_units::<Fr>();
    lemma_units::<Fq>();
    if s.val() == 0 {
        lemma_val_injective(s, f_zero::<Fr>());
    }
    if t.val() == 0 {
        lemma_val_injective(t, f_zero::<Fq>());
    }
}

/// A point leads through its coordinates back to itself; coordinates of zero are those of
/// infinity.
pub proof fn law_coordinates(p: G1, x: Fq, y: Fq)
    ensures
        p is Infinity ==> p.xy().0.val() == 0 && p.xy().1.val() == 0,
        p.proper() ==> G1::of_xy(p.xy().0, p.xy().1) == p,
        x.val() == 0 && y.val() == 0 ==> G1::of_xy(x, y) is Infinity,
        x.val() != 0 || y.val() != 0 ==> G1::of_xy(x, y) == G1::Point(x, y),
{
    lemma_units::<Fq>();
    if x.val() == 0 && y.val() == 0 {
        lemma_val_injective(x, f_zero::<Fq>());
        lemma_val_injective(y, f_zero::<Fq>());
    }
}

/// The number that a text of decimal digits stands for.
pub open spec fn number_of(s: Seq<char>) -> int
    decreases s.len(),
{
    if s.len() == 0 {
        0
    } else {
        10 * number_of(s.drop_last()) + (s.last() as int - '0' as int)
    }
}

/// A number's text consists of digits, does not start with zero unless it is zero, and
/// stands for the number.
pub proof fn law_decimal(n: nat)
    ensures
        decimal(n).len() > 0,
        forall|k: int| 0 <= k < decimal(n).len() ==> '0' <= #[trigger] decimal(n)[k] && decimal(n)[k] <= '9',
        n > 0 ==> decimal(n)[0] != '0',
        number_of(decimal(n)) == n,
    decreases n,
{
    let d = decimal(n);
    lemma_digit(n % 10);
    lemma_digit(n);
    if n >= 10 {
        law_decimal(n / 10);
        let front = decimal(n / 10);
        assert(d.drop_last() =~= front);
        assert(d.last() == digit(n % 10)[0]);
        assert forall|k: int| 0 <= k < d.len() implies '0' <= #[trigger] d[k] && d[k] <= '9' by {
            if k < front.len() {
                assert(d[k] == front[k]);
            }
        }
    } else {
        assert(d.drop_last() =~= Seq::empty());
        reveal_with_fuel(number_of, 2);
    }
}

proof fn lemma_digit(n: nat)
    ensures
        digit(n).len() == 1,
        n < 10 ==> digit(n)[0] as int == '0' as int + n,
{
    reveal_strlit("0");
    reveal_strlit("1");
    reveal_strlit("2");
    reveal_strlit("3");
    reveal_strlit("4");
    reveal_strlit("5");
    reveal_strlit("6");
    reveal_strlit("7");
    reveal_strlit("8");
    reveal_strlit("9");
}

/// The digest of all parameters: the number of the digest of the bytes that hold the
/// circuits' digests in their order, least significant first, modulo the field's modulus.
pub proof fn law_parameters_digest(vp: VerifierParamsFoldPotSuper)
    requires
        forall|k: int| 0 <= k < vp.vec_vp@.len() ==> canonical((#[trigger] vp.vec_vp@[k]).pp_hash),
    ensures
        ({
            let bytes = hashes_bytes(vp_hashes(vp.vec_vp@));
            let v = Seq::new(vp.vec_vp@.len(), |k: int| vp.vec_vp@[k].pp_hash);
            &&& hold_elements(bytes, v)
            &&& vp.pp_hash_spec().val() == be_value(sha3_256(bytes).reverse()) % fr_modulus()
        }),
{
    let v = Seq::new(vp.vec_vp@.len(), |k: int| vp.vec_vp@[k].pp_hash);
    assert(vp_hashes(vp.vec_vp@) =~= v);
    assert forall|k: int| 0 <= k < v.len() implies canonical(#[trigger] v[k]) by {
        let c = vp.vec_vp@[k];
    }
    law_elements_bytes(v);
    let d = sha3_256(hashes_bytes(v));
    lemma_be_of_reversed(d);
    Fr::lemma_modulus();
    vstd::arithmetic::div_mod::lemma_mod_bound(crate::bigint::le_value(d) as int, fr_modulus() as int);
    Fr::lemma_val_of(crate::bigint::le_value(d) % fr_modulus());
}

/// The step of a dummy word for a circuit: one word, one segment that is the whole word, no
/// change of circuit, and no values of a batch proof.
pub proof fn law_dummy_step(id: nat, n_circ: nat, wlen: nat)
    requires
        id < 0x1_0000_0000,
        n_circ < 0x1_0000_0000,
        wlen < 0x1_0000_0000,
    ensures
        ({
            let s = dummy_step(id, n_circ, wlen);
            &&& s.total_words.val() == 1 && s.word_id.val() == 1
            &&& s.subseg_id.val() == 1 && s.total_word_segs.val() == 1
            &&& s.total_word_len.val() == wlen
            &&& s.act_word_subseg_size.val() == wlen
            &&& s.accumulated_word_len.val() == wlen
            &&& s.n_circ.val() == n_circ
            &&& s.pc_i.val() == id && s.pc_i1.val() == id
            &&& s.batch_r.val() == 0 && s.batch_v.val() == 0
            &&& s.r_all_words.val() == 0 && s.r_kzg_len.val() == 0
            &&& s.r_vec_r.val() == 0 && s.r_vec_v.val() == 0 && s.r_word_i.val() == 0
        }),
{
    lemma_units::<Fr>();
    law_low32_keeps_numbers(id);
    law_low32_keeps_numbers(n_circ);
    law_low32_keeps_numbers(wlen);
}

/// The largest of numbers is one of them and none is larger; there is only one.
pub proof fn law_largest(v: Seq<nat>, n: nat, m: nat)
    requires
        v.len() > 0,
        is_largest(v, n),
        is_largest(v, m),
    ensures
        n == m,
        exists|k: int| 0 <= k < v.len() && #[trigger] v[k] == n,
        forall|k: int| 0 <= k < v.len() ==> #[trigger] v[k] <= n,
{
    let i = choose|i: int| 0 <= i < v.len() && v[i] == n;
    let j = choose|j: int| 0 <= j < v.len() && v[j] == m;
    assert(v[i] <= m && v[j] <= n);
}

/// The sum of sizes, told by the partial sums.
pub proof fn law_total(v: Seq<usize>, sums: Seq<int>)
    requires
        sums.len() == v.len() + 1,
        sums[0] == 0,
        forall|k: int| 0 <= k < v.len() ==> sums[k + 1] == sums[k] + #[trigger] v[k],
    ensures
        total(v) == sums[v.len() as int],
    decreases v.len(),
{
    if v.len() > 0 {
        let (w, s) = (v.drop_last(), sums.drop_last());
        assert forall|k: int| 0 <= k < w.len() implies s[k + 1] == s[k] + #[trigger] w[k] by {
            assert(w[k] == v[k]);
        }
        law_total(w, s);
        assert(v[v.len() - 1] == v.last());
    }
}

/// A key is long enough for the columns and for the lookup table with one element more, and
/// not longer than the larger of the two.
pub proof fn law_key_len(n_cols: nat, lk_size: nat)
    ensures
        key_len(n_cols, lk_size) >= n_cols,
        key_len(n_cols, lk_size) >= lk_size + 1,
        key_len(n_cols, lk_size) == n_cols || key_len(n_cols, lk_size) == lk_size + 1,
{
}

/// What is wrong with a step's input: the first of these that holds is told.
pub proof fn law_input_errors(other: bool, z_len: nat, state_len: nat, inputs: nat, expected: nat, i: Fr)
    requires
        z_len <= usize::MAX,
        state_len <= usize::MAX,
        inputs <= usize::MAX,
        expected <= usize::MAX,
    ensures
        ({
            let e = input_error(other, z_len, state_len, inputs, expected, i);
            &&& other <==> e == Some(ErrorView::NoMultiInstances)
            &&& !other && z_len != state_len <==> (e matches Some(ErrorView::NotSameLength(a, n, b, m)) && a
                == "z_i.len()"@ && n == z_len && b == "F.state_len()"@ && m == state_len && z_len != state_len
                && !other)
            &&& !other && z_len == state_len && inputs != expected ==> (e matches Some(
                ErrorView::NotSameLength(a, n, b, m),
            ) && a == "F.external_inputs_len()"@ && n == expected && b == "external_inputs.len()"@ && m == inputs)
            &&& e == Some(ErrorView::MaxStep) <==> !other && z_len == state_len && inputs == expected && i.val()
                > usize::MAX
            &&& e is None <==> !other && z_len == state_len && inputs == expected && i.val() <= usize::MAX
        }),
{
}

/// Which blinding values are told where one of them is zero: those of the incoming witness,
/// and behind the second step those of the running one.
pub proof fn law_blinding_errors(hiding: bool, i: Fr, w: WitnessFoldPotView, run: WitnessFoldPotView)
    ensures
        !hiding || i.val() == 0 ==> blinding_error(hiding, i, w, run) is None,
        blinding_error(hiding, i, w, run) matches Some(e) ==> e == ErrorView::IncorrectBlinding(
            true,
            if i.val() == 1 {
                seq![w.r_w, w.r_e]
            } else {
                seq![w.r_w, w.r_e, run.r_w, run.r_e]
            },
        ),
{
    lemma_units::<Fr>();
    if i.val() == 1 {
        lemma_val_injective(i, crate::field::f_one::<Fr>());
    }
}

/// What a circuit gives before anything is known: zeros, and seven points at infinity.
pub proof fn law_dummy_result()
    ensures
        ({
            let r = Phase1RetView::dummy();
            &&& r.ch.val() == 0 && r.rc.val() == 0 && r.kzg_sum.val() == 0 && r.final_result.val() == 0
            &&& r.kzg_all_com_ch.val() == 0 && r.eval_w_e.val() == 0
            &&& r.vec_coms.len() == 7
            &&& forall|k: int| 0 <= k < 7 ==> (#[trigger] r.vec_coms[k]) is Infinity
            &&& is_zero_instance(r.u_i, 2)
            &&& r.u_i1_0_cm_e is Infinity && r.u_i1_0_cm_w is Infinity && r.u_i1_0_cm_f is Infinity
        }),
{
    lemma_units::<Fr>();
    law_dummy_is_zero(Phase1RetView::dummy().u_i, 2);
}

/// What a plan for a word tells of each segment: its length, the circuit that takes it and
/// what that circuit can handle; and where advices are kept, there is one for each.
pub proof fn law_plan_of_word<A, I, M: GadgetMapper<A, I>>(
    p: Plan<A>,
    m: M,
    ahead: bool,
    layer: nat,
    word: Seq<Fr>,
    info: WordInfo<I>,
    save: bool,
    k: nat,
)
    requires
        p.is_for::<I, M>(m, ahead, layer, word, info, save),
        m.max_len() > 0,
        word.len() <= usize::MAX,
        layer <= usize::MAX,
        k < num_segs(word.len(), m.max_len()),
    ensures
        p.layer == layer,
        p.num_segs == num_segs(word.len(), m.max_len()),
        p.vec_size@.len() == p.num_segs,
        p.vec_size@[k as int] == segment(word, m.max_len(), k).len(),
        p.vec_pci@.len() == p.num_segs,
        p.vec_pci@[k as int] == layer,
        p.vec_cap@.len() == p.num_segs,
        p.vec_cap@[k as int]@ == m.capacity(),
        word_advices::<A, I, M>(m, ahead, word, info) is Ok,
        save ==> p.vec_adv@ == word_advices::<A, I, M>(m, ahead, word, info)->Ok_0,
        !save ==> p.vec_adv@.len() == 0,
{
    crate::statement_laws::law_segment(word, m.max_len(), k);
    let max = m.max_len();
    let end = crate::capacity_planner::seg_end(word.len(), max, k);
    assert((k + 1) * max == k * max + max) by (nonlinear_arith);
    assert(k * max <= end <= word.len());
    assert(segment(word, max, k).len() == end - k * max);
    assert(p.vec_size@[k as int] == (end - (k as int) * max) as usize);
    let caps = crate::capacity_planner::capacity_views(p.vec_cap@);
    assert(caps.len() == p.vec_cap@.len());
    assert(caps[k as int] == p.vec_cap@[k as int]@);
}

/// Lists that agree where both have elements are the same where they are equally long.
pub proof fn law_agreement(a: Seq<Fq>, b: Seq<Fq>)
    ensures
        a.len() == b.len() ==> (agree_on_common(a, b) <==> a == b),
        agree_on_common(a, b) <==> forall|k: int|
            0 <= k < a.len() && k < b.len() ==> (#[trigger] a[k]).val() == b[k].val(),
{
    if forall|k: int| 0 <= k < a.len() && k < b.len() ==> (#[trigger] a[k]).val() == b[k].val() {
        assert forall|k: int| 0 <= k < a.len() && k < b.len() implies a[k] == b[k] by {
            lemma_val_injective(a[k], b[k]);
        }
    }
    if agree_on_common(a, b) && a.len() == b.len() {
        assert(a =~= b);
    }
}

/// The sizes of jobs: of each how many words it has, and the sum of their lengths, told by
/// the partial sums.
pub proof fn law_job_sizes<I>(jobs: Seq<FoldPotJob<I>>, k: int, sums: Seq<int>)
    requires
        0 <= k < jobs.len(),
        sums.len() == jobs[k].vec_words@.len() + 1,
        sums[0] == 0,
        forall|i: int|
            0 <= i < jobs[k].vec_words@.len() ==> sums[i + 1] == sums[i] + (#[trigger] jobs[k].vec_words@[i])@.len(),
    ensures
        word_counts(jobs).len() == jobs.len(),
        word_counts(jobs)[k] == jobs[k].vec_words@.len(),
        total_lens(jobs).len() == jobs.len(),
        total_lens(jobs)[k] == sums.last(),
{
    let w = jobs[k].vec_words@;
    lemma_joined_len(w, sums, w.len() as int);
    assert(rows(w).take(w.len() as int) =~= rows(w));
}

proof fn lemma_joined_len(w: Seq<Vec<Fr>>, sums: Seq<int>, n: int)
    requires
        0 <= n <= w.len(),
        sums.len() == w.len() + 1,
        sums[0] == 0,
        forall|i: int| 0 <= i < w.len() ==> sums[i + 1] == sums[i] + (#[trigger] w[i])@.len(),
    ensures
        joined(rows(w).take(n)).len() == sums[n],
    decreases n,
{
    if n > 0 {
        lemma_joined_len(w, sums, n - 1);
        assert(rows(w).take(n).drop_last() =~= rows(w).take(n - 1));
        assert(rows(w).take(n).last() == w[n - 1]@);
    }
}

/// The dummies for several systems: of each the witness and the instance of zeros with its
/// own sizes.
pub proof fn law_dummies(r1cs: Seq<R1CS<Fr>>, size_f: Seq<usize>, start_f: Seq<usize>, n: nat, k: int)
    requires
        0 <= k < n <= r1cs.len(),
        r1cs[k].wf(),
    ensures
        dummy_wits(r1cs, size_f, start_f, n).len() == n,
        dummy_insts(r1cs, n).len() == n,
        is_zero_instance(dummy_insts(r1cs, n)[k], r1cs[k].l as nat),
        is_zero_witness(
            dummy_wits(r1cs, size_f, start_f, n)[k],
            (r1cs[k].a.n_cols - 1 - r1cs[k].l) as nat,
            r1cs[k].a.n_rows as nat,
            size_f[k] as nat,
            start_f[k] as nat,
        ),
{
    lemma_units::<Fr>();
    law_dummy_is_zero(dummy_insts(r1cs, n)[k], r1cs[k].l as nat);
}

} // verus!
