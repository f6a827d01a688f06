//! What a step of an incremental computation does, part by part.
use vstd::prelude::*;
use vstd::arithmetic::power2::pow2;
use crate::bigint::bits_value;
use crate::bigint::lemma_bits_bound;
use crate::bigint::lemma_bits_slice;
use crate::circuit_laws::are_zero_instances;
use crate::circuit_laws::law_dummies_are_zero;
use crate::circuits::cf_x;
use crate::commitment::CommitmentScheme;
use crate::curve::Grumpkin;
use crate::curve::G1;
use crate::cyclefold::PairAssignmentView;
use crate::cyclefold::PairContext;
use crate::cyclefold::PairState;
use crate::field::canonical;
use crate::field::f_one;
use crate::field::f_zero;
use crate::field::lemma_op_values;
use crate::field::lemma_units;
use crate::field::lemma_val_injective;
use crate::field::FieldModel;
use crate::field_fq::fq_modulus;
use crate::field_fq::Fq;
use crate::field_fr::fr_modulus;
use crate::field_fr::Fr;
use crate::fold_laws::is_instance_fold;
use crate::fold_laws::is_pair_instance_fold;
use crate::fold_laws::is_pair_witness_fold;
use crate::fold_laws::is_sum;
use crate::fold_laws::is_witness_fold;
use crate::fold_laws::law_instance_fold;
use crate::fold_laws::law_pair_instance_fold;
use crate::fold_laws::law_pair_witness_fold;
use crate::fold_laws::law_witness_fold;
use crate::foldpot::FoldPot;
use crate::foldpot::StepInputView;
use crate::foldpot::StepStateView;
use crate::foldpot_super::cp_elements;
use crate::foldpot_super::FoldPotSuper;
use crate::foldpot_super::SuperInputView;
use crate::foldpot_super::SuperStateView;
use crate::instance::Blinds;
use crate::instance::InstanceView;
use crate::instance::WitnessFoldPotView;
use crate::instance_super::InstanceSuperView;
use crate::limbs::lemma_powers;
use crate::nifs::step_transcript;
use crate::nova::fq_challenge;
use crate::nova::pair_transcript;
use crate::nova::PairFoldView;
use crate::part_two::chained;
use crate::r1cs::R1CS;
use crate::sponge::binary;
use crate::sponge::SpongeOpView;
use crate::sponge::SpongeView;
use crate::system_laws::lemma_affine;

verus! {

/// The `k` lowest binary digits of `n`, least significant first.
pub open spec fn low_bits(n: nat, k: nat) -> Seq<bool>
    decreases k,
{
    if k == 0 {
        Seq::empty()
    } else {
        seq![n % 2 == 1] + low_bits(n / 2, (k - 1) as nat)
    }
}

proof fn lemma_low_bits(n: nat, k: nat)
    requires
        n < pow2(k),
    ensures
        low_bits(n, k).len() == k,
        bits_value(low_bits(n, k)) == n,
    decreases k,
{
    if k == 0 {
        vstd::arithmetic::power2::lemma2_to64();
    } else {
        vstd::arithmetic::power2::lemma_pow2_unfold(k);
        lemma_low_bits(n / 2, (k - 1) as nat);
        assert(low_bits(n, k).drop_first() =~= low_bits(n / 2, (k - 1) as nat));
    }
}

/// The challenge of a fold is, as an element of either field, what the lowest 128 bits of
/// the next element that the sponge hands out stand for.
pub proof fn law_challenge_is_low_bits(s: SpongeView)
    requires
        s.output(1).len() == 1,
        canonical(s.output(1)[0]),
    ensures
        s.output_bits(128).len() == 128,
        Fr::of(bits_value(s.output_bits(128))).val() == s.output(1)[0].val() % pow2(128),
        fq_challenge(s.output_bits(128)).val() == s.output(1)[0].val() % pow2(128),
{
    lemma_powers();
    let e = s.output(1)[0];
    vstd::arithmetic::power2::lemma_pow2_adds(253, 3);
    vstd::arithmetic::power2::lemma2_to64();
    let d = pow2(253);
    assert(pow2(256) == 8 * d) by (nonlinear_arith)
        requires
            pow2(256) == d * 8,
    ;
    lemma_low_bits(e.val(), 256);
    assert(low_bits(e.val(), 256).len() == 256 && bits_value(low_bits(e.val(), 256)) == e.val());
    let b = binary(e.val());
    assert(b.len() == 256 && bits_value(b) == e.val());
    assert(SpongeView::elements_for_bits(128) == 1);
    reveal_with_fuel(crate::sponge::usable_bits, 2);
    let bits = s.output_bits(128);
    assert(s.output(1).drop_last() =~= Seq::empty());
    assert(bits =~= b.subrange(0, 128));
    lemma_bits_slice(b, 0, 128);
    assert(e.val() / 1 == e.val());
    lemma_bits_bound(bits);
    assert(pow2(128) < pow2(253)) by {
        vstd::arithmetic::power2::lemma_pow2_strictly_increases(128, 253);
    }
    Fr::lemma_val_of(bits_value(bits));
    vstd::arithmetic::div_mod::lemma_small_mod(bits_value(bits), fq_modulus());
    Fq::lemma_val_of(bits_value(bits));
}

/// Whether `x` and `y` are the coordinates of a point, zeros for infinity.
pub open spec fn coordinates_of(x: Fq, y: Fq, p: G1) -> bool {
    match p {
        G1::Infinity => x.val() == 0 && y.val() == 0,
        G1::Point(px, py) => x == px && y == py,
    }
}

/// The public values of the CycleFold circuit are the challenge and the coordinates of the
/// running, the incoming and the folded point.
pub proof fn law_cyclefold_values(r: Fq, a: G1, b: G1, c: G1)
    ensures
        ({
            let x = cf_x(r, a, b, c);
            &&& x.len() == 7
            &&& x[0] == r
            &&& coordinates_of(x[1], x[2], a)
            &&& coordinates_of(x[3], x[4], b)
            &&& coordinates_of(x[5], x[6], c)
        }),
{
    lemma_units::<Fq>();
}

/// Whether `f` is the fold of an assignment with the public values `x` into a running
/// witness on the second curve: the incoming instance commits to the assignment, the
/// challenge is drawn from the transcript that was told both instances and the commitment
/// to the cross term, and witness and instance are the folds with it.
pub open spec fn is_pair_fold<CS: CommitmentScheme<Fq, Grumpkin>>(
    ctx: PairContext<CS>,
    pp_hash: Fr,
    s: PairState,
    x: Seq<Fq>,
    a: PairAssignmentView,
    f: PairFoldView,
) -> bool {
    let t = ctx.r1cs.cross_term(
        f.incoming.u,
        R1CS::assignment(f.incoming.u, x, a.w),
        s.instance.u,
        R1CS::assignment(s.instance.u, s.instance.x, s.witness.w),
    );
    &&& f.incoming.x == x
    &&& f.incoming.u.val() == 1
    &&& f.incoming.cm_e is Infinity
    &&& ctx.cs.commit_spec(a.w, f.incoming_witness.r_w) == Some(f.incoming.cm_w)
    &&& f.incoming_witness.w == a.w
    &&& ctx.hiding ==> f.incoming_witness.r_w == a.r_w && f.incoming_witness.r_e == a.r_e
    &&& !ctx.hiding ==> f.incoming_witness.r_w.val() == 0 && f.incoming_witness.r_e.val() == 0
    &&& ctx.cs.commit_spec(t, f_zero::<Fq>()) == Some(f.cm_t)
    &&& f.r == fq_challenge(
        pair_transcript(s.transcript, pp_hash, s.instance.absorbed(), f.incoming.absorbed(), f.cm_t).output_bits(128),
    )
    &&& is_pair_witness_fold(f.witness, s.witness, f.r, f.incoming_witness, t)
    &&& is_pair_instance_fold(f.instance, s.instance, f.r, f.incoming, f.cm_t)
}

/// A fold on the second curve that succeeds is the fold of the assignment.
pub proof fn law_pair_fold_parts<CS: CommitmentScheme<Fq, Grumpkin>>(
    ctx: PairContext<CS>,
    pp_hash: Fr,
    s: PairState,
    x: Seq<Fq>,
    a: PairAssignmentView,
)
    requires
        ctx.r1cs.wf(),
        s.wf(ctx.r1cs),
        x.len() == ctx.r1cs.l,
        a.w.len() == s.witness.w.len(),
    ensures
        ctx.fold_spec(pp_hash, s, x, a) matches Ok(f) ==> {
            &&& is_pair_fold(ctx, pp_hash, s, x, a, f)
            &&& ctx.after(pp_hash, s, f).witness == f.witness
            &&& ctx.after(pp_hash, s, f).instance == f.instance
            &&& ctx.after(pp_hash, s, f).transcript.config == s.transcript.config
            &&& ctx.after(pp_hash, s, f).transcript.log == pair_transcript(
                s.transcript,
                pp_hash,
                s.instance.absorbed(),
                f.incoming.absorbed(),
                f.cm_t,
            ).log.push(SpongeOpView::Squeeze(1))
            &&& ctx.after(pp_hash, s, f).wf(ctx.r1cs)
            &&& f.witness.w.len() == s.witness.w.len()
        },
{
    lemma_units::<Fq>();
    if ctx.fold_spec(pp_hash, s, x, a) is Ok {
        let f = ctx.fold_spec(pp_hash, s, x, a)->Ok_0;
        let t = ctx.r1cs.cross_term(
            f.incoming.u,
            R1CS::assignment(f.incoming.u, x, a.w),
            s.instance.u,
            R1CS::assignment(s.instance.u, s.instance.x, s.witness.w),
        );
        assert(t.len() == ctx.r1cs.a.n_rows);
        assert(crate::nova::all_zero(f.incoming_witness.e));
        law_pair_witness_fold(f.witness, s.witness, f.r, f.incoming_witness, t);
        law_pair_instance_fold(f.instance, s.instance, f.r, f.incoming, f.cm_t);
    }
}

/// Whether `w` and `u` are the witness and the instance of an assignment that was not
/// folded yet: no error, `u` of one, and commitments to the assignment and to the part of
/// it that is the fixed memory, blinded only where commitments are hiding.
pub open spec fn is_fresh<CS: CommitmentScheme<Fr, G1>>(
    cs: CS,
    hiding: bool,
    blinds: Blinds,
    values: Seq<Fr>,
    n_rows: nat,
    start_f: nat,
    size_f: nat,
    x: Seq<Fr>,
    w: WitnessFoldPotView,
    u: InstanceView,
) -> bool {
    &&& w.w == values
    &&& w.e.len() == n_rows
    &&& forall|k: int| 0 <= k < n_rows ==> (#[trigger] w.e[k]).val() == 0
    &&& hiding ==> w.r_w == blinds.r_w && w.r_e == blinds.r_e && w.r_f == blinds.r_f
    &&& !hiding ==> w.r_w.val() == 0 && w.r_e.val() == 0 && w.r_f.val() == 0
    &&& w.start_f == start_f
    &&& w.size_f == size_f
    &&& u.x == x
    &&& u.u.val() == 1
    &&& u.cm_e is Infinity
    &&& cs.commit_spec(values, w.r_w) == Some(u.cm_w)
    &&& cs.commit_spec(values.subrange(start_f as int, (start_f + size_f) as int), w.r_f) == Some(u.cm_f)
}

proof fn lemma_fresh<CS: CommitmentScheme<Fr, G1>>(
    cs: CS,
    hiding: bool,
    blinds: Blinds,
    values: Seq<Fr>,
    n_rows: nat,
    start_f: nat,
    size_f: nat,
    x: Seq<Fr>,
)
    ensures
        ({
            let w = WitnessFoldPotView::new(values, n_rows, hiding, blinds, size_f, start_f);
            w.commit(cs, x) matches Some(u) ==> is_fresh(
                cs,
                hiding,
                blinds,
                values,
                n_rows,
                start_f,
                size_f,
                x,
                w,
                u,
            )
        }),
{
    lemma_units::<Fr>();
    let w = WitnessFoldPotView::new(values, n_rows, hiding, blinds, size_f, start_f);
    assert(crate::nova::all_zero(w.e));
}

/// Whether the CycleFold witness and instance were folded with three assignments one after
/// the other: for the folds of the commitments to the witness, to the error and to the
/// fixed memory, each with the challenge and the three points.
pub open spec fn cyclefold_stepped<CS: CommitmentScheme<Fq, Grumpkin>>(
    ctx: PairContext<CS>,
    pp_hash: Fr,
    s: PairState,
    bits: Seq<bool>,
    run: InstanceView,
    inc: InstanceView,
    cm_t: G1,
    next: InstanceView,
    a: crate::cyclefold::CycleAssignmentsView,
    f: crate::cyclefold::CycleFoldsView,
) -> bool {
    let r = fq_challenge(bits);
    let s1 = ctx.after(pp_hash, s, f.w);
    let s2 = ctx.after(pp_hash, s1, f.e);
    &&& is_pair_fold(ctx, pp_hash, s, cf_x(r, run.cm_w, inc.cm_w, next.cm_w), a.w, f.w)
    &&& is_pair_fold(ctx, pp_hash, s1, cf_x(r, run.cm_e, cm_t, next.cm_e), a.e, f.e)
    &&& is_pair_fold(ctx, pp_hash, s2, cf_x(r, run.cm_f, inc.cm_f, next.cm_f), a.f, f.f)
}

proof fn lemma_cyclefold<CS: CommitmentScheme<Fq, Grumpkin>>(
    ctx: PairContext<CS>,
    pp_hash: Fr,
    s: PairState,
    x: crate::cyclefold::CyclePublic,
    a: crate::cyclefold::CycleAssignmentsView,
)
    requires
        ctx.r1cs.wf(),
        s.wf(ctx.r1cs),
        x.w.len() == ctx.r1cs.l,
        x.e.len() == ctx.r1cs.l,
        x.f.len() == ctx.r1cs.l,
        a.wf(s.witness.w.len()),
    ensures
        ctx.folds_spec(pp_hash, s, x, a) matches Ok(f) ==> {
            let s1 = ctx.after(pp_hash, s, f.w);
            let s2 = ctx.after(pp_hash, s1, f.e);
            &&& is_pair_fold(ctx, pp_hash, s, x.w, a.w, f.w)
            &&& is_pair_fold(ctx, pp_hash, s1, x.e, a.e, f.e)
            &&& is_pair_fold(ctx, pp_hash, s2, x.f, a.f, f.f)
            &&& ctx.after_folds(pp_hash, s, f) == ctx.after(pp_hash, s2, f.f)
        },
{
    if ctx.folds_spec(pp_hash, s, x, a) is Ok {
        let f = ctx.folds_spec(pp_hash, s, x, a)->Ok_0;
        let s1 = ctx.after(pp_hash, s, f.w);
        let s2 = ctx.after(pp_hash, s1, f.e);
        law_pair_fold_parts(ctx, pp_hash, s, x.w, a.w);
        law_pair_fold_parts(ctx, pp_hash, s1, x.e, a.e);
        law_pair_fold_parts(ctx, pp_hash, s2, x.f, a.f);
    }
}

/// What a step that succeeds does. The counter goes up by one; the state becomes the next
/// link of the chain and the digest of the step's second part. The incoming witness and
/// instance are folded into the running ones with the challenge that is drawn from the
/// transcript which was told both instances and the commitment to the cross term. The
/// step's own assignment becomes the incoming one, and its public values are the digest of
/// what the running instance is after the step, with the counter and the two states, and
/// that of the CycleFold instance.
pub proof fn law_step_parts<CS1: CommitmentScheme<Fr, G1>, CS2: CommitmentScheme<Fq, Grumpkin>>(
    fp: FoldPot<CS1, CS2>,
    st: StepStateView,
    inp: StepInputView,
)
    requires
        fp.setup_wf(),
        fp.state_wf(st),
        fp.input_wf(inp),
        fp.step_spec(st, inp).1 is Ok,
    ensures
        ({
            let next = fp.step_spec(st, inp).0;
            let sponge = SpongeView::fresh(fp.poseidon_config@);
            let t = fp.r1cs.cross_term(
                st.u_i.u,
                R1CS::assignment(st.u_i.u, st.u_i.x, st.w_i.w),
                st.run_u.u,
                R1CS::assignment(st.run_u.u, st.run_u.x, st.run_w.w),
            );
            let cm_t = fp.cs_pp.commit_spec(t, f_zero::<Fr>())->0;
            let bits = step_transcript(
                sponge,
                fp.pp_hash,
                st.run_u.absorbed(),
                st.u_i.absorbed(),
                cm_t,
            ).output_bits(128);
            let r = Fr::of(bits_value(bits));
            &&& fp.cs_pp.commit_spec(t, f_zero::<Fr>()) is Some
            &&& next.i.val() == (st.i.val() + 1) % fr_modulus()
            &&& next.z_i.len() == 2
            &&& next.z_i[0] == chained(fp.poseidon_config@, st.z_i[0], inp.cm_f)
            &&& next.z_i[1] == inp.next_part2.hash(fp.poseidon_config@)
            &&& next.zi_part2_inst == inp.next_part2
            &&& is_instance_fold(next.run_u, st.run_u, r, st.u_i, cm_t)
            &&& is_witness_fold(next.run_w, st.run_w, r, st.w_i, t)
            &&& is_fresh(
                fp.cs_pp,
                fp.hiding,
                inp.blinds,
                inp.w,
                fp.r1cs.a.n_rows as nat,
                fp.start_f as nat,
                fp.size_f as nat,
                inp.x,
                next.w_i,
                next.u_i,
            )
            &&& next.u_i.x[0] == next.run_u.hash(sponge, fp.pp_hash, next.i, fp.z_0@, next.z_i)
            &&& next.u_i.x[1] == next.cf_u.hash_cyclefold(sponge, fp.pp_hash)
            &&& st.i.val() == 0 ==> next.cf_w == st.cf_w && next.cf_u == st.cf_u
            &&& st.i.val() != 0 ==> {
                let f = fp.cf_folds(st, inp)->Ok_0;
                &&& cyclefold_stepped(
                    fp.cf,
                    fp.pp_hash,
                    fp.cf_state(st),
                    bits,
                    st.run_u,
                    st.u_i,
                    cm_t,
                    next.run_u,
                    inp.cf,
                    f,
                )
                &&& fp.cf_state(st).witness == st.cf_w
                &&& fp.cf_state(st).instance == st.cf_u
                &&& fp.cf_state(st).transcript.config == fp.poseidon_config@
                &&& fp.cf_state(st).transcript.log == step_transcript(
                    sponge,
                    fp.pp_hash,
                    st.run_u.absorbed(),
                    st.u_i.absorbed(),
                    cm_t,
                ).log.push(SpongeOpView::Squeeze(1))
                &&& next.cf_w == f.f.witness
                &&& next.cf_u == f.f.instance
            }
        }),
{
    lemma_units::<Fr>();
    lemma_op_values(st.i, f_one::<Fr>());
    let next = fp.step_spec(st, inp).0;
    let t = fp.cross(st);
    let cm_t = fp.cm_t(st)->0;
    let r = fp.r(st);
    law_instance_fold(next.run_u, st.run_u, r, st.u_i, cm_t);
    law_witness_fold(next.run_w, st.run_w, r, st.w_i, t);
    lemma_fresh(
        fp.cs_pp,
        fp.hiding,
        inp.blinds,
        inp.w,
        fp.r1cs.a.n_rows as nat,
        fp.start_f as nat,
        fp.size_f as nat,
        inp.x,
    );
    if st.i.val() == 0 {
        lemma_val_injective(st.i, f_zero::<Fr>());
    } else {
        lemma_cyclefold(fp.cf, fp.pp_hash, fp.cf_state(st), fp.cf_public(st), inp.cf);
    }
}

/// When a step succeeds: the blinding values are there where they are asked for, no further
/// instances are given, state and inputs have their lengths, the counter fits, the
/// commitments can be made, the CycleFold circuits can be folded and the public values are
/// the digests.
pub proof fn law_step_succeeds<CS1: CommitmentScheme<Fr, G1>, CS2: CommitmentScheme<Fq, Grumpkin>>(
    fp: FoldPot<CS1, CS2>,
    st: StepStateView,
    inp: StepInputView,
)
    ensures
        fp.step_spec(st, inp).1 is Ok <==> {
            &&& fp.hiding && st.i.val() >= 1 ==> st.w_i.r_w.val() != 0 && st.w_i.r_e.val() != 0
            &&& fp.hiding && st.i.val() >= 2 ==> st.run_w.r_w.val() != 0 && st.run_w.r_e.val() != 0
            &&& !inp.other_instances
            &&& st.z_i.len() == fp.state_len
            &&& inp.external_inputs.len() == fp.external_inputs_len
            &&& st.i.val() <= usize::MAX
            &&& fp.cm_t(st) is Some
            &&& st.i.val() != 0 ==> fp.cf_folds(st, inp) is Ok
            &&& inp.x[0] == fp.next_x(st, inp)
            &&& inp.x[1] == fp.stepped(st, inp).cf_u.hash_cyclefold(fp.sponge(), fp.pp_hash)
            &&& fp.stepped(st, inp).w_i.commit(fp.cs_pp, inp.x) is Some
        },
{
    lemma_blinding(fp.hiding, st.i, st.w_i, st.run_w);
    lemma_units::<Fr>();
    if st.i.val() == 0 {
        lemma_val_injective(st.i, f_zero::<Fr>());
    }
}

proof fn lemma_blinding(hiding: bool, i: Fr, w: WitnessFoldPotView, run: WitnessFoldPotView)
    ensures
        crate::foldpot::blinding_error(hiding, i, w, run) is None <==> {
            &&& hiding && i.val() >= 1 ==> w.r_w.val() != 0 && w.r_e.val() != 0
            &&& hiding && i.val() >= 2 ==> run.r_w.val() != 0 && run.r_e.val() != 0
        },
{
    lemma_units::<Fr>();
    let zero = f_zero::<Fr>();
    if i.val() == 1 {
        lemma_val_injective(i, f_one::<Fr>());
    }
    let values = if i == f_one::<Fr>() {
        seq![w.r_w, w.r_e]
    } else {
        seq![w.r_w, w.r_e, run.r_w, run.r_e]
    };
    assert(values[0] == w.r_w && values[1] == w.r_e);
    assert forall|k: int| 0 <= k < values.len() && (#[trigger] values[k]).val() == 0 implies values.contains(zero) by {
        lemma_val_injective(values[k], zero);
    }
    if i != f_one::<Fr>() {
        assert(values[2] == run.r_w && values[3] == run.r_e);
    }
}

/// What a step of a computation with several circuits that succeeds does. As with one
/// circuit; the fold is into the running witness and instance of the circuit that the last
/// step took, those of the other circuits stay, the digests that the incoming instance
/// holds are folded too, and the step's circuit is noted.
pub proof fn law_step_parts_super<CS1: CommitmentScheme<Fr, G1>, CS2: CommitmentScheme<Fq, Grumpkin>>(
    fp: FoldPotSuper<CS1, CS2>,
    st: SuperStateView,
    inp: SuperInputView,
)
    requires
        fp.setup_wf(),
        fp.state_wf(st),
        fp.input_wf(inp),
        fp.step_spec(st, inp).1 is Ok,
    ensures
        ({
            let next = fp.step_spec(st, inp).0;
            let j = st.pc_i.val() as int;
            let (last, active) = (fp.circuits@[j], fp.circuits@[fp.pc_i1.val() as int]);
            let (run_w, run_u) = (st.run_w[j], st.run_u.insts[j]);
            let sponge = SpongeView::fresh(fp.poseidon_config@);
            let t = last.r1cs.cross_term(
                st.u_i.u,
                R1CS::assignment(st.u_i.u, st.u_i.x, st.w_i.w),
                run_u.u,
                R1CS::assignment(run_u.u, run_u.x, run_w.w),
            );
            let cm_t = last.cs_pp.commit_spec(t, f_zero::<Fr>())->0;
            let bits = step_transcript(
                sponge,
                fp.pp_hash,
                st.run_u.absorbed(),
                st.u_i.absorbed(),
                cm_t,
            ).output_bits(128);
            let r = Fr::of(bits_value(bits));
            &&& last.cs_pp.commit_spec(t, f_zero::<Fr>()) is Some
            &&& next.i.val() == (st.i.val() + 1) % fr_modulus()
            &&& next.pc_i == fp.pc_i1
            &&& next.run_u.pc_i == fp.pc_i1
            &&& next.z_i.len() == 2
            &&& next.z_i[0] == chained(fp.poseidon_config@, st.z_i[0], inp.cm_f)
            &&& next.z_i[1] == inp.next_part2.hash(fp.poseidon_config@)
            &&& next.zi_part2_inst == inp.next_part2
            &&& next.run_w.len() == st.run_w.len()
            &&& next.run_u.insts.len() == st.run_u.insts.len()
            &&& is_instance_fold(next.run_u.insts[j], run_u, r, st.u_i, cm_t)
            &&& is_witness_fold(next.run_w[j], run_w, r, st.w_i, t)
            &&& forall|k: int|
                #![trigger next.run_u.insts[k]]
                #![trigger next.run_w[k]]
                0 <= k < st.run_w.len() && k != j ==> next.run_u.insts[k] == st.run_u.insts[k] && next.run_w[k]
                    == st.run_w[k]
            &&& is_sum(next.run_u.x_1, st.run_u.x_1, r, st.u_i.x[1])
            &&& next.run_u.x_2 is Some <==> fp.b_full_mode
            &&& fp.b_full_mode ==> is_sum(next.run_u.x_2->0, st.run_u.x_2->0, r, st.u_i.x[2])
            &&& is_fresh(
                active.cs_pp,
                fp.hiding,
                inp.blinds,
                inp.w,
                active.r1cs.a.n_rows as nat,
                active.start_f as nat,
                active.size_f as nat,
                inp.x,
                next.w_i,
                next.u_i,
            )
            &&& st.i.val() != 0 ==> next.u_i.x[0] == next.run_u.hash(
                sponge,
                fp.pp_hash,
                next.i,
                next.pc_i,
                fp.z_0@,
                next.z_i,
            )
            &&& next.u_i.x[1] == next.cf_u.hash_cyclefold(sponge, fp.pp_hash)
            &&& fp.b_full_mode ==> next.u_i.x[2] == next.cp_u->0.hash_cyclefold(sponge, fp.pp_hash)
        }),
{
    lemma_units::<Fr>();
    lemma_op_values(st.i, f_one::<Fr>());
    let next = fp.step_spec(st, inp).0;
    let j = st.pc_i.val() as int;
    let t = fp.cross(st);
    let cm_t = fp.cm_t(st)->0;
    let r = fp.r(st);
    let (run_w, run_u) = (st.run_w[j], st.run_u.insts[j]);
    assert(fp.circuits@[j].wf(fp.x_len()));
    assert(t.len() == fp.circuits@[j].r1cs.a.n_rows);
    law_instance_fold(next.run_u.insts[j], run_u, r, st.u_i, cm_t);
    law_witness_fold(next.run_w[j], run_w, r, st.w_i, t);
    lemma_affine(st.run_u.x_1, r, st.u_i.x[1]);
    lemma_affine(st.run_u.x_2->0, r, st.u_i.x[2]);
    let active = fp.active();
    lemma_fresh(
        active.cs_pp,
        fp.hiding,
        inp.blinds,
        inp.w,
        active.r1cs.a.n_rows as nat,
        active.start_f as nat,
        active.size_f as nat,
        inp.x,
    );
}

/// What such a step does to the CycleFold and CyclePair witnesses: nothing in the first
/// step; in later ones the three CycleFold circuits of the fold are folded in, and where
/// pairings are folded, the CyclePair circuit that the second part of the state tells of,
/// with the transcript that the three left.
pub proof fn law_step_pairs_super<CS1: CommitmentScheme<Fr, G1>, CS2: CommitmentScheme<Fq, Grumpkin>>(
    fp: FoldPotSuper<CS1, CS2>,
    st: SuperStateView,
    inp: SuperInputView,
)
    requires
        fp.setup_wf(),
        fp.state_wf(st),
        fp.input_wf(inp),
        fp.step_spec(st, inp).1 is Ok,
    ensures
        ({
            let next = fp.step_spec(st, inp).0;
            let j = st.pc_i.val() as int;
            &&& st.i.val() == 0 ==> {
                &&& next.cf_w == st.cf_w && next.cf_u == st.cf_u
                &&& next.cp_w == st.cp_w && next.cp_u == st.cp_u
            }
            &&& st.i.val() != 0 ==> {
                let f = fp.cf_folds(st, inp)->Ok_0;
                let p = fp.cp_fold(st, inp)->Ok_0;
                let s = fp.cf_state(st);
                let s1 = fp.cf.after(fp.pp_hash, s, f.w);
                let s2 = fp.cf.after(fp.pp_hash, s1, f.e);
                let s3 = fp.cf.after(fp.pp_hash, s2, f.f);
                &&& s.witness == st.cf_w && s.instance == st.cf_u
                &&& s.transcript.config == fp.poseidon_config@
                &&& s.transcript.log == step_transcript(
                    SpongeView::fresh(fp.poseidon_config@),
                    fp.pp_hash,
                    st.run_u.absorbed(),
                    st.u_i.absorbed(),
                    fp.cm_t(st)->0,
                ).log.push(SpongeOpView::Squeeze(1))
                &&& cyclefold_stepped(
                    fp.cf,
                    fp.pp_hash,
                    s,
                    fp.r_bits(st),
                    st.run_u.insts[j],
                    st.u_i,
                    fp.cm_t(st)->0,
                    next.run_u.insts[j],
                    inp.cf,
                    f,
                )
                &&& next.cf_w == f.f.witness && next.cf_u == f.f.instance
                &&& fp.b_full_mode ==> {
                    &&& is_pair_fold(
                        fp.cp,
                        fp.pp_hash,
                        (PairState { witness: st.cp_w->0, instance: st.cp_u->0, transcript: s3.transcript }),
                        cp_elements(inp.next_part2.cyclepair_input->0),
                        inp.cp,
                        p,
                    )
                    &&& next.cp_w == Some(p.witness)
                    &&& next.cp_u == Some(p.instance)
                }
                &&& !fp.b_full_mode ==> next.cp_w is None && next.cp_u is None
            }
        }),
{
    lemma_units::<Fr>();
    if st.i.val() == 0 {
        lemma_val_injective(st.i, f_zero::<Fr>());
    } else {
        lemma_cyclefold(fp.cf, fp.pp_hash, fp.cf_state(st), fp.cf_public(st), inp.cf);
        if fp.b_full_mode {
            law_pair_fold_parts(fp.cp, fp.pp_hash, fp.cp_state(st, inp), fp.cp_public(inp), inp.cp);
        }
    }
}

/// The elements that the input of a pairing circuit stands for: each is what five limbs of
/// 55 bits give, least significant first, modulo the base field's modulus.
pub proof fn law_pairing_elements(v: Seq<Fr>, k: int)
    requires
        v.len() == 160,
        0 <= k < 32,
    ensures
        cp_elements(v).len() == 32,
        cp_elements(v)[k].val() == (v[5 * k].val() + pow2(55) * v[5 * k + 1].val() + pow2(110) * v[5 * k + 2].val()
            + pow2(165) * v[5 * k + 3].val() + pow2(220) * v[5 * k + 4].val()) % fq_modulus(),
{
    lemma_powers();
    Fq::lemma_modulus();
    let s = v.subrange(5 * k, 5 * k + 5);
    let b = pow2(55);
    reveal_with_fuel(crate::limbs::limbs_number, 6);
    let (a0, a1, a2, a3, a4) = (s[0].val(), s[1].val(), s[2].val(), s[3].val(), s[4].val());
    assert(crate::limbs::limbs_number(s) == a0 + b * (a1 + b * (a2 + b * (a3 + b * (a4 + b * 0)))));
    assert(a0 + b * (a1 + b * (a2 + b * (a3 + b * (a4 + b * 0)))) == a0 + b * a1 + (b * b) * a2 + (b * b * b) * a3 + (b
        * b * b * b) * a4) by (nonlinear_arith);
    let n = crate::limbs::limbs_number(s);
    vstd::arithmetic::div_mod::lemma_mod_bound(n as int, fq_modulus() as int);
    Fq::lemma_val_of(n % fq_modulus());
}

/// When a step of a computation with several circuits succeeds: as with one circuit, by the
/// running witness of the last step's circuit, the lengths of the step's own one, and where
/// pairings are folded, the fold of the CyclePair circuit and the third public value too.
pub proof fn law_step_succeeds_super<CS1: CommitmentScheme<Fr, G1>, CS2: CommitmentScheme<Fq, Grumpkin>>(
    fp: FoldPotSuper<CS1, CS2>,
    st: SuperStateView,
    inp: SuperInputView,
)
    ensures
        fp.step_spec(st, inp).1 is Ok <==> {
            let run = st.run_w[st.pc_i.val() as int];
            let active = fp.circuits@[fp.pc_i1.val() as int];
            let next = fp.stepped(st, inp);
            &&& fp.hiding && st.i.val() >= 1 ==> st.w_i.r_w.val() != 0 && st.w_i.r_e.val() != 0
            &&& fp.hiding && st.i.val() >= 2 ==> run.r_w.val() != 0 && run.r_e.val() != 0
            &&& !inp.other_instances
            &&& st.z_i.len() == active.state_len
            &&& inp.external_inputs.len() == active.external_inputs_len
            &&& st.i.val() <= usize::MAX
            &&& fp.cm_t(st) is Some
            &&& st.i.val() != 0 ==> fp.cf_folds(st, inp) is Ok
            &&& st.i.val() != 0 && fp.b_full_mode ==> fp.cp_fold(st, inp) is Ok
            &&& inp.x[0] == fp.next_x(st, inp)
            &&& inp.x[1] == next.cf_u.hash_cyclefold(fp.sponge(), fp.pp_hash)
            &&& fp.b_full_mode ==> inp.x[2] == next.cp_u->0.hash_cyclefold(fp.sponge(), fp.pp_hash)
            &&& next.w_i.commit(active.cs_pp, inp.x) is Some
        },
{
    lemma_blinding(fp.hiding, st.i, st.w_i, st.run_w[st.pc_i.val() as int]);
    lemma_units::<Fr>();
    if st.i.val() == 0 {
        lemma_val_injective(st.i, f_zero::<Fr>());
    }
}

/// The first public value of the first step with several circuits: the digest of the
/// instances of zeros that note the step's circuit, with the counter at one.
pub proof fn law_first_value_super<CS1: CommitmentScheme<Fr, G1>, CS2: CommitmentScheme<Fq, Grumpkin>>(
    fp: FoldPotSuper<CS1, CS2>,
    st: SuperStateView,
    inp: SuperInputView,
    u: InstanceSuperView,
    one: Fr,
)
    requires
        st.i.val() == 0,
        one.val() == 1,
        are_zero_instances(
            u,
            if fp.b_full_mode {
                3
            } else {
                2
            },
            fp.circuits@.len(),
            fp.b_full_mode,
            fp.pc_i1,
        ),
    ensures
        fp.next_x(st, inp) == u.hash(
            SpongeView::fresh(fp.poseidon_config@),
            fp.pp_hash,
            one,
            fp.pc_i1,
            fp.z_0@,
            fp.next_z(st, inp),
        ),
{
    lemma_units::<Fr>();
    lemma_val_injective(st.i, f_zero::<Fr>());
    lemma_val_injective(one, f_one::<Fr>());
    law_dummies_are_zero(u, fp.x_len(), fp.circuits@.len(), fp.b_full_mode, fp.pc_i1);
}

} // verus!
