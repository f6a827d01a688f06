//! What the circuits that end a computation check, and what their public inputs are.
use vstd::prelude::*;
use crate::batch_laws::five_pairings_are_one;
use crate::batch_laws::is_gt_one;
use crate::batch_laws::law_same_vector_check;
use crate::batch_laws::law_value_is_power_sum;
use crate::batch_laws::power_sum;
use crate::batch_proc::BatchPartTwo;
use crate::batch_proc::BatchProcessor;
use crate::batch_proc::BatchProof;
use crate::batch_proc::PartTwoKeys;
use crate::bigint::bits_value;
use crate::circuits::AugmentedFCircuitFoldPot;
use crate::circuits::StepValuesView;
use crate::commitment::CommitmentScheme;
use crate::commitment::KZGProof;
use crate::commitment::OpeningVerifier;
use crate::curve::g1_sub;
use crate::curve::G1;
use crate::decider::groth16_verdict;
use crate::decider::key_framed;
use crate::decider_circuit::after_kzg_challenges;
use crate::decider_circuit::after_points;
use crate::decider_circuit::end_challenges;
use crate::decider_circuit::joined_f;
use crate::decider_circuit::kzg_challenges;
use crate::decider_circuit::DeciderEthCircuitSuper;
use crate::decider_circuits::cms_e;
use crate::decider_circuits::cms_f;
use crate::decider_circuits::cms_w;
use crate::decider_circuits::Phase1Circuit;
use crate::decider_laws::lemma_point;
use crate::decider_laws::list_at;
use crate::decider_laws::point_at;
use crate::field::f_one;
use crate::field::f_zero;
use crate::field::lemma_op_values;
use crate::field::lemma_units;
use crate::field::lemma_val_injective;
use crate::field::FieldModel;
use crate::field_fq::Fq;
use crate::field_fr::fr_modulus;
use crate::field_fr::Fr;
use crate::fold_laws::are_sums;
use crate::fold_laws::is_instance_fold;
use crate::fold_laws::is_sum;
use crate::fold_laws::law_instance_fold;
use crate::fold_laws::law_public_fold;
use crate::instance::InstanceView;
use crate::instance::WitnessFoldPotView;
use crate::instance_super::all_values;
use crate::instance_super::joined_e;
use crate::instance_super::joined_w;
use crate::instance_super::wit_views;
use crate::instance_super::InstanceSuperView;
use crate::limbs::g1_limbs;
use crate::nifs::step_transcript;
use crate::pair_laws::law_commitments;
use crate::sponge::poseidon_output;
use crate::sponge::PoseidonConfigView;
use crate::sponge::SpongeOpView;
use crate::sponge::SpongeView;
use crate::system_laws::law_check_is_satisfaction;
use crate::system_laws::satisfies;
use crate::transcript_laws::law_digests;
use crate::transcript_laws::told;
use crate::two_phase::rows_chain_a;
use crate::two_phase::rows_chain_b;
use crate::two_phase::Phase2Circuit;
use crate::two_phase::TwoPhaseCircInput;
use crate::two_phase::TwoPhaseDeciderEthCircuitSuper;
use crate::vecs::rows;

verus! {

/// Whether an instance is the one of zeros with `n` public values.
pub open spec fn is_zero_instance(u: InstanceView, n: nat) -> bool {
    &&& u.u.val() == 0
    &&& u.x.len() == n
    &&& forall|k: int| 0 <= k < n ==> (#[trigger] u.x[k]).val() == 0
    &&& u.cm_w is Infinity && u.cm_e is Infinity && u.cm_f is Infinity
}

/// The instance of zeros is the only one.
pub proof fn law_dummy_is_zero(u: InstanceView, n: nat)
    ensures
        u == InstanceView::dummy(n) <==> is_zero_instance(u, n),
{
    lemma_units::<Fr>();
    let d = InstanceView::dummy(n);
    if is_zero_instance(u, n) {
        lemma_val_injective(u.u, d.u);
        assert forall|k: int| 0 <= k < n implies u.x[k] == d.x[k] by {
            lemma_val_injective(u.x[k], d.x[k]);
        }
        assert(u.x =~= d.x);
    }
}

/// Whether the instances of several circuits are those before the first step: `n` of zeros
/// with `io` public values each, digests of zero and the circuit `pc`.
pub open spec fn are_zero_instances(u: InstanceSuperView, io: nat, n: nat, full: bool, pc: Fr) -> bool {
    &&& u.insts.len() == n
    &&& forall|k: int| 0 <= k < n ==> is_zero_instance(#[trigger] u.insts[k], io)
    &&& u.x_1.val() == 0
    &&& u.x_2 is Some <==> full
    &&& full ==> u.x_2->0.val() == 0
    &&& u.pc_i == pc
}

/// The instances before the first step are the only ones of zeros.
pub proof fn law_dummies_are_zero(u: InstanceSuperView, io: nat, n: nat, full: bool, pc: Fr)
    ensures
        u == (InstanceSuperView { pc_i: pc, ..InstanceSuperView::dummy(io, n, full) }) <==> are_zero_instances(
            u,
            io,
            n,
            full,
            pc,
        ),
{
    lemma_units::<Fr>();
    let d = InstanceSuperView { pc_i: pc, ..InstanceSuperView::dummy(io, n, full) };
    law_dummy_is_zero(InstanceView::dummy(io), io);
    if are_zero_instances(u, io, n, full, pc) {
        assert forall|k: int| 0 <= k < n implies u.insts[k] == d.insts[k] by {
            law_dummy_is_zero(u.insts[k], io);
        }
        assert(u.insts =~= d.insts);
        lemma_val_injective(u.x_1, d.x_1);
        if full {
            lemma_val_injective(u.x_2->0, d.x_2->0);
        }
    }
}

/// What the augmented circuit computes for its first public value: the digest of the
/// running instance after the fold, with the counter gone up by one, or of the instance of
/// zeros in the first step. The incoming instance is not relaxed, has the commitments that
/// the circuit is given, and its public values are the digests of the running instance and
/// of the running CycleFold instance; the fold is with the challenge that is drawn for it.
pub proof fn law_augmented_value(
    v: StepValuesView,
    sponge: SpongeView,
    z_i1: Seq<Fr>,
    inc: InstanceView,
    next: InstanceView,
    i1: Fr,
)
    requires
        v.wf(),
        inc.cm_e is Infinity,
        inc.u.val() == 1,
        inc.cm_w == v.u_cm_w,
        inc.cm_f == v.u_cm_f,
        inc.x.len() == 2,
        inc.x[0] == v.running.hash(sponge, v.pp_hash, v.i, v.z_0, v.z_i),
        inc.x[1] == v.cf_running.hash_cyclefold(sponge, v.pp_hash),
        i1.val() == (v.i.val() + 1) % fr_modulus(),
        v.i.val() != 0 ==> {
            let r = Fr::of(
                bits_value(
                    step_transcript(
                        sponge,
                        v.pp_hash,
                        v.running.absorbed(),
                        inc.absorbed(),
                        v.cm_t,
                    ).output_bits(128),
                ),
            );
            &&& is_sum(next.u, v.running.u, r, inc.u)
            &&& are_sums(next.x, v.running.x, r, inc.x)
            &&& next.cm_e == v.next_cm_e
            &&& next.cm_w == v.next_cm_w
            &&& next.cm_f == v.next_cm_f
        },
        v.i.val() == 0 ==> is_zero_instance(next, 2),
    ensures
        v.incoming(sponge) == inc,
        v.x_out(sponge, z_i1) == next.hash(sponge, v.pp_hash, i1, v.z_0, z_i1),
{
    lemma_units::<Fr>();
    let w = v.incoming(sponge);
    lemma_val_injective(inc.u, w.u);
    assert(inc.x =~= w.x);
    assert(inc =~= w);
    lemma_op_values(v.i, f_one::<Fr>());
    lemma_val_injective(i1, crate::field::f_add(v.i, f_one::<Fr>()));
    if v.i.val() == 0 {
        lemma_val_injective(v.i, f_zero::<Fr>());
        law_dummy_is_zero(next, 2);
        Fr::lemma_modulus();
        vstd::arithmetic::div_mod::lemma_small_mod(1, fr_modulus());
        lemma_val_injective(i1, f_one::<Fr>());
    } else {
        let r = Fr::of(bits_value(v.challenge(sponge)));
        let p = InstanceView { cm_e: G1::Infinity, cm_w: G1::Infinity, cm_f: G1::Infinity, ..next };
        law_public_fold(p, v.running, r, inc);
        assert(next =~= v.next(sponge));
    }
}

/// What the augmented circuit's constraints say: where both public values are given, they
/// are those that the circuit computes, and no others.
pub proof fn law_augmented_circuit(c: AugmentedFCircuitFoldPot, z_i1: Seq<Fr>)
    requires
        c.x is Some,
        c.cf_x is Some,
    ensures
        c.satisfied(z_i1) <==> {
            let sponge = SpongeView::fresh(c.poseidon_config@);
            &&& c.x == Some(c.values_view().x_out(sponge, z_i1))
            &&& c.cf_x == Some(c.values_view().cf_x_out(sponge))
        },
{
}

/// The instance of the circuit that the counter names, the first one where there is none.
pub open spec fn chosen(insts: Seq<InstanceView>, pc: Fr) -> int {
    if pc.val() < insts.len() {
        pc.val() as int
    } else {
        0
    }
}

/// What the circuit for the end of a computation checks: the incoming instance is not
/// relaxed and holds the digests of the running instances `u`, those of zeros after the
/// first step, and of the CycleFold instance; the state's second element is the digest of
/// its second part; each folded witness satisfies its circuit's system, relaxed as its
/// instance says; the folded instance of the last step's circuit is the fold with the
/// challenge that is drawn for it; and the CycleFold witness satisfies its system and is
/// what its instance commits to.
pub proof fn law_end_circuit<CS1: CommitmentScheme<Fr, G1>>(c: Phase1Circuit<CS1>, u: InstanceSuperView)
    requires
        c.wf(),
        c.i.val() == 1 ==> are_zero_instances(u, c.x_len(), c.circuits@.len(), c.b_full_mode, c.pc_i),
        c.i.val() != 1 ==> u == c.run_u@,
        c.run_u@.insts[chosen(c.run_u@.insts, c.pc_i)].x.len() == c.u_i.x@.len(),
    ensures
        c.satisfied() <==> {
            let sponge = SpongeView::fresh(c.poseidon_config@);
            let r = Fr::of(
                bits_value(
                    step_transcript(
                        sponge,
                        c.pp_hash,
                        c.run_u@.absorbed(),
                        c.u_i@.absorbed(),
                        c.cm_t,
                    ).output_bits(128),
                ),
            );
            let k = chosen(c.run_u@.insts, c.pc_i);
            &&& c.u_i.cm_e.xy().0.val() == 0 && c.u_i.cm_e.xy().1.val() == 0
            &&& c.u_i.u.val() == 1
            &&& c.u_i.x@[0] == u.hash(sponge, c.pp_hash, c.i, c.pc_i, c.z_0@, c.z_i@)
            &&& c.u_i.x@[1] == c.cf_u@.hash_cyclefold(sponge, c.pp_hash)
            &&& c.z_i@[1] == c.zi_part2_inst@.hash(c.poseidon_config@)
            &&& is_instance_fold(c.next_u@.insts[k], c.run_u@.insts[k], r, c.u_i@, c.cm_t)
            &&& folded_are_satisfied(c)
            &&& satisfies(c.cf.r1cs, c.cf_u.u, c.cf_u.x@, c.cf_w.w@, c.cf_w.e@)
            &&& c.cf.cs.blinded(c.cf_w.e@, c.cf_w.r_e) == Some(c.cf_u.cm_e)
            &&& c.cf.cs.blinded(c.cf_w.w@, c.cf_w.r_w) == Some(c.cf_u.cm_w)
        },
{
    lemma_units::<Fr>();
    lemma_units::<Fq>();
    let k = chosen(c.run_u@.insts, c.pc_i);
    let r = Fr::of(bits_value(c.r_bits()));
    law_instance_fold(c.next_u@.insts[k], c.run_u@.insts[k], r, c.u_i@, c.cm_t);
    lemma_zero_point(c.u_i.cm_e);
    lemma_one(c.u_i.u);
    if c.i.val() == 1 {
        law_dummies_are_zero(u, c.x_len(), c.circuits@.len(), c.b_full_mode, c.pc_i);
        lemma_one(c.i);
    }
    lemma_folded_are_satisfied(c);
    law_check_is_satisfaction(c.cf.r1cs, c.cf_u.u, c.cf_u.x@, c.cf_w.w@, c.cf_w.e@);
}

/// Whether each folded witness satisfies the system of its circuit, relaxed as its instance
/// says.
pub open spec fn folded_are_satisfied<CS1: CommitmentScheme<Fr, G1>>(c: Phase1Circuit<CS1>) -> bool {
    forall|k: int|
        #![trigger c.circuits@[k]]
        0 <= k < c.circuits@.len() ==> satisfies(
            c.circuits@[k].r1cs,
            c.next_u@.insts[k].u,
            c.next_u@.insts[k].x,
            c.next_w.vec_wit@[k].w@,
            c.next_w.vec_wit@[k].e@,
        )
}

proof fn lemma_folded_are_satisfied<CS1: CommitmentScheme<Fr, G1>>(c: Phase1Circuit<CS1>)
    requires
        c.wf(),
    ensures
        c.witnesses_ok() <==> folded_are_satisfied(c),
{
    assert forall|k: int| #![trigger c.circuits@[k]] 0 <= k < c.circuits@.len() implies (
    crate::instance::relaxed_check(
        c.circuits@[k].r1cs,
        wit_views(c.next_w.vec_wit@)[k],
        c.next_u@.insts[k],
    ) is Ok <==> satisfies(
        c.circuits@[k].r1cs,
        c.next_u@.insts[k].u,
        c.next_u@.insts[k].x,
        c.next_w.vec_wit@[k].w@,
        c.next_w.vec_wit@[k].e@,
    )) by {
        let (u, w) = (c.next_u@.insts[k], c.next_w.vec_wit@[k]);
        assert(wit_views(c.next_w.vec_wit@)[k] == w@);
        law_check_is_satisfaction(c.circuits@[k].r1cs, u.u, u.x, w.w@, w.e@);
    }
}

proof fn lemma_one(a: Fr)
    ensures
        a == f_one::<Fr>() <==> a.val() == 1,
{
    lemma_units::<Fr>();
    if a.val() == 1 {
        lemma_val_injective(a, f_one::<Fr>());
    }
}

proof fn lemma_zero_point(p: G1)
    ensures
        p.xy() == (f_zero::<Fq>(), f_zero::<Fq>()) <==> p.xy().0.val() == 0 && p.xy().1.val() == 0,
{
    lemma_units::<Fq>();
    if p.xy().0.val() == 0 && p.xy().1.val() == 0 {
        lemma_val_injective(p.xy().0, f_zero::<Fq>());
        lemma_val_injective(p.xy().1, f_zero::<Fq>());
    }
}

/// What the circuit of the decider with several step circuits checks. The digest is that of
/// the running instances in every step; the three places where commitments are opened are
/// those that the transcript gives, the fourth is the challenge of the state's second part.
pub proof fn law_decider_circuit<CS1: CommitmentScheme<Fr, G1>>(d: DeciderEthCircuitSuper<CS1>)
    requires
        d.end.wf(),
    ensures
        d.satisfied() <==> {
            let c = d.end;
            let sponge = SpongeView::fresh(c.poseidon_config@);
            &&& c.u_i.cm_e.xy().0.val() == 0 && c.u_i.cm_e.xy().1.val() == 0
            &&& c.u_i.u.val() == 1
            &&& c.u_i.x@[0] == c.run_u@.hash(sponge, c.pp_hash, c.i, c.pc_i, c.z_0@, c.z_i@)
            &&& c.u_i.x@[1] == c.cf_u@.hash_cyclefold(sponge, c.pp_hash)
            &&& c.z_i@[1] == c.zi_part2_inst@.hash(c.poseidon_config@)
            &&& folded_are_satisfied(c)
            &&& satisfies(c.cf.r1cs, c.cf_u.u, c.cf_u.x@, c.cf_w.w@, c.cf_w.e@)
            &&& c.cf.cs.blinded(c.cf_w.e@, c.cf_w.r_e) == Some(c.cf_u.cm_e)
            &&& c.cf.cs.blinded(c.cf_w.w@, c.cf_w.r_w) == Some(c.cf_u.cm_w)
            &&& d.r == Fr::of(
                bits_value(
                    step_transcript(
                        sponge,
                        c.pp_hash,
                        c.run_u@.absorbed(),
                        c.u_i@.absorbed(),
                        c.cm_t,
                    ).output_bits(128),
                ),
            )
            &&& d.kzg_c_w == end_challenges(c).0
            &&& d.kzg_c_e == end_challenges(c).1
            &&& d.kzg_c_f == end_challenges(c).2
            &&& d.kzg_c_lkup == c.zi_part2_inst.ch
        },
{
    let c = d.end;
    lemma_zero_point(c.u_i.cm_e);
    lemma_one(c.u_i.u);
    lemma_folded_are_satisfied(c);
    law_check_is_satisfaction(c.cf.r1cs, c.cf_u.u, c.cf_u.x@, c.cf_w.w@, c.cf_w.e@);
}

/// Whether the parts stand behind each other, the `k`-th from place `starts[k]` on.
pub open spec fn laid_out(all: Seq<Fr>, starts: Seq<int>, parts: Seq<Seq<Fr>>) -> bool {
    &&& starts.len() == parts.len() + 1
    &&& starts[0] == 0
    &&& starts[parts.len() as int] == all.len()
    &&& forall|k: int|
        0 <= k < parts.len() ==> {
            &&& starts[k + 1] == starts[k] + (#[trigger] parts[k]).len()
            &&& 0 <= starts[k] && starts[k + 1] <= all.len()
            &&& list_at(all, starts[k], parts[k])
        }
}

proof fn lemma_laid_out_front(all: Seq<Fr>, starts: Seq<int>, parts: Seq<Seq<Fr>>)
    requires
        laid_out(all, starts, parts),
        parts.len() > 0,
    ensures
        ({
            let n = parts.len() - 1;
            &&& 0 <= starts[n] <= all.len()
            &&& laid_out(all.take(starts[n]), starts.drop_last(), parts.drop_last())
            &&& all == all.take(starts[n]) + parts[n]
        }),
{
    let n = parts.len() - 1;
    let front = all.take(starts[n]);
    assert(parts[n].len() >= 0);
    lemma_starts_rise(all, starts, parts, n);
    assert forall|k: int| 0 <= k < n implies {
        &&& starts[k + 1] == starts[k] + (#[trigger] parts.drop_last()[k]).len()
        &&& 0 <= starts[k] && starts[k + 1] <= front.len()
        &&& list_at(front, starts[k], parts.drop_last()[k])
    } by {
        assert(parts.drop_last()[k] == parts[k]);
        lemma_starts_rise(all, starts, parts, n);
        lemma_starts_step(all, starts, parts, k + 1, n);
        let p = parts[k];
        assert forall|j: int| 0 <= j < p.len() implies front[starts[k] + j] == #[trigger] p[j] by {}
    }
    assert(all =~= front + parts[n]) by {
        let p = parts[n];
        assert forall|j: int| 0 <= j < all.len() implies all[j] == (front + p)[j] by {
            if j >= starts[n] {
                assert(all[starts[n] + (j - starts[n])] == p[j - starts[n]]);
            }
        }
    }
}

proof fn lemma_starts_rise(all: Seq<Fr>, starts: Seq<int>, parts: Seq<Seq<Fr>>, n: int)
    requires
        laid_out(all, starts, parts),
        0 <= n < parts.len(),
    ensures
        0 <= starts[n] <= all.len(),
{
    assert(parts[n].len() >= 0);
}

proof fn lemma_starts_step(all: Seq<Fr>, starts: Seq<int>, parts: Seq<Seq<Fr>>, a: int, b: int)
    requires
        laid_out(all, starts, parts),
        0 <= a <= b <= parts.len(),
    ensures
        starts[a] <= starts[b],
    decreases b - a,
{
    if a < b {
        lemma_starts_step(all, starts, parts, a, b - 1);
        assert(parts[b - 1].len() >= 0);
    }
}

/// The witnesses of all circuits behind each other; the same of the errors and of the fixed
/// memories.
pub proof fn law_joined_witnesses(
    wits: Seq<WitnessFoldPotView>,
    parts: Seq<Seq<Fr>>,
    all: Seq<Fr>,
    starts: Seq<int>,
)
    requires
        parts.len() == wits.len(),
        laid_out(all, starts, parts),
    ensures
        (forall|k: int| 0 <= k < wits.len() ==> #[trigger] parts[k] == wits[k].w) ==> joined_w(wits) == all,
        (forall|k: int| 0 <= k < wits.len() ==> #[trigger] parts[k] == wits[k].e) ==> joined_e(wits) == all,
        (forall|k: int|
            0 <= k < wits.len() ==> #[trigger] parts[k] == wits[k].w.subrange(
                wits[k].start_f as int,
                (wits[k].start_f + wits[k].size_f) as int,
            )) ==> joined_f(wits) == all,
    decreases wits.len(),
{
    if wits.len() == 0 {
        assert(all =~= Seq::empty());
    } else {
        let n = wits.len() - 1;
        lemma_laid_out_front(all, starts, parts);
        let (w, p) = (wits.drop_last(), parts.drop_last());
        law_joined_witnesses(w, p, all.take(starts[n]), starts.drop_last());
        if forall|k: int| 0 <= k < wits.len() ==> #[trigger] parts[k] == wits[k].w {
            assert forall|k: int| 0 <= k < w.len() implies #[trigger] p[k] == w[k].w by {
                assert(p[k] == parts[k]);
            }
            assert(parts[n] == wits[n].w);
        }
        if forall|k: int| 0 <= k < wits.len() ==> #[trigger] parts[k] == wits[k].e {
            assert forall|k: int| 0 <= k < w.len() implies #[trigger] p[k] == w[k].e by {
                assert(p[k] == parts[k]);
            }
            assert(parts[n] == wits[n].e);
        }
        if forall|k: int|
            0 <= k < wits.len() ==> #[trigger] parts[k] == wits[k].w.subrange(
                wits[k].start_f as int,
                (wits[k].start_f + wits[k].size_f) as int,
            ) {
            assert forall|k: int| 0 <= k < w.len() implies #[trigger] p[k] == w[k].w.subrange(
                w[k].start_f as int,
                (w[k].start_f + w[k].size_f) as int,
            ) by {
                assert(p[k] == parts[k]);
            }
            assert(parts[n] == wits[n].fixed());
        }
    }
}

/// What the circuit for the end of a computation gives: of the state's second part the
/// challenge, the coefficient, the sum of the three sums of values and the result; the
/// commitment to all witnesses with those of each folded instance; the incoming instance;
/// and where the polynomial of all witnesses is evaluated, with its value there. `v` are
/// the witnesses, then the errors, then the blinding value.
pub proof fn law_end_values<CS1: CommitmentScheme<Fr, G1>>(c: Phase1Circuit<CS1>, w: Seq<Fr>, e: Seq<Fr>, v: Seq<Fr>)
    requires
        c.wf(),
        w == joined_w(wit_views(c.next_w.vec_wit@)),
        e == joined_e(wit_views(c.next_w.vec_wit@)),
        v.len() == w.len() + e.len() + 1,
        list_at(v, 0, w),
        list_at(v, w.len() as int, e),
        v[(w.len() + e.len()) as int] == c.r_all_w,
    ensures
        ({
            let (r, p, insts) = (c.ret(), c.zi_part2_inst, c.next_u@.insts);
            &&& r.ch == p.ch
            &&& r.rc == p.rc
            &&& r.kzg_sum.val() == (p.sum_kzg_eval_lk.val() + p.sum_kzg_eval_word.val() + p.sum_kzg_eval_others.val())
                % fr_modulus()
            &&& r.final_result == p.f_result
            &&& r.u_i == c.u_i@
            &&& r.vec_coms.len() == 3 * insts.len() + 1
            &&& r.vec_coms[0] == c.com_all_w
            &&& forall|k: int|
                0 <= k < insts.len() ==> {
                    &&& r.vec_coms[3 * k + 1] == (#[trigger] insts[k]).cm_w
                    &&& r.vec_coms[3 * k + 2] == insts[k].cm_e
                    &&& r.vec_coms[3 * k + 3] == insts[k].cm_f
                }
            &&& r.kzg_all_com_ch == crate::decider_circuits::kzg_challenge(c.poseidon_config@, insts, c.com_all_w)
            &&& r.eval_w_e.val() == power_sum(v, r.kzg_all_com_ch.val() as int) % (fr_modulus() as int)
            &&& r.u_i1_0_cm_e == insts[0].cm_e
            &&& r.u_i1_0_cm_w == insts[0].cm_w
            &&& r.u_i1_0_cm_f == insts[0].cm_f
        }),
{
    let (r, p, insts) = (c.ret(), c.zi_part2_inst, c.next_u@.insts);
    lemma_three(p.sum_kzg_eval_lk, p.sum_kzg_eval_word, p.sum_kzg_eval_others);
    law_commitments(insts);
    let all = all_values(wit_views(c.next_w.vec_wit@), c.r_all_w);
    assert forall|k: int| 0 <= k < v.len() implies v[k] == all[k] by {
        if k < w.len() {
            assert(v[0 + k] == w[k]);
        } else if k < w.len() + e.len() {
            assert(v[w.len() + (k - w.len())] == e[k - w.len()]);
        }
    }
    assert(v =~= all);
    law_value_is_power_sum(v, r.kzg_all_com_ch);
    let coms = crate::instance_super::commitments(insts);
    assert forall|k: int| 0 <= k < insts.len() implies {
        &&& r.vec_coms[3 * k + 1] == (#[trigger] insts[k]).cm_w
        &&& r.vec_coms[3 * k + 2] == insts[k].cm_e
        &&& r.vec_coms[3 * k + 3] == insts[k].cm_f
    } by {
        assert(r.vec_coms[3 * k + 1] == coms[3 * k]);
        assert(r.vec_coms[3 * k + 2] == coms[3 * k + 1]);
        assert(r.vec_coms[3 * k + 3] == coms[3 * k + 2]);
    }
}

/// The sum of three elements.
pub proof fn lemma_three(a: Fr, b: Fr, c: Fr)
    ensures
        crate::field::f_add(crate::field::f_add(a, b), c).val() == (a.val() + b.val() + c.val()) % fr_modulus(),
{
    Fr::lemma_modulus();
    lemma_op_values(a, b);
    lemma_op_values(crate::field::f_add(a, b), c);
    vstd::arithmetic::div_mod::lemma_add_mod_noop(
        (a.val() + b.val()) as int,
        c.val() as int,
        fr_modulus() as int,
    );
    vstd::arithmetic::div_mod::lemma_add_mod_noop(
        ((a.val() + b.val()) % fr_modulus()) as int,
        c.val() as int,
        fr_modulus() as int,
    );
    vstd::arithmetic::div_mod::lemma_mod_twice((a.val() + b.val()) as int, fr_modulus() as int);
}

/// The public inputs of the circuit for both computations have each value in its place.
pub proof fn law_two_phase_places(t: TwoPhaseCircInput)
    ensures
        ({
            let v = t.vector();
            &&& v.len() == 38
            &&& v[0] == t.ch1
            &&& v[1] == t.rc1
            &&& v[2] == t.kzg_sum1
            &&& v[3] == t.kzg_all_com_ch1
            &&& v[4] == t.eval_w_e1
            &&& v[5] == t.kzg_all_com_ch2
            &&& v[6] == t.eval_w_e2
            &&& v[7] == t.qa_nizk_vkey_hash
            &&& point_at(v, 8, t.comE2)
            &&& point_at(v, 18, t.comW2)
            &&& point_at(v, 28, t.comF2)
        }),
{
    let v = t.vector();
    assert(g1_limbs(t.comE2).len() == 10 && g1_limbs(t.comW2).len() == 10 && g1_limbs(t.comF2).len() == 10);
    assert(v.subrange(8, 18) =~= g1_limbs(t.comE2));
    assert(v.subrange(18, 28) =~= g1_limbs(t.comW2));
    assert(v.subrange(28, 38) =~= g1_limbs(t.comF2));
    lemma_point(v, 8, t.comE2);
    lemma_point(v, 18, t.comW2);
    lemma_point(v, 28, t.comF2);
}

/// Whether `v` are the public inputs that the second part of a batch proof is checked with.
pub open spec fn pairing_input_places<K>(
    v: Seq<Fr>,
    prf: BatchProof,
    p: BatchPartTwo,
    keys: PartTwoKeys<K>,
    kzg_sum1: Option<Fr>,
) -> bool {
    &&& v.len() == 39
    &&& v[0] == prf.ch
    &&& v[1] == prf.rc
    &&& kzg_sum1 is Some ==> v[2] == kzg_sum1->0
    &&& kzg_sum1 is None ==> v[2] == prf.agg_kzg_prf.eval
    &&& v[3] == p.kzg_all_com_ch1
    &&& v[4] == p.kzg_all_com_prf1.eval
    &&& v[5] == p.mainres_hash
    &&& v[6] == p.kzg_all_com_ch2
    &&& v[7] == p.kzg_all_com_prf2.eval
    &&& v[8] == keys.nova1_qa_nizk_vkey_hash
    &&& point_at(v, 9, p.comE2)
    &&& point_at(v, 19, p.comW2)
    &&& point_at(v, 29, p.comF2)
}

/// What acceptance of the second part of a batch proof means. With `input`, the values in
/// their places: the commitments to all witnesses of the two computations open where the
/// proof says, the second computation's commitments are for the same vectors, and the proof
/// of the main circuit holds for the digest of its result, that of the CyclePair circuit
/// for `input`.
pub proof fn law_accepted_part_two<K: OpeningVerifier<KZGProof>>(
    keys: PartTwoKeys<K>,
    prf: BatchProof,
    p: BatchPartTwo,
    kzg_sum1: Option<Fr>,
    input: Seq<Fr>,
    one: Seq<Fq>,
)
    requires
        keys.nova2_qa_nizk_vkey.c@.len() == 4,
        is_gt_one(one),
        pairing_input_places(input, prf, p, keys, kzg_sum1),
    ensures
        BatchProcessor::part_two_ok(keys, prf, p, kzg_sum1) <==> {
            let q = keys.nova2_qa_nizk_vkey;
            &&& keys.kzg_driver1.verify_spec(p.kzg_all_com_ch1, p.kzg_all_com1, p.kzg_all_com_prf1) is Ok
            &&& keys.kzg_driver2.verify_spec(p.kzg_all_com_ch2, p.kzg_all_com2, p.kzg_all_com_prf2) is Ok
            &&& five_pairings_are_one(
                seq![p.kzg_all_com2, p.comW2, p.comE2, p.comF2, g1_sub(G1::Infinity, p.qa_nizk_prf2)],
                seq![q.c@[0], q.c@[1], q.c@[2], q.c@[3], q.a],
                one,
            )
            &&& key_framed(keys.snark_vk_main@)
            &&& groth16_verdict(keys.snark_vk_main@, seq![p.mainres_hash], p.snark_proof_main@) == Some(true)
            &&& key_framed(keys.snark_vk_cp@)
            &&& groth16_verdict(keys.snark_vk_cp@, input, p.snark_proof_cp@) == Some(true)
        },
{
    let x = seq![p.kzg_all_com2, p.comW2, p.comE2, p.comF2];
    law_same_vector_check(keys.nova2_qa_nizk_vkey, x, p.qa_nizk_prf2, one);
    lemma_point(input, 9, p.comE2);
    lemma_point(input, 19, p.comW2);
    lemma_point(input, 29, p.comF2);
    let w = BatchProcessor::cp_input(prf, p, keys, kzg_sum1).vector();
    let head = input.subrange(0, 9);
    assert(head =~= seq![
        prf.ch,
        prf.rc,
        input[2],
        p.kzg_all_com_ch1,
        p.kzg_all_com_prf1.eval,
        p.mainres_hash,
        p.kzg_all_com_ch2,
        p.kzg_all_com_prf2.eval,
        keys.nova1_qa_nizk_vkey_hash,
    ]);
    assert(input =~= head + input.subrange(9, 19) + input.subrange(19, 29) + input.subrange(29, 39));
    assert(input =~= w);
}

/// What the circuit for both computations checks: the first circuit's constraints; of the
/// second that each paired point is the one that the first circuit gives, its own end, that
/// the result of its state is the digest of the two chains, and the CyclePair witness; and
/// that the public inputs are what the two give.
pub proof fn law_two_phase_circuit<CS1: CommitmentScheme<Fr, G1>>(c: TwoPhaseDeciderEthCircuitSuper<CS1>)
    requires
        c.wf(),
    ensures
        c.satisfied() ==> {
            let (r1, r2, inp) = (c.circ1.ret(), c.circ2.main_circ.ret(), c.inp.vector());
            let m = c.circ2.main_circ;
            &&& c.circ1.satisfied()
            &&& m.satisfied()
            &&& forall|i: int|
                0 <= i < r1.vec_coms.len() ==> point_at(
                    (#[trigger] c.circ2.cyclepair_inputs@[i])@,
                    60,
                    r1.vec_coms[i],
                )
            &&& m.zi_part2_inst.f_result == c.circ2.expected_result()
            &&& m.u_i.x@[2] == m.cp_u->0@.hash_cyclefold(SpongeView::fresh(m.poseidon_config@), m.pp_hash)
            &&& m.cp.cs.blinded(m.cp_w->0.e@, m.cp_w->0.r_e) == Some(m.cp_u->0.cm_e)
            &&& m.cp.cs.blinded(m.cp_w->0.w@, m.cp_w->0.r_w) == Some(m.cp_u->0.cm_w)
            &&& satisfies(m.cp.r1cs, m.cp_u->0.u, m.cp_u->0.x@, m.cp_w->0.w@, m.cp_w->0.e@)
            &&& inp.len() == 38
            &&& inp[0] == r1.ch
            &&& inp[1] == r1.rc
            &&& inp[2] == r1.kzg_sum
            &&& inp[3] == r1.kzg_all_com_ch
            &&& inp[4] == r1.eval_w_e
            &&& inp[5] == r2.kzg_all_com_ch
            &&& inp[6] == r2.eval_w_e
            &&& inp[7] == c.circ2.hashchain_b()
            &&& point_at(inp, 8, r2.u_i1_0_cm_e)
            &&& point_at(inp, 18, r2.u_i1_0_cm_w)
            &&& point_at(inp, 28, r2.u_i1_0_cm_f)
        },
{
    if c.satisfied() {
        let m = c.circ2.main_circ;
        let given = crate::two_phase::given_inputs(c.circ1.ret(), c.circ2.hashchain_b(), m.ret());
        law_two_phase_places(given);
        law_check_is_satisfaction(m.cp.r1cs, m.cp_u->0.u, m.cp_u->0.x@, m.cp_w->0.w@, m.cp_w->0.e@);
        let coms = c.circ1.ret().vec_coms;
        assert forall|i: int| 0 <= i < coms.len() implies point_at(
            (#[trigger] c.circ2.cyclepair_inputs@[i])@,
            60,
            coms[i],
        ) by {
            lemma_point(c.circ2.cyclepair_inputs@[i]@, 60, coms[i]);
        }
    }
}

/// The transcript from which the decider's places are drawn: fresh, told the parameters'
/// digest, the running instances, the incoming one and the commitment to the cross term,
/// and drawn from once.
pub proof fn law_end_challenges<CS1: CommitmentScheme<Fr, G1>>(c: Phase1Circuit<CS1>, s: SpongeView)
    requires
        s.config == c.poseidon_config@,
        s.log == step_transcript(
            SpongeView::fresh(c.poseidon_config@),
            c.pp_hash,
            c.run_u@.absorbed(),
            c.u_i@.absorbed(),
            c.cm_t,
        ).log.push(SpongeOpView::Squeeze(1)),
    ensures
        end_challenges(c) == kzg_challenges(s, c.next_u@.insts),
{
    let t = crate::nifs::step_transcript_after(
        SpongeView::fresh(c.poseidon_config@),
        c.pp_hash,
        c.run_u@.absorbed(),
        c.u_i@.absorbed(),
        c.cm_t,
    );
    assert(s =~= t);
}

/// The transcript after the three places were drawn: it was told the commitments to the
/// witnesses, to the errors and to the fixed memories, and drawn from behind each.
pub proof fn law_after_places(s: SpongeView, insts: Seq<InstanceView>)
    ensures
        ({
            let w = after_points(s, cms_w(insts));
            let e = after_points(w.squeezed(1), cms_e(insts));
            let f = after_points(e.squeezed(1), cms_f(insts));
            let c = kzg_challenges(s, insts);
            &&& c.0 == w.output(1)[0]
            &&& c.1 == e.output(1)[0]
            &&& c.2 == f.output(1)[0]
            &&& after_kzg_challenges(s, insts).config == f.config
            &&& after_kzg_challenges(s, insts).log == f.log.push(SpongeOpView::Squeeze(1))
        }),
{
}

/// Whether `links` are the links of the chain over the parts `from` to `to` of rows: zero at
/// first, then each the digest of the one before with the row's part.
pub open spec fn are_row_links(
    config: PoseidonConfigView,
    links: Seq<Fr>,
    v: Seq<Seq<Fr>>,
    from: int,
    to: int,
) -> bool {
    &&& links.len() == v.len() + 1
    &&& links[0].val() == 0
    &&& forall|k: int|
        0 <= k < v.len() ==> links[k + 1] == poseidon_output(
            config,
            seq![SpongeOpView::Absorb(seq![links[k]] + (#[trigger] v[k]).subrange(from, to))],
            1,
        )[0]
}

proof fn lemma_row_chains(config: PoseidonConfigView, la: Seq<Fr>, lb: Seq<Fr>, v: Seq<Seq<Fr>>, n: nat)
    requires
        are_row_links(config, la, v, 60, 75),
        are_row_links(config, lb, v, 75, 100),
        n <= v.len(),
    ensures
        rows_chain_a(config, v, n) == la[n as int],
        rows_chain_b(config, v, n) == lb[n as int],
    decreases n,
{
    lemma_units::<Fr>();
    if n == 0 {
        lemma_val_injective(la[0], f_zero::<Fr>());
        lemma_val_injective(lb[0], f_zero::<Fr>());
    } else {
        lemma_row_chains(config, la, lb, v, (n - 1) as nat);
        let k = n - 1;
        let (a, b) = (v[k].subrange(60, 75), v[k].subrange(75, 100));
        law_digests(config, la[k], a);
        law_digests(config, lb[k], b);
        assert(told(Seq::empty(), seq![seq![la[k]] + a]) =~= seq![SpongeOpView::Absorb(seq![la[k]] + a)]);
        assert(told(Seq::empty(), seq![seq![lb[k]] + b]) =~= seq![SpongeOpView::Absorb(seq![lb[k]] + b)]);
    }
}

/// The result that the second computation has to give: the digest of the last links of the
/// chains over the points of the first and of the second group; the second of these is what
/// the key's digest is held to.
pub proof fn law_expected_result<CS1: CommitmentScheme<Fr, G1>>(c: Phase2Circuit<CS1>, la: Seq<Fr>, lb: Seq<Fr>)
    requires
        are_row_links(c.main_circ.poseidon_config@, la, rows(c.cyclepair_inputs@), 60, 75),
        are_row_links(c.main_circ.poseidon_config@, lb, rows(c.cyclepair_inputs@), 75, 100),
    ensures
        c.hashchain_b() == lb.last(),
        c.expected_result() == poseidon_output(
            c.main_circ.poseidon_config@,
            seq![SpongeOpView::Absorb(seq![la.last()] + seq![lb.last()])],
            1,
        )[0],
{
    let (config, v) = (c.main_circ.poseidon_config@, rows(c.cyclepair_inputs@));
    lemma_row_chains(config, la, lb, v, v.len());
    let e = seq![lb.last()];
    law_digests(config, la.last(), e);
    assert(seq![la.last(), lb.last()] =~= seq![la.last()] + e);
    assert(told(Seq::empty(), seq![seq![la.last()] + e]) =~= seq![SpongeOpView::Absorb(seq![la.last()] + e)]);
}

/// Values that an augmented circuit is not given are zero, the instances are those of zeros,
/// and the public values are those of the first step.
pub proof fn law_missing_values(c: AugmentedFCircuitFoldPot, z_i1: Seq<Fr>)
    ensures
        ({
            let v = c.values_view();
            &&& c.pp_hash is None ==> v.pp_hash.val() == 0
            &&& c.i is None ==> v.i.val() == 0
            &&& c.z_0 is None ==> v.z_0.len() == c.state_len && forall|k: int|
                0 <= k < v.z_0.len() ==> (#[trigger] v.z_0[k]).val() == 0
            &&& c.z_i is None ==> v.z_i.len() == c.state_len && forall|k: int|
                0 <= k < v.z_i.len() ==> (#[trigger] v.z_i[k]).val() == 0
            &&& c.running is None ==> is_zero_instance(v.running, 2)
            &&& c.u_i_cm_w is None ==> v.u_cm_w is Infinity
            &&& c.u_i_cm_f is None ==> v.u_cm_f is Infinity
            &&& c.next_cm_e is None ==> v.next_cm_e is Infinity
            &&& c.next_cm_w is None ==> v.next_cm_w is Infinity
            &&& c.next_cm_f is None ==> v.next_cm_f is Infinity
            &&& c.cm_t is None ==> v.cm_t is Infinity
        }),
        ({
            let v = c.values_view();
            &&& c.pp_hash matches Some(x) ==> v.pp_hash == x
            &&& c.i matches Some(x) ==> v.i == x
            &&& c.z_0 matches Some(x) ==> v.z_0 == x@
            &&& c.z_i matches Some(x) ==> v.z_i == x@
            &&& c.running matches Some(x) ==> v.running == x@
            &&& c.u_i_cm_w matches Some(x) ==> v.u_cm_w == x
            &&& c.u_i_cm_f matches Some(x) ==> v.u_cm_f == x
            &&& c.next_cm_e matches Some(x) ==> v.next_cm_e == x
            &&& c.next_cm_w matches Some(x) ==> v.next_cm_w == x
            &&& c.next_cm_f matches Some(x) ==> v.next_cm_f == x
            &&& c.cm_t matches Some(x) ==> v.cm_t == x
            &&& c.cf_running matches Some(x) ==> v.cf_running == x@
            &&& c.cf1_u_i_cm_w matches Some(x) ==> v.cf1_cm_w == x
            &&& c.cf2_u_i_cm_w matches Some(x) ==> v.cf2_cm_w == x
            &&& c.cf3_u_i_cm_w matches Some(x) ==> v.cf3_cm_w == x
            &&& c.cf1_cm_t matches Some(x) ==> v.cf1_cm_t == x
            &&& c.cf2_cm_t matches Some(x) ==> v.cf2_cm_t == x
            &&& c.cf3_cm_t matches Some(x) ==> v.cf3_cm_t == x
        }),
{
    lemma_units::<Fr>();
    law_dummy_is_zero(InstanceView::dummy(2), 2);
}

} // verus!
