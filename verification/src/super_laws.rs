//! What holds of a computation with several step circuits, whatever its steps.
use vstd::prelude::*;
use crate::commitment::commits_zeros;
use crate::commitment::CommitmentScheme;
use crate::curve::Grumpkin;
use crate::curve::G1;
use crate::cyclefold::pair_relaxed;
use crate::cyclefold::pair_strict;
use crate::field::canonical;
use crate::field::f_add;
use crate::field::f_one;
use crate::field::f_sub;
use crate::field::f_zero;
use crate::field::FieldModel;
use crate::field_fq::Fq;
use crate::field_fr::Fr;
use crate::foldpot::lemma_row_dot_zeros;
use crate::foldpot::lemma_zeros_satisfy;
use crate::foldpot::pair_check;
use crate::foldpot::VerifierParamsFoldPot;
use crate::foldpot_super::relaxed_checks;
use crate::foldpot_super::FoldPotSuper;
use crate::foldpot_super::SuperInputView;
use crate::foldpot_super::SuperProofView;
use crate::foldpot_super::SuperStateView;
use crate::foldpot_super::VerifierParamsFoldPotSuper;
use crate::instance::relaxed_check;
use crate::instance::strict_check;
use crate::instance::InstanceView;
use crate::instance::WitnessFoldPotView;
use crate::instance_super::InstanceSuperView;
use crate::limbs::g1_absorbed;
use crate::part_two::chained;
use crate::part_two::PartTwoView;
use crate::r1cs::R1CS;
use crate::vecs::repeated;

verus! {

impl<CS1: CommitmentScheme<Fr, G1>, CS2: CommitmentScheme<Fq, Grumpkin>> FoldPotSuper<CS1, CS2> {
    /// Whether the witnesses satisfy the systems: the running ones the relaxed
    /// systems, the incoming one the system of its circuit with its own `u` and
    /// without an error.
    pub open spec fn sound(&self, st: SuperStateView) -> bool {
        &&& self.state_wf(st)
        &&& canonical(st.cf_u.u)
        &&& forall|k: int|
            0 <= k < self.circuits@.len() ==> relaxed_check(
                self.circuits@[k].r1cs,
                #[trigger] st.run_w[k],
                st.run_u.insts[k],
            ) is Ok
        &&& self.last(st).r1cs.check_spec(
            repeated(f_zero::<Fr>(), self.last(st).r1cs.a.n_rows as nat),
            st.u_i.u,
            st.w_i.assignment(st.u_i),
        ) is Ok
        &&& pair_relaxed(self.cf, st.cf_w, st.cf_u)
        &&& self.b_full_mode ==> {
            &&& canonical(st.cp_u->0.u)
            &&& pair_relaxed(self.cp, st.cp_w->0, st.cp_u->0)
        }
    }

    /// Whether the assignments of a step satisfy their circuits' systems.
    pub open spec fn honest(&self, st: SuperStateView, inp: SuperInputView) -> bool {
        let x = self.cf_public(st);
        &&& self.active().r1cs.check_spec(
            repeated(f_zero::<Fr>(), self.active().r1cs.a.n_rows as nat),
            f_one::<Fr>(),
            R1CS::assignment(f_one::<Fr>(), inp.x, inp.w),
        ) is Ok
        &&& st.i != f_zero::<Fr>() ==> {
            &&& pair_strict(self.cf, x.w, inp.cf.w.w)
            &&& pair_strict(self.cf, x.e, inp.cf.e.w)
            &&& pair_strict(self.cf, x.f, inp.cf.f.w)
            &&& self.b_full_mode ==> pair_strict(self.cp, self.cp_public(inp), inp.cp.w)
        }
    }

    /// Whether the verifier's parameters are those of this computation.
    pub open spec fn known_to(&self, vp: VerifierParamsFoldPotSuper) -> bool {
        &&& vp.vec_vp@.len() == self.circuits@.len()
        &&& forall|k: int|
            0 <= k < self.circuits@.len() ==> (#[trigger] vp.vec_vp@[k]).r1cs == self.circuits@[k].r1cs
        &&& vp.vec_vp@[0].poseidon_config == self.poseidon_config
        &&& vp.vec_vp@[0].cf_r1cs == self.cf.r1cs
        &&& vp.cp_r1cs == Some(self.cp.r1cs)
        &&& vp.pp_hash_spec() == self.pp_hash
    }

    /// The state before the first step, which takes the circuit `pc_0`.
    pub open spec fn first(&self, part2: PartTwoView, pc_0: nat) -> SuperStateView {
        FoldPotSuper::<CS1, CS2>::first_state(
            self.circuits@,
            self.cf.r1cs,
            self.cp.r1cs,
            self.b_full_mode,
            self.z_0@,
            part2,
            pc_0,
        )
    }

    /// What the verifier is shown of a state.
    pub open spec fn shown(&self, st: SuperStateView) -> SuperProofView {
        SuperProofView {
            run_u: st.run_u,
            run_w: st.run_w,
            u_i: st.u_i,
            w_i: st.w_i,
            cf_u: st.cf_u,
            cf_w: st.cf_w,
            cp: if self.b_full_mode { Some((st.cp_u->0, st.cp_w->0)) } else { None },
        }
    }
}

/// Where each running witness satisfies its system, the checks of the first `n`
/// succeed.
proof fn lemma_checks_succeed<CS1: CommitmentScheme<Fr, G1>, CS2: CommitmentScheme<Fq, Grumpkin>>(
    f: FoldPotSuper<CS1, CS2>,
    vps: Seq<VerifierParamsFoldPot>,
    wits: Seq<WitnessFoldPotView>,
    insts: Seq<InstanceView>,
    n: nat,
)
    requires
        n <= f.circuits@.len(),
        forall|k: int| 0 <= k < f.circuits@.len() ==> (#[trigger] vps[k]).r1cs == f.circuits@[k].r1cs,
        forall|k: int|
            0 <= k < f.circuits@.len() ==> relaxed_check(
                f.circuits@[k].r1cs,
                #[trigger] wits[k],
                insts[k],
            ) is Ok,
    ensures
        relaxed_checks(vps, wits, insts, n) is Ok,
    decreases n,
{
    if n > 0 {
        lemma_checks_succeed(f, vps, wits, insts, (n - 1) as nat);
        assert(vps[n - 1].r1cs == f.circuits@[n - 1].r1cs);
        assert(relaxed_check(f.circuits@[n - 1].r1cs, wits[n - 1], insts[n - 1]) is Ok);
    }
}

/// Before the first step all witnesses satisfy their systems.
pub proof fn law_first_state_is_sound<CS1: CommitmentScheme<Fr, G1>, CS2: CommitmentScheme<Fq, Grumpkin>>(
    f: FoldPotSuper<CS1, CS2>,
    part2: PartTwoView,
    pc_0: nat,
)
    requires
        f.setup_wf(),
        f.z_0@.len() == 2,
        pc_0 < f.circuits@.len(),
    ensures
        f.sound(f.first(part2, pc_0)),
{
    let st = f.first(part2, pc_0);
    crate::field::lemma_units::<Fq>();
    Fr::lemma_val_of(pc_0);
    assert(f.circuits@[pc_0 as int].wf(f.x_len()));
    assert forall|k: int| 0 <= k < f.circuits@.len() implies {
        &&& (#[trigger] st.run_w[k]).w.len() == f.circuits@[k].w_len()
        &&& st.run_w[k].e.len() == f.circuits@[k].r1cs.a.n_rows
        &&& st.run_u.insts[k].x.len() == f.x_len()
        &&& relaxed_check(f.circuits@[k].r1cs, st.run_w[k], st.run_u.insts[k]) is Ok
    } by {
        assert(f.circuits@[k].wf(f.x_len()));
        let z = R1CS::assignment(st.run_u.insts[k].u, st.run_u.insts[k].x, st.run_w[k].w);
        assert(z =~= repeated(f_zero::<Fr>(), f.circuits@[k].r1cs.a.n_cols as nat));
        lemma_zeros_satisfy(f.circuits@[k].r1cs, z);
    }
    let z = st.w_i.assignment(st.u_i);
    assert(z =~= repeated(f_zero::<Fr>(), f.circuits@[pc_0 as int].r1cs.a.n_cols as nat));
    lemma_zeros_satisfy(f.circuits@[pc_0 as int].r1cs, z);
    let cz = R1CS::assignment(st.cf_u.u, st.cf_u.x, st.cf_w.w);
    assert(cz =~= repeated(f_zero::<Fq>(), f.cf.r1cs.a.n_cols as nat));
    lemma_zeros_satisfy(f.cf.r1cs, cz);
    if f.b_full_mode {
        let pz = R1CS::assignment(st.cp_u->0.u, st.cp_u->0.x, st.cp_w->0.w);
        assert(pz =~= repeated(f_zero::<Fq>(), f.cp.r1cs.a.n_cols as nat));
        lemma_zeros_satisfy(f.cp.r1cs, pz);
    }
}

/// A step leads from sound states to sound states: where all witnesses satisfy their
/// systems, the assignments of the step satisfy theirs and the step succeeds, all
/// witnesses satisfy their systems after the step. The running witnesses of the
/// circuits other than the last step's are not touched.
#[verifier::rlimit(40)]
pub proof fn law_step_keeps_soundness<CS1: CommitmentScheme<Fr, G1>, CS2: CommitmentScheme<Fq, Grumpkin>>(
    f: FoldPotSuper<CS1, CS2>,
    st: SuperStateView,
    inp: SuperInputView,
)
    requires
        f.setup_wf(),
        f.sound(st),
        f.input_wf(inp),
        f.honest(st, inp),
        f.step_spec(st, inp).1 is Ok,
    ensures
        f.sound(f.step_spec(st, inp).0),
        forall|k: int|
            0 <= k < f.circuits@.len() && k != st.pc_i.val() ==> {
                &&& #[trigger] f.step_spec(st, inp).0.run_w[k] == st.run_w[k]
                &&& f.step_spec(st, inp).0.run_u.insts[k] == st.run_u.insts[k]
            },
{
    let next = f.step_spec(st, inp).0;
    let j = st.pc_i.val() as int;
    let r = f.r(st);
    assert(f.circuits@[j].wf(f.x_len()));
    assert(f.circuits@[f.pc_i1.val() as int].wf(f.x_len()));
    assert(relaxed_check(f.circuits@[j].r1cs, st.run_w[j], st.run_u.insts[j]) is Ok);
    crate::nifs::law_folded_witness_satisfies_folded_instance(
        f.last(st).r1cs,
        f.run_w_at(st),
        f.run_u_at(st),
        st.w_i,
        st.u_i,
        r,
        f.cm_t(st)->0,
    );
    assert forall|k: int| 0 <= k < f.circuits@.len() implies {
        &&& (#[trigger] next.run_w[k]).w.len() == f.circuits@[k].w_len()
        &&& next.run_w[k].e.len() == f.circuits@[k].r1cs.a.n_rows
        &&& next.run_u.insts[k].x.len() == f.x_len()
        &&& relaxed_check(f.circuits@[k].r1cs, next.run_w[k], next.run_u.insts[k]) is Ok
    } by {
        assert(st.run_w[k].w.len() == f.circuits@[k].w_len());
        assert(relaxed_check(f.circuits@[k].r1cs, st.run_w[k], st.run_u.insts[k]) is Ok);
    }
    assert(crate::nova::all_zero(f.stepped(st, inp).w_i.e));
    if st.i != f_zero::<Fr>() {
        let x = f.cf_public(st);
        let s0 = f.cf_state(st);
        let folds = f.cf_folds(st, inp)->Ok_0;
        crate::cyclefold::law_pair_fold_keeps_satisfaction(f.cf, f.pp_hash, s0, x.w, inp.cf.w);
        let s1 = f.cf.after(f.pp_hash, s0, folds.w);
        crate::cyclefold::law_pair_fold_keeps_satisfaction(f.cf, f.pp_hash, s1, x.e, inp.cf.e);
        let s2 = f.cf.after(f.pp_hash, s1, folds.e);
        crate::cyclefold::law_pair_fold_keeps_satisfaction(f.cf, f.pp_hash, s2, x.f, inp.cf.f);
        if f.b_full_mode {
            crate::cyclefold::law_pair_fold_keeps_satisfaction(
                f.cp,
                f.pp_hash,
                f.cp_state(st, inp),
                f.cp_public(inp),
                inp.cp,
            );
        }
    }
}

/// The verifier accepts what an honest step leads to. In the first step the circuit
/// gives the digest of dummy instances, so that the fold of the dummies has to be one
/// again: so it is of the state before the first step, where the commitment to zeros is
/// the point at infinity.
#[verifier::rlimit(40)]
pub proof fn law_step_is_accepted<CS1: CommitmentScheme<Fr, G1>, CS2: CommitmentScheme<Fq, Grumpkin>>(
    f: FoldPotSuper<CS1, CS2>,
    vp: VerifierParamsFoldPotSuper,
    st: SuperStateView,
    inp: SuperInputView,
)
    requires
        f.setup_wf(),
        f.sound(st),
        f.input_wf(inp),
        f.honest(st, inp),
        f.known_to(vp),
        f.step_spec(st, inp).1 is Ok,
        st.i == f_zero::<Fr>() ==> f.next_u(st) == (InstanceSuperView {
            pc_i: f.pc_i1,
            ..InstanceSuperView::dummy(f.x_len(), f.circuits@.len(), f.b_full_mode)
        }),
    ensures
        vp.fits(f.shown(f.step_spec(st, inp).0)),
        vp.verify_spec(
            f.z_0@,
            f.step_spec(st, inp).0.z_i,
            f.step_spec(st, inp).0.i,
            f.shown(f.step_spec(st, inp).0),
        ) is Ok,
{
    let next = f.step_spec(st, inp).0;
    law_step_keeps_soundness(f, st, inp);
    assert(f.circuits@[f.pc_i1.val() as int].wf(f.x_len()));
    assert(vp.vec_vp@[f.pc_i1.val() as int].r1cs == f.active().r1cs);
    assert(next.run_w[f.pc_i1.val() as int].w.len() == f.active().w_len());
    lemma_checks_succeed(f, vp.vec_vp@, next.run_w, next.run_u.insts, f.circuits@.len());
    assert(next.i != f_zero::<Fr>()) by {
        crate::field::lemma_units::<Fr>();
        crate::field::lemma_op_values(st.i, f_one::<Fr>());
        assert(crate::field_fr::fr_modulus() > 0x1_0000_0000_0000_0000);
        vstd::arithmetic::div_mod::lemma_small_mod((st.i.val() + 1) as nat, crate::field_fr::fr_modulus());
    }
    let p = f.shown(next);
    assert(next.u_i.x == inp.x);
    assert(next.i == f_add(st.i, f_one::<Fr>()));
    if st.i == f_zero::<Fr>() {
        crate::field::lemma_units::<Fr>();
        crate::field::lemma_add_zero(f_one::<Fr>());
        assert(next.i == f_one::<Fr>());
    }
    assert(p.run_u.hash(f.sponge(), f.pp_hash, next.i, p.run_u.pc_i, f.z_0@, next.z_i) == inp.x[0]);
    assert(p.cf_u.hash_cyclefold(f.sponge(), f.pp_hash) == inp.x[1]);
    assert(crate::nova::all_zero(f.stepped(st, inp).w_i.e));
    assert(next.u_i.cm_e == G1::Infinity && next.u_i.u == f_one::<Fr>());
    assert(strict_check(f.active().r1cs, next.w_i, next.u_i) is Ok);
    assert(relaxed_checks(vp.vec_vp@, p.run_w, p.run_u.insts, f.circuits@.len()) is Ok);
    assert(pair_check(f.cf.r1cs, p.cf_w, p.cf_u) is Ok);
    if f.b_full_mode {
        let (cp_u, cp_w) = (next.cp_u->0, next.cp_w->0);
        assert(cp_u.hash_cyclefold(f.sponge(), f.pp_hash) == inp.x[2]);
        assert(pair_check(f.cp.r1cs, cp_w, cp_u) is Ok);
    }
}

/// The cross term of two assignments of zeros consists of zeros.
proof fn lemma_cross_term_of_zeros(r1cs: R1CS<Fr>, z1: Seq<Fr>, z2: Seq<Fr>)
    requires
        r1cs.wf(),
        z1 == repeated(f_zero::<Fr>(), r1cs.a.n_cols as nat),
        z2 == repeated(f_zero::<Fr>(), r1cs.a.n_cols as nat),
    ensures
        r1cs.cross_term(f_zero::<Fr>(), z1, f_zero::<Fr>(), z2) == repeated(
            f_zero::<Fr>(),
            r1cs.a.n_rows as nat,
        ),
{
    let t = r1cs.cross_term(f_zero::<Fr>(), z1, f_zero::<Fr>(), z2);
    let zero = f_zero::<Fr>();
    crate::field::lemma_units::<Fr>();
    crate::field::lemma_mul_zero(zero);
    crate::field::lemma_add_zero(zero);
    crate::field::lemma_op_values(zero, zero);
    assert(f_sub(zero, zero) == zero) by {
        crate::field::lemma_val_injective(f_sub(zero, zero), zero);
    }
    assert forall|i: int| 0 <= i < r1cs.a.n_rows implies #[trigger] t[i] == zero by {
        lemma_row_dot_zeros(r1cs.a.coeffs@[i]@, z1);
        lemma_row_dot_zeros(r1cs.b.coeffs@[i]@, z1);
        lemma_row_dot_zeros(r1cs.c.coeffs@[i]@, z1);
    }
    assert(t =~= repeated(zero, r1cs.a.n_rows as nat));
}

/// Before the first step all instances are dummies, and they fold to dummies again,
/// where the commitment to zeros is the point at infinity.
pub proof fn law_dummies_fold_to_dummies<CS1: CommitmentScheme<Fr, G1>, CS2: CommitmentScheme<Fq, Grumpkin>>(
    f: FoldPotSuper<CS1, CS2>,
    part2: PartTwoView,
    pc_0: nat,
)
    requires
        f.setup_wf(),
        f.z_0@.len() == 2,
        pc_0 < f.circuits@.len(),
        commits_zeros(f.circuits@[pc_0 as int].cs_pp, f.circuits@[pc_0 as int].r1cs.a.n_rows as nat),
    ensures
        f.next_u(f.first(part2, pc_0)) == (InstanceSuperView {
            pc_i: f.pc_i1,
            ..InstanceSuperView::dummy(f.x_len(), f.circuits@.len(), f.b_full_mode)
        }),
{
    let st = f.first(part2, pc_0);
    let r = f.r(st);
    let zero = f_zero::<Fr>();
    let j = pc_0 as int;
    Fr::lemma_val_of(pc_0);
    assert(st.pc_i.val() == pc_0);
    assert(f.circuits@[j].wf(f.x_len()));
    crate::field::lemma_units::<Fr>();
    crate::field::lemma_mul_zero(r);
    crate::field::lemma_add_zero(zero);
    let n_cols = f.circuits@[j].r1cs.a.n_cols as nat;
    assert(st.w_i.assignment(st.u_i) =~= repeated(zero, n_cols));
    assert(f.run_w_at(st).assignment(f.run_u_at(st)) =~= repeated(zero, n_cols));
    lemma_cross_term_of_zeros(
        f.circuits@[j].r1cs,
        st.w_i.assignment(st.u_i),
        f.run_w_at(st).assignment(f.run_u_at(st)),
    );
    assert(f.cm_t(st) == Some(G1::Infinity));
    let dummy = InstanceView::dummy(f.x_len());
    assert(f.next_u_at(st).x =~= dummy.x);
    assert(f.next_u_at(st) == dummy);
    assert forall|k: int| 0 <= k < f.circuits@.len() implies #[trigger] f.next_u(st).insts[k] == dummy by {
        assert(f.circuits@[k].wf(f.x_len()));
    }
    assert(f.next_u(st).insts =~= repeated(dummy, f.circuits@.len()));
}

/// The verifier accepts what an honest first step leads to.
pub proof fn law_first_step_is_accepted<CS1: CommitmentScheme<Fr, G1>, CS2: CommitmentScheme<Fq, Grumpkin>>(
    f: FoldPotSuper<CS1, CS2>,
    vp: VerifierParamsFoldPotSuper,
    part2: PartTwoView,
    pc_0: nat,
    inp: SuperInputView,
)
    requires
        f.setup_wf(),
        f.z_0@.len() == 2,
        pc_0 < f.circuits@.len(),
        commits_zeros(f.circuits@[pc_0 as int].cs_pp, f.circuits@[pc_0 as int].r1cs.a.n_rows as nat),
        f.input_wf(inp),
        f.honest(f.first(part2, pc_0), inp),
        f.known_to(vp),
        f.step_spec(f.first(part2, pc_0), inp).1 is Ok,
    ensures
        ({
            let next = f.step_spec(f.first(part2, pc_0), inp).0;
            &&& vp.fits(f.shown(next))
            &&& vp.verify_spec(f.z_0@, next.z_i, next.i, f.shown(next)) is Ok
        }),
{
    law_first_state_is_sound(f, part2, pc_0);
    law_dummies_fold_to_dummies(f, part2, pc_0);
    law_step_is_accepted(f, vp, f.first(part2, pc_0), inp);
}

/// The chain of digests that a first pass computes is the one that the steps build.
pub proof fn law_state_continues_chain<CS1: CommitmentScheme<Fr, G1>, CS2: CommitmentScheme<Fq, Grumpkin>>(
    f: FoldPotSuper<CS1, CS2>,
    st: SuperStateView,
    inp: SuperInputView,
    cm_f: G1,
)
    requires
        inp.cm_f == g1_absorbed(cm_f),
        f.step_spec(st, inp).1 is Ok,
    ensures
        f.step_spec(st, inp).0.z_i[0] == chained(f.poseidon_config@, st.z_i[0], g1_absorbed(cm_f)),
{
}

} // verus!
