//! The circuits of the decider: what they ask of a computation that has come to its
//! end, and the values that they give.
use vstd::prelude::*;
use crate::bigint::bits_value;
use crate::circuits::challenge_to_fr;
use crate::commitment::CommitmentScheme;
use crate::commitment::PedersenGrumpkin;
use crate::curve::Grumpkin;
use crate::curve::G1;
use crate::cyclefold::PairContext;
use crate::error::Error;
use crate::error::ErrorView;
use crate::field::f_add;
use crate::field::f_one;
use crate::field::f_zero;
use crate::field::Field;
use crate::field::FieldModel;
use crate::field_fq::Fq;
use crate::field_fr::Fr;
use crate::foldpot::check_pair_relation;
use crate::foldpot::pair_check;
use crate::foldpot::VerifierParamsFoldPot;
use crate::foldpot_super::field_to_usize;
use crate::foldpot_super::relaxed_checks;
use crate::foldpot_super::VerifierParamsFoldPotSuper;
use crate::instance::WitnessFoldPotView;
use crate::foldpot_super::FoldPotSuper;
use crate::foldpot_super::StepCircuit;
use crate::instance::check_relaxed_instance_relation;
use crate::instance::relaxed_check;
use crate::instance::CommittedInstanceFoldPot;
use crate::instance::InstanceView;
use crate::instance_super::all_values;
use crate::instance_super::commitments;
use crate::instance_super::inst_views;
use crate::instance_super::wit_views;
use crate::instance_super::CommittedInstanceFoldPotSuper;
use crate::instance_super::InstanceSuperView;
use crate::instance_super::WitnessFoldPotSuper;
use crate::limbs::absorb_g1;
use crate::limbs::g1_absorbed;
use crate::nifs::step_transcript;
use crate::nifs::ChallengeGadgetFoldPot;
use crate::nifs::CommittedInstanceVarFoldPot;
use crate::nifs::NIFSGadgetFoldPot;
use crate::nova::CommittedInstance;
use crate::nova::Witness;
use crate::part_two::ZiPartTwoInst;
use crate::poly::evaluate_gadget;
use crate::poly::poly_eval;
use crate::sponge::PoseidonConfig;
use crate::sponge::PoseidonConfigView;
use crate::sponge::Sponge;
use crate::sponge::SpongeView;
use crate::sponge::N_BITS_RO;
use crate::vecs::filled;
use crate::vecs::repeated;

verus! {

/// The sponge after it absorbed the first `n` of the points, one by one.
pub open spec fn points_absorbed(s: SpongeView, pts: Seq<G1>, n: nat) -> SpongeView
    decreases n,
{
    if n == 0 {
        s
    } else {
        points_absorbed(s, pts, (n - 1) as nat).absorbed(g1_absorbed(pts[n - 1]))
    }
}

/// The witness commitments of the instances.
pub open spec fn cms_w(insts: Seq<InstanceView>) -> Seq<G1> {
    insts.map_values(|u: InstanceView| u.cm_w)
}

/// The error commitments of the instances.
pub open spec fn cms_e(insts: Seq<InstanceView>) -> Seq<G1> {
    insts.map_values(|u: InstanceView| u.cm_e)
}

/// The fixed memory commitments of the instances.
pub open spec fn cms_f(insts: Seq<InstanceView>) -> Seq<G1> {
    insts.map_values(|u: InstanceView| u.cm_f)
}

/// The point at which the polynomial of all witnesses is evaluated: the digest of
/// the commitment to all witnesses and those of the instances, all to witnesses
/// first, then all to errors, then all to fixed memories.
pub open spec fn kzg_challenge(config: PoseidonConfigView, insts: Seq<InstanceView>, com_all: G1) -> Fr {
    let n = insts.len();
    let first = SpongeView::fresh(config).absorbed(g1_absorbed(com_all));
    let s = points_absorbed(first, cms_w(insts), n);
    points_absorbed(points_absorbed(s, cms_e(insts), n), cms_f(insts), n).output(1)[0]
}

/// The point at which the polynomial of all witnesses is evaluated.
#[derive(Debug, Clone, Copy)]
pub struct KZGChallengesGadgetSuper {}

impl KZGChallengesGadgetSuper {
    /// The evaluation point, to which the prover is bound by the commitment to all
    /// witnesses and by the instances.
    pub fn get_challenge_native(
        poseidon_config: &PoseidonConfig,
        u: &CommittedInstanceFoldPotSuper,
        com_all: &G1,
    ) -> (r: Fr)
        requires
            poseidon_config@.wf(),
        ensures
            r == kzg_challenge(poseidon_config@, u@.insts, *com_all),
    {
        let mut t = Sponge::new(poseidon_config);
        t.absorb(&absorb_g1(com_all));
        let ghost insts = u@.insts;
        let n = u.vec_inst.len();
        let ghost s0 = t@;
        let mut i: usize = 0;
        while i < n
            invariant
                i <= n,
                n == u.vec_inst@.len(),
                insts == inst_views(u.vec_inst@),
                t@ == points_absorbed(s0, cms_w(insts), i as nat),
                t.wf(),
            decreases n - i,
        {
            t.absorb(&absorb_g1(&u.vec_inst[i].cm_w));
            assert(cms_w(insts)[i as int] == u.vec_inst@[i as int].cm_w);
            i = i + 1;
        }
        let ghost s1 = t@;
        i = 0;
        while i < n
            invariant
                i <= n,
                n == u.vec_inst@.len(),
                insts == inst_views(u.vec_inst@),
                t@ == points_absorbed(s1, cms_e(insts), i as nat),
                t.wf(),
            decreases n - i,
        {
            t.absorb(&absorb_g1(&u.vec_inst[i].cm_e));
            assert(cms_e(insts)[i as int] == u.vec_inst@[i as int].cm_e);
            i = i + 1;
        }
        let ghost s2 = t@;
        i = 0;
        while i < n
            invariant
                i <= n,
                n == u.vec_inst@.len(),
                insts == inst_views(u.vec_inst@),
                t@ == points_absorbed(s2, cms_f(insts), i as nat),
                t.wf(),
            decreases n - i,
        {
            t.absorb(&absorb_g1(&u.vec_inst[i].cm_f));
            assert(cms_f(insts)[i as int] == u.vec_inst@[i as int].cm_f);
            i = i + 1;
        }
        t.squeeze_one()
    }

    /// The evaluation point as a circuit computes it.
    pub fn get_challenge_gadget(
        poseidon_config: &PoseidonConfig,
        u: &CommittedInstanceFoldPotSuper,
        com_all: &G1,
    ) -> (r: Fr)
        requires
            poseidon_config@.wf(),
        ensures
            r == kzg_challenge(poseidon_config@, u@.insts, *com_all),
    {
        KZGChallengesGadgetSuper::get_challenge_native(poseidon_config, u, com_all)
    }
}

/// The commitment to all witnesses and its evaluation point, none where the vector
/// cannot be committed to.
pub fn gen_com_all_w<CS: CommitmentScheme<Fr, G1>>(
    w: &WitnessFoldPotSuper,
    cs: &CS,
    u: &CommittedInstanceFoldPotSuper,
    poseidon_config: &PoseidonConfig,
    r_all_w: &Fr,
) -> (r: Option<(G1, Fr)>)
    requires
        poseidon_config@.wf(),
    ensures
        r == (match cs.commit_spec(all_values(wit_views(w.vec_wit@), *r_all_w), f_zero::<Fr>()) {
            Some(com_all) => Some((com_all, kzg_challenge(poseidon_config@, u@.insts, com_all))),
            None => None,
        }),
{
    let all_w = w.all_values(r_all_w);
    let zero = Fr::zero();
    match cs.commit(&all_w, &zero) {
        Some(com_all) => {
            let ch = KZGChallengesGadgetSuper::get_challenge_native(poseidon_config, u, &com_all);
            Some((com_all, ch))
        },
        None => None,
    }
}

/// What the first circuit gives.
#[derive(Debug)]
pub struct Phase1CircuitRet {
    /// The challenge and the combination coefficient of the last state.
    pub ch: Fr,
    pub rc: Fr,
    /// The sum of the evaluations in the last state.
    pub kzg_sum: Fr,
    /// The commitment to all witnesses, then the three commitments of each circuit's
    /// folded instance.
    pub vec_coms: Vec<G1>,
    /// The result in the last state.
    pub final_result: Fr,
    /// The incoming instance.
    pub u_i: CommittedInstanceFoldPot,
    /// The point at which the polynomial of all witnesses is evaluated, and its value.
    pub kzg_all_com_ch: Fr,
    pub eval_w_e: Fr,
    /// The commitments of the first circuit's folded instance.
    pub u_i1_0_cm_e: G1,
    pub u_i1_0_cm_w: G1,
    pub u_i1_0_cm_f: G1,
}

#[verifier::ext_equal]
pub struct Phase1RetView {
    pub ch: Fr,
    pub rc: Fr,
    pub kzg_sum: Fr,
    pub vec_coms: Seq<G1>,
    pub final_result: Fr,
    pub u_i: InstanceView,
    pub kzg_all_com_ch: Fr,
    pub eval_w_e: Fr,
    pub u_i1_0_cm_e: G1,
    pub u_i1_0_cm_w: G1,
    pub u_i1_0_cm_f: G1,
}

impl View for Phase1CircuitRet {
    type V = Phase1RetView;

    open spec fn view(&self) -> Phase1RetView {
        Phase1RetView {
            ch: self.ch,
            rc: self.rc,
            kzg_sum: self.kzg_sum,
            vec_coms: self.vec_coms@,
            final_result: self.final_result,
            u_i: self.u_i@,
            kzg_all_com_ch: self.kzg_all_com_ch,
            eval_w_e: self.eval_w_e,
            u_i1_0_cm_e: self.u_i1_0_cm_e,
            u_i1_0_cm_w: self.u_i1_0_cm_w,
            u_i1_0_cm_f: self.u_i1_0_cm_f,
        }
    }
}

impl Phase1RetView {
    pub open spec fn dummy() -> Phase1RetView {
        Phase1RetView {
            ch: f_zero::<Fr>(),
            rc: f_zero::<Fr>(),
            kzg_sum: f_zero::<Fr>(),
            vec_coms: repeated(G1::Infinity, 7),
            final_result: f_zero::<Fr>(),
            u_i: InstanceView::dummy(2),
            kzg_all_com_ch: f_zero::<Fr>(),
            eval_w_e: f_zero::<Fr>(),
            u_i1_0_cm_e: G1::Infinity,
            u_i1_0_cm_w: G1::Infinity,
            u_i1_0_cm_f: G1::Infinity,
        }
    }
}

impl Phase1CircuitRet {
    /// Zeros for two circuits.
    pub fn dummy() -> (r: Phase1CircuitRet)
        ensures
            r@ == Phase1RetView::dummy(),
    {
        let zero = Fr::zero();
        Phase1CircuitRet {
            ch: zero,
            rc: zero,
            kzg_sum: zero,
            vec_coms: filled(G1::Infinity, 7),
            final_result: zero,
            u_i: CommittedInstanceFoldPot::dummy(2),
            kzg_all_com_ch: zero,
            eval_w_e: zero,
            u_i1_0_cm_e: G1::Infinity,
            u_i1_0_cm_w: G1::Infinity,
            u_i1_0_cm_f: G1::Infinity,
        }
    }
}

/// What the second circuit gives.
#[derive(Debug)]
pub struct Phase2CircuitRet {
    /// The last link of the hash chain of the points of the second group.
    pub hashchain_b: Fr,
    pub main_ret: Phase1CircuitRet,
}

impl Phase2CircuitRet {
    /// Zeros.
    pub fn dummy() -> (r: Phase2CircuitRet)
        ensures
            r.hashchain_b == f_zero::<Fr>(),
            r.main_ret@ == Phase1RetView::dummy(),
    {
        Phase2CircuitRet { hashchain_b: Fr::zero(), main_ret: Phase1CircuitRet::dummy() }
    }
}

/// The circuit that checks the end of a computation: the incoming instance belongs to
/// the running ones, the instances folded once more have satisfying witnesses, and
/// the polynomial of all witnesses has the value that is given.
pub struct Phase1Circuit<CS1: CommitmentScheme<Fr, G1>> {
    pub circuits: Vec<StepCircuit<CS1>>,
    /// The CycleFold and the CyclePair circuit's system and Pedersen key.
    pub cf: PairContext<PedersenGrumpkin>,
    pub cp: PairContext<PedersenGrumpkin>,
    pub poseidon_config: PoseidonConfig,
    pub pp_hash: Fr,
    pub i: Fr,
    pub z_0: Vec<Fr>,
    pub z_i: Vec<Fr>,
    /// The incoming instance.
    pub u_i: CommittedInstanceFoldPot,
    /// The running instances.
    pub run_u: CommittedInstanceFoldPotSuper,
    /// The running instances and witnesses with the incoming one folded in.
    pub next_u: CommittedInstanceFoldPotSuper,
    pub next_w: WitnessFoldPotSuper,
    /// The commitment to the cross term of that fold.
    pub cm_t: G1,
    /// The running CycleFold instance and witness.
    pub cf_u: CommittedInstance,
    pub cf_w: Witness,
    /// The running CyclePair instance and witness, where pairings are folded too.
    pub cp_u: Option<CommittedInstance>,
    pub cp_w: Option<Witness>,
    /// The commitment to all witnesses and its blinding value.
    pub com_all_w: G1,
    pub r_all_w: Fr,
    /// The circuit of the last step.
    pub pc_i: Fr,
    pub zi_part2_inst: ZiPartTwoInst,
    pub b_full_mode: bool,
}

/// The instance of the circuit `pc`, the first one where there is no such circuit.
pub open spec fn selected(insts: Seq<InstanceView>, pc: Fr) -> InstanceView {
    if pc.val() < insts.len() {
        insts[pc.val() as int]
    } else {
        insts[0]
    }
}

impl<CS1: CommitmentScheme<Fr, G1>> Phase1Circuit<CS1> {
    pub open spec fn x_len(&self) -> nat {
        if self.b_full_mode { 3 } else { 2 }
    }

    /// Whether the sizes fit together.
    pub open spec fn wf(&self) -> bool {
        &&& self.poseidon_config@.wf()
        &&& 0 < self.circuits@.len() <= u32::MAX
        &&& forall|k: int| 0 <= k < self.circuits@.len() ==> (#[trigger] self.circuits@[k]).r1cs.wf()
        &&& self.run_u@.insts.len() == self.circuits@.len()
        &&& self.next_u@.insts.len() == self.circuits@.len()
        &&& self.next_w.vec_wit@.len() == self.circuits@.len()
        &&& self.u_i.x@.len() == self.x_len()
        &&& self.z_i@.len() == 2
        &&& self.cf.r1cs.wf()
        &&& self.cp.r1cs.wf()
    }

    pub open spec fn sponge(&self) -> SpongeView {
        SpongeView::fresh(self.poseidon_config@)
    }

    /// The dummy instances with which a computation begins, as a first step by the
    /// circuit `pc_i` leaves them.
    pub open spec fn first_dummies(&self) -> InstanceSuperView {
        InstanceSuperView {
            pc_i: self.pc_i,
            ..InstanceSuperView::dummy(self.x_len(), self.circuits@.len(), self.b_full_mode)
        }
    }

    /// What the incoming instance's first public value has to be: the digest of the
    /// running instances, of dummies after the first step.
    pub open spec fn expected_x(&self) -> Fr {
        let u = if self.i == f_one::<Fr>() {
            self.first_dummies()
        } else {
            self.run_u@
        };
        u.hash(self.sponge(), self.pp_hash, self.i, self.pc_i, self.z_0@, self.z_i@)
    }

    /// The bits of the challenge of the fold.
    pub open spec fn r_bits(&self) -> Seq<bool> {
        step_transcript(
            self.sponge(),
            self.pp_hash,
            self.run_u@.absorbed(),
            self.u_i@.absorbed(),
            self.cm_t,
        ).output_bits(N_BITS_RO as nat)
    }

    /// The fold of the incoming instance and the running one of its circuit.
    pub open spec fn folded(&self) -> InstanceView {
        selected(self.run_u@.insts, self.pc_i).folded(
            Fr::of(bits_value(self.r_bits())),
            self.u_i@,
            self.cm_t,
        )
    }

    /// Whether the incoming instance is not relaxed and belongs to the running ones.
    pub open spec fn incoming_ok(&self) -> bool {
        &&& self.u_i.cm_e.xy() == (f_zero::<Fq>(), f_zero::<Fq>())
        &&& self.u_i.u == f_one::<Fr>()
        &&& self.u_i.x@[0] == self.expected_x()
        &&& self.zi_part2_inst@.hash(self.poseidon_config@) == self.z_i@[1]
    }

    /// Whether the folded witnesses satisfy the relaxed systems.
    pub open spec fn witnesses_ok(&self) -> bool {
        forall|k: int|
            0 <= k < self.circuits@.len() ==> relaxed_check(
                (#[trigger] self.circuits@[k]).r1cs,
                wit_views(self.next_w.vec_wit@)[k],
                self.next_u@.insts[k],
            ) is Ok
    }

    /// Whether the fold is the given folded instance.
    pub open spec fn fold_ok(&self) -> bool {
        self.folded() == selected(self.next_u@.insts, self.pc_i)
    }

    /// Whether the CycleFold instance is the one that the incoming instance tells, its
    /// commitments are those to its witness, and the witness satisfies the system.
    pub open spec fn cyclefold_ok(&self) -> bool {
        &&& self.u_i.x@[1] == self.cf_u@.hash_cyclefold(self.sponge(), self.pp_hash)
        &&& self.cf.cs.blinded(self.cf_w@.e, self.cf_w@.r_e) == Some(self.cf_u.cm_e)
        &&& self.cf.cs.blinded(self.cf_w@.w, self.cf_w@.r_w) == Some(self.cf_u.cm_w)
        &&& pair_check(self.cf.r1cs, self.cf_w@, self.cf_u@) is Ok
    }

    /// Whether the circuit's constraints hold.
    pub open spec fn satisfied(&self) -> bool {
        &&& self.incoming_ok()
        &&& self.witnesses_ok()
        &&& self.fold_ok()
        &&& self.cyclefold_ok()
    }

    /// What the circuit gives.
    pub open spec fn ret(&self) -> Phase1RetView {
        let insts = self.next_u@.insts;
        let p = self.zi_part2_inst;
        let ch = kzg_challenge(self.poseidon_config@, insts, self.com_all_w);
        Phase1RetView {
            ch: p.ch,
            rc: p.rc,
            kzg_sum: f_add(f_add(p.sum_kzg_eval_lk, p.sum_kzg_eval_word), p.sum_kzg_eval_others),
            vec_coms: seq![self.com_all_w] + commitments(insts),
            final_result: p.f_result,
            u_i: self.u_i@,
            kzg_all_com_ch: ch,
            eval_w_e: poly_eval(all_values(wit_views(self.next_w.vec_wit@), self.r_all_w), ch),
            u_i1_0_cm_e: insts[0].cm_e,
            u_i1_0_cm_w: insts[0].cm_w,
            u_i1_0_cm_f: insts[0].cm_f,
        }
    }

    /// Whether the circuit is the one for the end of the given computation.
    pub open spec fn made_from(&self, nova: FoldPotSuper<CS1, PedersenGrumpkin>, com_all_w: G1, r_all_w: Fr) -> bool {
        let st = nova.state@;
        &&& self.wf()
        &&& self.circuits == nova.circuits
        &&& self.cf == nova.cf
        &&& self.cp == nova.cp
        &&& self.poseidon_config == nova.poseidon_config
        &&& self.pp_hash == nova.pp_hash
        &&& self.i == st.i
        &&& self.z_0@ == nova.z_0@
        &&& self.z_i@ == st.z_i
        &&& self.u_i@ == st.u_i
        &&& self.run_u@ == st.run_u
        &&& self.next_u@ == (InstanceSuperView { insts: nova.next_u(st).insts, ..st.run_u })
        &&& wit_views(self.next_w.vec_wit@) == nova.next_w(st)
        &&& Some(self.cm_t) == nova.cm_t(st)
        &&& self.cf_u@ == st.cf_u
        &&& self.cf_w@ == st.cf_w
        &&& self.cp_u == nova.state.cp_u
        &&& self.cp_w == nova.state.cp_w
        &&& self.com_all_w == com_all_w
        &&& self.r_all_w == r_all_w
        &&& self.pc_i == st.pc_i
        &&& self.zi_part2_inst@ == st.zi_part2_inst
        &&& self.b_full_mode == nova.b_full_mode
    }

    /// The circuit for the end of a computation, with the commitment to all witnesses
    /// and its blinding value. The incoming instance is folded once more.
    pub fn from_nova(nova: FoldPotSuper<CS1, PedersenGrumpkin>, com_all_w: &G1, r_all_w: &Fr) -> (r: Result<
        Phase1Circuit<CS1>,
        Error,
    >)
        requires
            nova.wf(),
        ensures
            r is Ok <==> nova.cm_t(nova.state@) is Some,
            r matches Err(e) ==> e@ == ErrorView::CommitmentFail,
            r matches Ok(c) ==> c.made_from(nova, *com_all_w, *r_all_w),
    {
        let (next_u, next_w, _r, cm_t) = match nova.gen_next_folded() {
            Err(e) => { return Err(e); },
            Ok(f) => f,
        };
        proof {
            assert forall|k: int| 0 <= k < nova.circuits@.len() implies (#[trigger] nova.circuits@[k]).r1cs.wf() by {
                assert(nova.circuits@[k].wf(nova.x_len()));
            }
            assert(wit_views(next_w.vec_wit@).len() == next_w.vec_wit@.len());
        }
        Ok(
            Phase1Circuit {
                circuits: nova.circuits,
                cf: nova.cf,
                cp: nova.cp,
                poseidon_config: nova.poseidon_config,
                pp_hash: nova.pp_hash,
                i: nova.state.i,
                z_0: nova.z_0,
                z_i: nova.state.z_i,
                u_i: nova.state.u_i,
                run_u: nova.state.run_u,
                next_u,
                next_w,
                cm_t,
                cf_u: nova.state.cf_u,
                cf_w: nova.state.cf_w,
                cp_u: nova.state.cp_u,
                cp_w: nova.state.cp_w,
                com_all_w: *com_all_w,
                r_all_w: *r_all_w,
                pc_i: nova.state.pc_i,
                zi_part2_inst: nova.state.zi_part2_inst,
                b_full_mode: nova.b_full_mode,
            },
        )
    }

    /// Checks that the incoming instance is not relaxed and belongs to the running
    /// ones.
    fn check_incoming(&self) -> (b: bool)
        requires
            self.wf(),
        ensures
            b == self.incoming_ok(),
    {
        let sponge = Sponge::new(&self.poseidon_config);
        let one = Fr::one();
        let zero = Fq::zero();
        let (ex, ey) = self.u_i.cm_e.coordinates();
        if !ex.same(&zero) || !ey.same(&zero) || !self.u_i.u.same(&one) {
            return false;
        }
        let expected = if self.i.same(&one) {
            let x_len: usize = if self.b_full_mode { 3 } else { 2 };
            let mut dummy = CommittedInstanceFoldPotSuper::dummy(x_len, self.circuits.len(), self.b_full_mode);
            dummy.pc_i = self.pc_i;
            dummy.hash(&sponge, &self.pp_hash, &self.i, &self.pc_i, &self.z_0, &self.z_i)
        } else {
            self.run_u.hash(&sponge, &self.pp_hash, &self.i, &self.pc_i, &self.z_0, &self.z_i)
        };
        if !self.u_i.x[0].same(&expected) {
            return false;
        }
        let h = self.zi_part2_inst.hash(&self.poseidon_config);
        h.same(&self.z_i[1])
    }

    /// Checks that the folded witnesses satisfy the relaxed systems.
    pub(crate) fn check_witnesses(&self) -> (b: bool)
        requires
            self.wf(),
        ensures
            b == self.witnesses_ok(),
    {
        let n = self.circuits.len();
        assert(self.next_u.vec_inst@.len() == self.next_u@.insts.len());
        let mut k: usize = 0;
        while k < n
            invariant
                k <= n,
                n == self.circuits@.len(),
                self.wf(),
                n == self.next_u.vec_inst@.len(),
                forall|j: int|
                    0 <= j < k ==> relaxed_check(
                        (#[trigger] self.circuits@[j]).r1cs,
                        wit_views(self.next_w.vec_wit@)[j],
                        self.next_u@.insts[j],
                    ) is Ok,
            decreases n - k,
        {
            assert(self.circuits@[k as int].r1cs.wf());
            let ok = check_relaxed_instance_relation(
                &self.circuits[k].r1cs,
                &self.next_w.vec_wit[k],
                &self.next_u.vec_inst[k],
            ).is_ok();
            if !ok {
                assert(relaxed_check(
                    self.circuits@[k as int].r1cs,
                    wit_views(self.next_w.vec_wit@)[k as int],
                    self.next_u@.insts[k as int],
                ) is Err);
                return false;
            }
            k = k + 1;
        }
        true
    }

    /// The place of the instance of the circuit `pc_i`, the first one where there is
    /// no such circuit.
    fn select(&self) -> (j: usize)
        requires
            self.wf(),
        ensures
            j < self.circuits@.len(),
            j == (if self.pc_i.val() < self.circuits@.len() {
                self.pc_i.val()
            } else {
                0
            }),
    {
        let n = self.circuits.len();
        let limit = Fr::from_u64(n as u64);
        if self.pc_i.less(&limit) {
            field_to_usize(&self.pc_i)
        } else {
            0
        }
    }

    /// Checks the fold of the incoming instance.
    fn check_fold(&self) -> (b: bool)
        requires
            self.wf(),
        ensures
            b == self.fold_ok(),
    {
        let mut transcript = Sponge::new(&self.poseidon_config);
        let running = self.run_u.to_sponge_field_elements();
        let incoming = CommittedInstanceVarFoldPot::new_variable(&self.u_i);
        let bits = ChallengeGadgetFoldPot::get_challenge_gadget(
            &mut transcript,
            &self.pp_hash,
            &running,
            &incoming,
            &self.cm_t,
        );
        let r = challenge_to_fr(&bits);
        let j = self.select();
        assert(self.run_u.vec_inst@.len() == self.run_u@.insts.len());
        assert(self.next_u.vec_inst@.len() == self.next_u@.insts.len());
        let run = CommittedInstanceVarFoldPot::new_variable(&self.run_u.vec_inst[j]);
        let expected = CommittedInstanceVarFoldPot::new_variable(&self.next_u.vec_inst[j]);
        assert(run.value@ == selected(self.run_u@.insts, self.pc_i));
        assert(expected.value@ == selected(self.next_u@.insts, self.pc_i));
        let folded = NIFSGadgetFoldPot::fold_committed_instance_full(&r, &run, &incoming, &self.cm_t);
        folded.enforce_equal(&expected).is_ok()
    }

    /// Checks the CycleFold instance.
    pub(crate) fn check_cyclefold(&self) -> (b: bool)
        requires
            self.wf(),
        ensures
            b == self.cyclefold_ok(),
    {
        let sponge = Sponge::new(&self.poseidon_config);
        let x = self.cf_u.hash_cyclefold(&sponge, &self.pp_hash);
        if !self.u_i.x[1].same(&x) {
            return false;
        }
        if !opens(&self.cf.cs, &self.cf_w.e, &self.cf_w.r_e, &self.cf_u.cm_e) {
            return false;
        }
        if !opens(&self.cf.cs, &self.cf_w.w, &self.cf_w.r_w, &self.cf_u.cm_w) {
            return false;
        }
        check_pair_relation(&self.cf.r1cs, &self.cf_w, &self.cf_u).is_ok()
    }

    /// Checks the circuit's constraints and hands out what the circuit gives.
    pub fn generate_constraints_adv(&self) -> (r: Result<Phase1CircuitRet, Error>)
        requires
            self.wf(),
        ensures
            r is Ok <==> self.satisfied(),
            r matches Ok(ret) ==> ret@ == self.ret(),
            r matches Err(e) ==> e@ == ErrorView::NotSatisfied,
    {
        if !self.check_incoming() || !self.check_witnesses() || !self.check_fold() || !self.check_cyclefold() {
            return Err(Error::NotSatisfied);
        }
        let ch = KZGChallengesGadgetSuper::get_challenge_gadget(&self.poseidon_config, &self.next_u, &self.com_all_w);
        let all_w = self.next_w.all_values(&self.r_all_w);
        let one = Fr::one();
        let eval_w_e = evaluate_gadget(&all_w, &ch, &one);
        let vec_coms = self.all_commitments();
        let p = &self.zi_part2_inst;
        assert(self.next_u.vec_inst@.len() == self.next_u@.insts.len());
        let first = &self.next_u.vec_inst[0];
        assert(first@ == self.next_u@.insts[0]);
        Ok(
            Phase1CircuitRet {
                ch: p.ch,
                rc: p.rc,
                kzg_sum: p.sum_kzg_eval_lk.plus(&p.sum_kzg_eval_word).plus(&p.sum_kzg_eval_others),
                vec_coms,
                final_result: p.f_result,
                u_i: self.u_i.dup(),
                kzg_all_com_ch: ch,
                eval_w_e,
                u_i1_0_cm_e: first.cm_e,
                u_i1_0_cm_w: first.cm_w,
                u_i1_0_cm_f: first.cm_f,
            },
        )
    }

    /// The commitment to all witnesses, then the commitments of each folded instance.
    fn all_commitments(&self) -> (v: Vec<G1>)
        ensures
            v@ == seq![self.com_all_w] + commitments(self.next_u@.insts),
    {
        let ghost insts = self.next_u@.insts;
        let mut v: Vec<G1> = Vec::new();
        v.push(self.com_all_w);
        let mut k: usize = 0;
        assert(insts.take(0) =~= Seq::empty());
        assert(v@ =~= seq![self.com_all_w] + commitments(insts.take(0)));
        while k < self.next_u.vec_inst.len()
            invariant
                k <= self.next_u.vec_inst@.len(),
                insts == inst_views(self.next_u.vec_inst@),
                v@ == seq![self.com_all_w] + commitments(insts.take(k as int)),
            decreases self.next_u.vec_inst.len() - k,
        {
            let u = &self.next_u.vec_inst[k];
            v.push(u.cm_w);
            v.push(u.cm_e);
            v.push(u.cm_f);
            assert(insts.take(k + 1).drop_last() =~= insts.take(k as int));
            assert(v@ =~= seq![self.com_all_w] + commitments(insts.take(k + 1)));
            k = k + 1;
        }
        assert(insts.take(k as int) =~= insts);
        v
    }
}

/// Whether `cm` is the blinded commitment to `v`.
pub(crate) fn opens(cs: &PedersenGrumpkin, v: &Vec<Fq>, blind: &Fq, cm: &Grumpkin) -> (b: bool)
    ensures
        b == (cs.blinded(v@, *blind) == Some(*cm)),
{
    match cs.commit_blinded(v, blind) {
        Some(p) => p == *cm,
        None => false,
    }
}

/// Where the checks of the first `n` running witnesses succeed, each of them does.
proof fn lemma_each_check_succeeds(
    vps: Seq<VerifierParamsFoldPot>,
    wits: Seq<WitnessFoldPotView>,
    insts: Seq<InstanceView>,
    n: nat,
    k: int,
)
    requires
        relaxed_checks(vps, wits, insts, n) is Ok,
        0 <= k < n,
    ensures
        relaxed_check(vps[k].r1cs, wits[k], insts[k]) is Ok,
    decreases n,
{
    if k < n - 1 {
        lemma_each_check_succeeds(vps, wits, insts, (n - 1) as nat, k);
    }
}

/// What the verifier's acceptance of the end of a computation says of the values in
/// the circuit, where the CycleFold commitments open.
pub proof fn lemma_accepted_end<CS1: CommitmentScheme<Fr, G1>>(
    nova: FoldPotSuper<CS1, PedersenGrumpkin>,
    vp: VerifierParamsFoldPotSuper,
    c: Phase1Circuit<CS1>,
)
    requires
        nova.wf(),
        nova.known_to(vp),
        c.made_from(nova, c.com_all_w, c.r_all_w),
        c.i != f_zero::<Fr>(),
        c.run_u@.pc_i == c.pc_i,
        vp.verify_spec(nova.z_0@, nova.state@.z_i, nova.state@.i, nova.shown(nova.state@)) is Ok,
        c.cf.cs.blinded(c.cf_w@.e, c.cf_w@.r_e) == Some(c.cf_u.cm_e),
        c.cf.cs.blinded(c.cf_w@.w, c.cf_w@.r_w) == Some(c.cf_u.cm_w),
    ensures
        c.u_i.cm_e == G1::Infinity,
        c.u_i.u == f_one::<Fr>(),
        c.u_i.x@[0] == c.run_u@.hash(c.sponge(), c.pp_hash, c.i, c.pc_i, c.z_0@, c.z_i@),
        c.witnesses_ok(),
        c.fold_ok(),
        c.cyclefold_ok(),
{
    let st = nova.state@;
    let j = st.pc_i.val() as int;
    assert(vp.vec_vp@[j].r1cs == nova.circuits@[j].r1cs);
    assert(nova.circuits@[j].wf(nova.x_len()));
    assert(st.run_w[j].w.len() == nova.circuits@[j].w_len());
    lemma_each_check_succeeds(vp.vec_vp@, st.run_w, st.run_u.insts, st.run_u.insts.len(), j);
    crate::nifs::law_folded_witness_satisfies_folded_instance(
        nova.last(st).r1cs,
        nova.run_w_at(st),
        nova.run_u_at(st),
        st.w_i,
        st.u_i,
        nova.r(st),
        nova.cm_t(st)->0,
    );
    assert forall|k: int| 0 <= k < c.circuits@.len() implies relaxed_check(
        (#[trigger] c.circuits@[k]).r1cs,
        wit_views(c.next_w.vec_wit@)[k],
        c.next_u@.insts[k],
    ) is Ok by {
        assert(vp.vec_vp@[k].r1cs == nova.circuits@[k].r1cs);
        lemma_each_check_succeeds(vp.vec_vp@, st.run_w, st.run_u.insts, st.run_u.insts.len(), k);
    }
    assert(c.u_i.x@ == st.u_i.x);
}

/// The decider's circuit is made for what the verifier accepts: where the verifier
/// accepts the end of a computation, the second part of the state is the one that the
/// state tells and the CycleFold commitments open, the constraints hold. After one step
/// the running instances have to be the dummies with which a computation begins.
pub proof fn law_accepted_end_satisfies_circuit<CS1: CommitmentScheme<Fr, G1>>(
    nova: FoldPotSuper<CS1, PedersenGrumpkin>,
    vp: VerifierParamsFoldPotSuper,
    c: Phase1Circuit<CS1>,
)
    requires
        nova.wf(),
        nova.known_to(vp),
        c.made_from(nova, c.com_all_w, c.r_all_w),
        c.i != f_zero::<Fr>(),
        c.run_u@.pc_i == c.pc_i,
        c.i == f_one::<Fr>() ==> c.run_u@ == c.first_dummies(),
        vp.verify_spec(nova.z_0@, nova.state@.z_i, nova.state@.i, nova.shown(nova.state@)) is Ok,
        c.zi_part2_inst@.hash(c.poseidon_config@) == c.z_i@[1],
        c.cf.cs.blinded(c.cf_w@.e, c.cf_w@.r_e) == Some(c.cf_u.cm_e),
        c.cf.cs.blinded(c.cf_w@.w, c.cf_w@.r_w) == Some(c.cf_u.cm_w),
    ensures
        c.satisfied(),
{
    lemma_accepted_end(nova, vp, c);
}

} // verus!
