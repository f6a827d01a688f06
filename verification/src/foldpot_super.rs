//! Incrementally verifiable computation with several step circuits, of which each
//! step takes one.
use vstd::prelude::*;
use sha3::Digest;
use crate::bigint::ark_to_bytes_le;
use crate::bigint::bits_value;
use crate::bigint::le_value;
use crate::bigint::lemma_le_digits;
use crate::circuits::cf_public_values;
use crate::circuits::cf_x;
use crate::circuits::challenge_to_fr;
use crate::circuits::CF_IO_LEN;
use crate::commitment::CommitmentScheme;
use crate::curve::Grumpkin;
use crate::curve::G1;
use crate::cyclefold::CycleAssignments;
use crate::cyclefold::CycleAssignmentsView;
use crate::cyclefold::CycleFoldsView;
use crate::cyclefold::CyclePublic;
use crate::cyclefold::PairAssignment;
use crate::cyclefold::PairAssignmentView;
use crate::cyclefold::PairContext;
use crate::cyclefold::PairState;
use crate::cyclepair::fold_cyclepair_circuit;
use crate::cyclepair::CyclePairCircuit;
use crate::cyclepair::CP_IO_LEN;
use crate::error::outcome;
use crate::error::Error;
use crate::error::ErrorView;
use crate::field::f_add;
use crate::field::f_mul;
use crate::field::f_one;
use crate::field::f_zero;
use crate::field::Field;
use crate::field::FieldModel;
use crate::field_fq::fq_modulus;
use crate::field_fq::Fq;
use crate::field_fr::ark_from_le_bytes_mod_order;
use crate::field_fr::fr_modulus;
use crate::field_fr::Fr;
use crate::foldpot::blinding_error;
use crate::foldpot::check_blinding;
use crate::foldpot::check_input;
use crate::foldpot::check_pair_relation;
use crate::foldpot::input_error;
use crate::foldpot::pair_check;
use crate::foldpot::VerifierParamsFoldPot;
use crate::instance::check_instance_relation;
use crate::instance::check_relaxed_instance_relation;
use crate::instance::dummy_possible;
use crate::instance::relaxed_check;
use crate::instance::strict_check;
use crate::instance::Blinds;
use crate::instance::CommittedInstanceFoldPot;
use crate::instance::InstanceView;
use crate::instance::WitnessFoldPot;
use crate::instance::WitnessFoldPotView;
use crate::instance_super::dup_wits;
use crate::instance_super::inst_views;
use crate::instance_super::wit_views;
use crate::instance_super::CommittedInstanceFoldPotSuper;
use crate::instance_super::InstanceSuperView;
use crate::instance_super::WitnessFoldPotSuper;
use crate::limbs::absorb_g1;
use crate::limbs::f1_limbs_to_f2;
use crate::limbs::g1_absorbed;
use crate::limbs::limbs_number;
use crate::limbs::N_LIMBS;
use crate::nifs::step_cross_term;
use crate::nifs::step_transcript;
use crate::nifs::step_transcript_after;
use crate::nifs::NIFSFoldPot;
use crate::nova::challenge_to_fq;
use crate::nova::fq_challenge;
use crate::nova::CommittedInstance;
use crate::nova::CommittedInstanceView;
use crate::nova::PairFoldView;
use crate::nova::Witness;
use crate::nova::WitnessView;
use crate::part_two::chain;
use crate::part_two::chained;
use crate::part_two::compute_step_hc;
use crate::part_two::PartTwoView;
use crate::part_two::ZiPartTwoInst;
use crate::part_two::CYCLEPAIR_INPUT_LEN;
use crate::r1cs::R1CS;
use crate::sponge::PoseidonConfig;
use crate::sponge::Sponge;
use crate::sponge::SpongeView;
use crate::sponge::N_BITS_RO;
use crate::vecs::copy_range;
use crate::vecs::same_elements;

verus! {

/// The index that a field element stands for.
pub fn field_to_usize(f: &Fr) -> (n: usize)
    requires
        f.val() <= usize::MAX,
    ensures
        n == f.val(),
{
    proof {
        vstd::arithmetic::div_mod::lemma_small_mod(f.val(), 0x1_0000_0000_0000_0000);
    }
    f.low_u64() as usize
}

/// The next link of the chain of the fixed memories' digests, that of a step whose
/// fixed memory has the commitment `cm_f`, and that commitment.
#[allow(non_snake_case)]
pub fn compute_step_hc_cmF_adv(hc_cm_f: &Fr, cm_f: &G1, poseidon_config: &PoseidonConfig) -> (r: (Fr, G1))
    requires
        poseidon_config@.wf(),
    ensures
        r.0 == chained(poseidon_config@, *hc_cm_f, g1_absorbed(*cm_f)),
        r.1 == *cm_f,
{
    (compute_step_hc(poseidon_config, hc_cm_f, cm_f), *cm_f)
}

/// The transcript's bits for the challenge of a step with several circuits.
#[derive(Debug, Clone, Copy)]
pub struct ChallengeGadgetFoldPotSuper {}

impl ChallengeGadgetFoldPotSuper {
    /// The bits of the challenge: the parameters' digest, the running instances, the
    /// incoming instance and the cross term's commitment are absorbed.
    pub fn get_challenge_native(
        transcript: &mut Sponge,
        pp_hash: &Fr,
        running: &CommittedInstanceFoldPotSuper,
        incoming: &CommittedInstanceFoldPot,
        cm_t: &G1,
    ) -> (r: Vec<bool>)
        requires
            old(transcript).wf(),
        ensures
            r@ == step_transcript(
                old(transcript)@,
                *pp_hash,
                running@.absorbed(),
                incoming@.absorbed(),
                *cm_t,
            ).output_bits(N_BITS_RO as nat),
            r@.len() == N_BITS_RO,
            final(transcript)@ == step_transcript_after(
                old(transcript)@,
                *pp_hash,
                running@.absorbed(),
                incoming@.absorbed(),
                *cm_t,
            ),
    {
        transcript.absorb_one(pp_hash);
        transcript.absorb(&running.to_sponge_field_elements());
        transcript.absorb(&incoming.to_sponge_field_elements());
        transcript.absorb(&absorb_g1(cm_t));
        transcript.squeeze_bits(N_BITS_RO)
    }
}

/// What a step changes.
#[derive(Debug)]
pub struct SuperState {
    /// The number of steps taken.
    pub i: Fr,
    /// The current state.
    pub z_i: Vec<Fr>,
    /// What the current state's second element is the digest of.
    pub zi_part2_inst: ZiPartTwoInst,
    /// The incoming witness and instance, those of the circuit `pc_i`.
    pub w_i: WitnessFoldPot,
    pub u_i: CommittedInstanceFoldPot,
    /// The running witnesses and instances, one for each circuit.
    pub run_w: WitnessFoldPotSuper,
    pub run_u: CommittedInstanceFoldPotSuper,
    /// The running CycleFold witness and instance.
    pub cf_w: Witness,
    pub cf_u: CommittedInstance,
    /// The running CyclePair witness and instance, where pairings are folded too.
    pub cp_w: Option<Witness>,
    pub cp_u: Option<CommittedInstance>,
    /// The circuit of the last step.
    pub pc_i: Fr,
}

#[verifier::ext_equal]
pub struct SuperStateView {
    pub i: Fr,
    pub z_i: Seq<Fr>,
    pub zi_part2_inst: PartTwoView,
    pub w_i: WitnessFoldPotView,
    pub u_i: InstanceView,
    pub run_w: Seq<WitnessFoldPotView>,
    pub run_u: InstanceSuperView,
    pub cf_w: WitnessView,
    pub cf_u: CommittedInstanceView,
    pub cp_w: Option<WitnessView>,
    pub cp_u: Option<CommittedInstanceView>,
    pub pc_i: Fr,
}

pub open spec fn opt_witness(w: Option<Witness>) -> Option<WitnessView> {
    match w {
        Some(x) => Some(x@),
        None => None,
    }
}

pub open spec fn opt_pair(u: Option<CommittedInstance>) -> Option<CommittedInstanceView> {
    match u {
        Some(x) => Some(x@),
        None => None,
    }
}

impl View for SuperState {
    type V = SuperStateView;

    open spec fn view(&self) -> SuperStateView {
        SuperStateView {
            i: self.i,
            z_i: self.z_i@,
            zi_part2_inst: self.zi_part2_inst@,
            w_i: self.w_i@,
            u_i: self.u_i@,
            run_w: wit_views(self.run_w.vec_wit@),
            run_u: self.run_u@,
            cf_w: self.cf_w@,
            cf_u: self.cf_u@,
            cp_w: opt_witness(self.cp_w),
            cp_u: opt_pair(self.cp_u),
            pc_i: self.pc_i,
        }
    }
}

/// What a step is given: the external inputs, what the step circuit's witness
/// generation gives, the assignments that the synthesis of the circuits gives, and
/// blinding values.
#[derive(Debug)]
pub struct SuperInput {
    pub external_inputs: Vec<Fr>,
    /// Whether further instances were given to fold.
    pub other_instances: bool,
    /// What is absorbed of the commitment to the step's fixed memory.
    pub cm_f: Vec<Fr>,
    /// What the next state's second element is the digest of.
    pub next_part2: ZiPartTwoInst,
    /// The augmented circuit's assignment: the secret and the public values.
    pub w: Vec<Fr>,
    pub x: Vec<Fr>,
    pub blinds: Blinds,
    /// The CycleFold circuits' assignments.
    pub cf: CycleAssignments,
    /// The CyclePair circuit's assignment.
    pub cp: PairAssignment,
}

pub struct SuperInputView {
    pub external_inputs: Seq<Fr>,
    pub other_instances: bool,
    pub cm_f: Seq<Fr>,
    pub next_part2: PartTwoView,
    pub w: Seq<Fr>,
    pub x: Seq<Fr>,
    pub blinds: Blinds,
    pub cf: CycleAssignmentsView,
    pub cp: PairAssignmentView,
}

impl View for SuperInput {
    type V = SuperInputView;

    open spec fn view(&self) -> SuperInputView {
        SuperInputView {
            external_inputs: self.external_inputs@,
            other_instances: self.other_instances,
            cm_f: self.cm_f@,
            next_part2: self.next_part2@,
            w: self.w@,
            x: self.x@,
            blinds: self.blinds,
            cf: self.cf@,
            cp: self.cp@,
        }
    }
}

/// What is fixed for one of the step circuits.
pub struct StepCircuit<CS1: CommitmentScheme<Fr, G1>> {
    /// The augmented circuit's system.
    pub r1cs: R1CS<Fr>,
    pub cs_pp: CS1,
    /// How many elements a state of the circuit has.
    pub state_len: usize,
    /// How many external inputs the circuit takes.
    pub external_inputs_len: usize,
    /// Where in the witness the fixed memory is.
    pub size_f: usize,
    pub start_f: usize,
}

impl<CS1: CommitmentScheme<Fr, G1>> StepCircuit<CS1> {
    /// How many secret values a witness has.
    pub open spec fn w_len(&self) -> nat {
        (self.r1cs.a.n_cols - 1 - self.r1cs.l) as nat
    }

    pub open spec fn wf(&self, x_len: nat) -> bool {
        &&& self.r1cs.wf()
        &&& self.r1cs.l == x_len
        &&& dummy_possible(self.r1cs, self.size_f as nat, self.start_f as nat)
    }
}

/// An incremental computation with several step circuits.
pub struct FoldPotSuper<CS1: CommitmentScheme<Fr, G1>, CS2: CommitmentScheme<Fq, Grumpkin>> {
    pub circuits: Vec<StepCircuit<CS1>>,
    pub poseidon_config: PoseidonConfig,
    /// Whether the commitments are blinded.
    pub hiding: bool,
    /// The CycleFold and the CyclePair circuit's system and commitment scheme.
    pub cf: PairContext<CS2>,
    pub cp: PairContext<CS2>,
    /// The digest of the parameters.
    pub pp_hash: Fr,
    /// The first state.
    pub z_0: Vec<Fr>,
    /// Whether pairings are folded too.
    pub b_full_mode: bool,
    /// The circuit that the next step takes.
    pub pc_i1: Fr,
    pub state: SuperState,
}

/// The elements of the base field whose limbs the input of a pairing circuit holds.
pub open spec fn cp_elements(v: Seq<Fr>) -> Seq<Fq> {
    Seq::new(
        CP_IO_LEN as nat,
        |i: int| Fq::of(limbs_number(v.subrange(N_LIMBS * i, N_LIMBS * i + N_LIMBS)) % fq_modulus()),
    )
}

/// The elements of the base field whose limbs the input of a pairing circuit holds.
pub fn cyclepair_values(v: &Vec<Fr>) -> (r: Vec<Fq>)
    requires
        v@.len() == CYCLEPAIR_INPUT_LEN,
    ensures
        r@ == cp_elements(v@),
        r@.len() == CP_IO_LEN,
{
    let mut r: Vec<Fq> = Vec::new();
    let mut i: usize = 0;
    while i < CP_IO_LEN
        invariant
            i <= CP_IO_LEN,
            v@.len() == CYCLEPAIR_INPUT_LEN,
            r@ == cp_elements(v@).take(i as int),
        decreases CP_IO_LEN - i,
    {
        let chunk = copy_range(v, N_LIMBS * i, N_LIMBS * i + N_LIMBS);
        r.push(f1_limbs_to_f2(&chunk));
        assert(r@ =~= cp_elements(v@).take(i + 1));
        i = i + 1;
    }
    assert(r@ =~= cp_elements(v@));
    r
}

impl<CS1: CommitmentScheme<Fr, G1>, CS2: CommitmentScheme<Fq, Grumpkin>> FoldPotSuper<CS1, CS2> {
    /// Whether everything but the state is the same.
    pub open spec fn same_setup(&self, other: FoldPotSuper<CS1, CS2>) -> bool {
        *self == (FoldPotSuper { state: self.state, ..other })
    }

    /// How many public values an instance has.
    pub open spec fn x_len(&self) -> nat {
        if self.b_full_mode { 3 } else { 2 }
    }

    /// Whether the sizes fit together.
    pub open spec fn setup_wf(&self) -> bool {
        &&& 0 < self.circuits@.len() <= u32::MAX
        &&& forall|k: int| 0 <= k < self.circuits@.len() ==> (#[trigger] self.circuits@[k]).wf(self.x_len())
        &&& self.cf.r1cs.wf()
        &&& self.cf.r1cs.l == CF_IO_LEN
        &&& self.cp.r1cs.wf()
        &&& self.cp.r1cs.l == CP_IO_LEN
        &&& self.poseidon_config@.wf()
        &&& self.pc_i1.val() < self.circuits@.len()
    }

    /// The circuit of the last step, whose instance is folded in this one.
    pub open spec fn last(&self, st: SuperStateView) -> StepCircuit<CS1> {
        self.circuits@[st.pc_i.val() as int]
    }

    /// The circuit of this step.
    pub open spec fn active(&self) -> StepCircuit<CS1> {
        self.circuits@[self.pc_i1.val() as int]
    }

    /// The running witness of the last step's circuit.
    pub open spec fn run_w_at(&self, st: SuperStateView) -> WitnessFoldPotView {
        st.run_w[st.pc_i.val() as int]
    }

    /// The running instance of the last step's circuit.
    pub open spec fn run_u_at(&self, st: SuperStateView) -> InstanceView {
        st.run_u.insts[st.pc_i.val() as int]
    }

    /// How many secret values a witness of the CycleFold circuit has.
    pub open spec fn cf_w_len(&self) -> nat {
        (self.cf.r1cs.a.n_cols - 1 - self.cf.r1cs.l) as nat
    }

    /// How many secret values a witness of the CyclePair circuit has.
    pub open spec fn cp_w_len(&self) -> nat {
        (self.cp.r1cs.a.n_cols - 1 - self.cp.r1cs.l) as nat
    }

    /// Whether the sizes in a state are those of the systems.
    pub open spec fn state_wf(&self, st: SuperStateView) -> bool {
        &&& st.z_i.len() == 2
        &&& st.pc_i.val() < self.circuits@.len()
        &&& st.w_i.w.len() == self.last(st).w_len()
        &&& st.u_i.x.len() == self.x_len()
        &&& st.run_w.len() == self.circuits@.len()
        &&& st.run_u.insts.len() == self.circuits@.len()
        &&& forall|k: int|
            0 <= k < self.circuits@.len() ==> {
                &&& (#[trigger] st.run_w[k]).w.len() == self.circuits@[k].w_len()
                &&& st.run_w[k].e.len() == self.circuits@[k].r1cs.a.n_rows
                &&& st.run_u.insts[k].x.len() == self.x_len()
            }
        &&& st.run_u.x_2 is Some == self.b_full_mode
        &&& self.cf_state(st).wf(self.cf.r1cs)
        &&& st.cp_w is Some == self.b_full_mode
        &&& st.cp_u is Some == self.b_full_mode
        &&& self.b_full_mode ==> (PairState {
            witness: st.cp_w->0,
            instance: st.cp_u->0,
            transcript: self.sponge(),
        }).wf(self.cp.r1cs)
    }

    /// Whether the sizes in a step's input are those of the systems.
    pub open spec fn input_wf(&self, inp: SuperInputView) -> bool {
        &&& inp.w.len() == self.active().w_len()
        &&& inp.x.len() == self.x_len()
        &&& inp.cf.wf(self.cf_w_len())
        &&& self.b_full_mode ==> {
            &&& inp.cp.w.len() == self.cp_w_len()
            &&& inp.next_part2.cyclepair_input is Some
            &&& inp.next_part2.cyclepair_input->0.len() == CYCLEPAIR_INPUT_LEN
        }
    }

    pub open spec fn wf(&self) -> bool {
        self.setup_wf() && self.state_wf(self.state@)
    }

    pub open spec fn sponge(&self) -> SpongeView {
        SpongeView::fresh(self.poseidon_config@)
    }

    /// The cross term of the incoming and the running witness.
    pub open spec fn cross(&self, st: SuperStateView) -> Seq<Fr> {
        step_cross_term(self.last(st).r1cs, st.w_i, st.u_i, self.run_w_at(st), self.run_u_at(st))
    }

    /// The commitment to the cross term.
    pub open spec fn cm_t(&self, st: SuperStateView) -> Option<G1> {
        self.last(st).cs_pp.commit_spec(self.cross(st), f_zero::<Fr>())
    }

    /// The bits of the challenge.
    pub open spec fn r_bits(&self, st: SuperStateView) -> Seq<bool> {
        step_transcript(
            self.sponge(),
            self.pp_hash,
            st.run_u.absorbed(),
            st.u_i.absorbed(),
            self.cm_t(st)->0,
        ).output_bits(N_BITS_RO as nat)
    }

    /// The challenge.
    pub open spec fn r(&self, st: SuperStateView) -> Fr {
        Fr::of(bits_value(self.r_bits(st)))
    }

    /// The running witness of the last step's circuit after the fold.
    pub open spec fn next_w_at(&self, st: SuperStateView) -> WitnessFoldPotView {
        self.run_w_at(st).folded(self.r(st), st.w_i, self.cross(st))
    }

    /// The running instance of the last step's circuit after the fold.
    pub open spec fn next_u_at(&self, st: SuperStateView) -> InstanceView {
        self.run_u_at(st).folded(self.r(st), st.u_i, self.cm_t(st)->0)
    }

    /// The running witnesses after the fold.
    pub open spec fn next_w(&self, st: SuperStateView) -> Seq<WitnessFoldPotView> {
        st.run_w.update(st.pc_i.val() as int, self.next_w_at(st))
    }

    /// The running instances after the fold: that of the last step's circuit is
    /// folded, and so are the digests; this step's circuit is noted.
    pub open spec fn next_u(&self, st: SuperStateView) -> InstanceSuperView {
        InstanceSuperView {
            insts: st.run_u.insts.update(st.pc_i.val() as int, self.next_u_at(st)),
            x_1: f_add(st.run_u.x_1, f_mul(self.r(st), st.u_i.x[1])),
            x_2: if self.b_full_mode {
                Some(f_add(st.run_u.x_2->0, f_mul(self.r(st), st.u_i.x[2])))
            } else {
                None
            },
            pc_i: self.pc_i1,
        }
    }

    /// The next state.
    pub open spec fn next_z(&self, st: SuperStateView, inp: SuperInputView) -> Seq<Fr> {
        seq![
            chained(self.poseidon_config@, st.z_i[0], inp.cm_f),
            inp.next_part2.hash(self.poseidon_config@),
        ]
    }

    /// The first public value that the augmented circuit has to give: the digest of
    /// the running instances after the fold, of dummies in the first step.
    pub open spec fn next_x(&self, st: SuperStateView, inp: SuperInputView) -> Fr {
        let z_i1 = self.next_z(st, inp);
        if st.i == f_zero::<Fr>() {
            let dummy = InstanceSuperView::dummy(self.x_len(), self.circuits@.len(), self.b_full_mode);
            (InstanceSuperView { pc_i: self.pc_i1, ..dummy }).hash(
                self.sponge(),
                self.pp_hash,
                f_one::<Fr>(),
                self.pc_i1,
                self.z_0@,
                z_i1,
            )
        } else {
            self.next_u(st).hash(
                self.sponge(),
                self.pp_hash,
                f_add(st.i, f_one::<Fr>()),
                self.pc_i1,
                self.z_0@,
                z_i1,
            )
        }
    }

    /// The running CycleFold witness and instance, with the transcript after the
    /// step's challenge.
    pub open spec fn cf_state(&self, st: SuperStateView) -> PairState {
        PairState {
            witness: st.cf_w,
            instance: st.cf_u,
            transcript: step_transcript_after(
                self.sponge(),
                self.pp_hash,
                st.run_u.absorbed(),
                st.u_i.absorbed(),
                self.cm_t(st)->0,
            ),
        }
    }

    /// The public values of the CycleFold circuits.
    pub open spec fn cf_public(&self, st: SuperStateView) -> CyclePublic {
        let r = fq_challenge(self.r_bits(st));
        let (u, next) = (self.run_u_at(st), self.next_u_at(st));
        CyclePublic {
            w: cf_x(r, u.cm_w, st.u_i.cm_w, next.cm_w),
            e: cf_x(r, u.cm_e, self.cm_t(st)->0, next.cm_e),
            f: cf_x(r, u.cm_f, st.u_i.cm_f, next.cm_f),
        }
    }

    /// What the folds of the CycleFold circuits give.
    pub open spec fn cf_folds(&self, st: SuperStateView, inp: SuperInputView) -> Result<CycleFoldsView, ErrorView> {
        self.cf.folds_spec(self.pp_hash, self.cf_state(st), self.cf_public(st), inp.cf)
    }

    /// The running CyclePair witness and instance, with the transcript after the
    /// CycleFold circuits' folds.
    pub open spec fn cp_state(&self, st: SuperStateView, inp: SuperInputView) -> PairState {
        PairState {
            witness: st.cp_w->0,
            instance: st.cp_u->0,
            transcript: self.cf.after_folds(
                self.pp_hash,
                self.cf_state(st),
                self.cf_folds(st, inp)->Ok_0,
            ).transcript,
        }
    }

    /// The public values of the CyclePair circuit.
    pub open spec fn cp_public(&self, inp: SuperInputView) -> Seq<Fq> {
        cp_elements(inp.next_part2.cyclepair_input->0)
    }

    /// What the fold of the CyclePair circuit gives.
    pub open spec fn cp_fold(&self, st: SuperStateView, inp: SuperInputView) -> Result<PairFoldView, ErrorView> {
        self.cp.fold_spec(self.pp_hash, self.cp_state(st, inp), self.cp_public(inp), inp.cp)
    }

    /// The state with the CycleFold and CyclePair parts of the step: none in the first
    /// step.
    pub open spec fn pairs_stepped(&self, st: SuperStateView, inp: SuperInputView) -> SuperStateView {
        if st.i == f_zero::<Fr>() {
            st
        } else {
            SuperStateView {
                cf_w: self.cf_folds(st, inp)->Ok_0.f.witness,
                cf_u: self.cf_folds(st, inp)->Ok_0.f.instance,
                cp_w: if self.b_full_mode {
                    Some(self.cp_fold(st, inp)->Ok_0.witness)
                } else {
                    None
                },
                cp_u: if self.b_full_mode {
                    Some(self.cp_fold(st, inp)->Ok_0.instance)
                } else {
                    None
                },
                ..st
            }
        }
    }

    /// The state with all but the instances of the step.
    pub open spec fn stepped(&self, st: SuperStateView, inp: SuperInputView) -> SuperStateView {
        SuperStateView {
            i: f_add(st.i, f_one::<Fr>()),
            z_i: self.next_z(st, inp),
            zi_part2_inst: inp.next_part2,
            w_i: WitnessFoldPotView::new(
                inp.w,
                self.active().r1cs.a.n_rows as nat,
                self.hiding,
                inp.blinds,
                self.active().size_f as nat,
                self.active().start_f as nat,
            ),
            ..self.pairs_stepped(st, inp)
        }
    }

    /// Whether the augmented circuit's public values are the expected ones.
    pub open spec fn values_match(&self, st: SuperStateView, inp: SuperInputView) -> bool {
        let pairs = self.pairs_stepped(st, inp);
        &&& inp.x[0] == self.next_x(st, inp)
        &&& inp.x[1] == pairs.cf_u.hash_cyclefold(self.sponge(), self.pp_hash)
        &&& self.b_full_mode ==> inp.x[2] == pairs.cp_u->0.hash_cyclefold(self.sponge(), self.pp_hash)
    }

    /// The state after a step, and what the step returns.
    pub open spec fn step_spec(&self, st: SuperStateView, inp: SuperInputView) -> (
        SuperStateView,
        Result<(), ErrorView>,
    ) {
        let stepped = self.stepped(st, inp);
        let u_i = stepped.w_i.commit(self.active().cs_pp, inp.x);
        if self.early_error(st, inp) is Some {
            (st, Err(self.early_error(st, inp)->0))
        } else if self.cm_t(st) is None {
            (st, Err(ErrorView::CommitmentFail))
        } else if st.i != f_zero::<Fr>() && self.cf_folds(st, inp) is Err {
            (st, Err(self.cf_folds(st, inp)->Err_0))
        } else if st.i != f_zero::<Fr>() && self.b_full_mode && self.cp_fold(st, inp) is Err {
            (st, Err(self.cp_fold(st, inp)->Err_0))
        } else if !self.values_match(st, inp) {
            (self.pairs_stepped(st, inp), Err(ErrorView::NotEqual))
        } else if u_i is None {
            (stepped, Err(ErrorView::CommitmentFail))
        } else {
            (
                SuperStateView {
                    u_i: u_i->0,
                    run_w: self.next_w(st),
                    run_u: self.next_u(st),
                    pc_i: self.pc_i1,
                    ..stepped
                },
                Ok(()),
            )
        }
    }

    /// The cross term of the incoming witness and the running one of the `j`-th
    /// circuit, and its commitment.
    #[allow(non_snake_case)]
    pub fn compute_cmT(&self, j: usize) -> (r: (Vec<Fr>, Option<G1>))
        requires
            self.wf(),
            j == self.state.pc_i.val(),
        ensures
            r.0@ == self.cross(self.state@),
            r.1 == self.cm_t(self.state@),
    {
        let ghost st = self.state@;
        assert(self.circuits@[j as int].wf(self.x_len()));
        assert(st.run_w[j as int].w.len() == self.circuits@[j as int].w_len());
        NIFSFoldPot::compute_cmT(
            &self.circuits[j].cs_pp,
            &self.circuits[j].r1cs,
            &self.state.w_i,
            &self.state.u_i,
            &self.state.run_w.vec_wit[j],
            &self.state.run_u.vec_inst[j],
        )
    }

    /// The running instances and witnesses with the incoming instance folded in, the
    /// challenge, and the commitment to the cross term. The digests and the circuit
    /// in the instances are left as they are.
    pub fn gen_next_folded(&self) -> (r: Result<
        (CommittedInstanceFoldPotSuper, WitnessFoldPotSuper, Fr, G1),
        Error,
    >)
        requires
            self.wf(),
        ensures
            r is Ok <==> self.cm_t(self.state@) is Some,
            r matches Ok(f) ==> {
                &&& f.0@ == (InstanceSuperView { insts: self.next_u(self.state@).insts, ..self.state@.run_u })
                &&& wit_views(f.1.vec_wit@) == self.next_w(self.state@)
                &&& f.2 == self.r(self.state@)
                &&& Some(f.3) == self.cm_t(self.state@)
            },
            r matches Err(e) ==> e@ == ErrorView::CommitmentFail,
    {
        let ghost st = self.state@;
        let j = field_to_usize(&self.state.pc_i);
        let (t, cm_t) = self.compute_cmT(j);
        let cm_t = match cm_t {
            None => { return Err(Error::CommitmentFail); },
            Some(p) => p,
        };
        let mut transcript = Sponge::new(&self.poseidon_config);
        let bits = ChallengeGadgetFoldPotSuper::get_challenge_native(
            &mut transcript,
            &self.pp_hash,
            &self.state.run_u,
            &self.state.u_i,
            &cm_t,
        );
        let r = challenge_to_fr(&bits);
        let (w, u) = NIFSFoldPot::fold_instances(
            &r,
            &self.state.run_w.vec_wit[j],
            &self.state.run_u.vec_inst[j],
            &self.state.w_i,
            &self.state.u_i,
            &t,
            &cm_t,
        );
        let mut vec_wit = dup_wits(&self.state.run_w.vec_wit);
        assert(vec_wit@.len() == wit_views(vec_wit@).len());
        let ghost before_w = vec_wit@;
        vec_wit.set(j, w);
        assert(wit_views(vec_wit@) =~= wit_views(before_w).update(j as int, w@));
        let mut next_u = self.state.run_u.dup();
        assert(next_u.vec_inst@.len() == inst_views(next_u.vec_inst@).len());
        let ghost before_u = next_u.vec_inst@;
        next_u.vec_inst.set(j, u);
        assert(inst_views(next_u.vec_inst@) =~= inst_views(before_u).update(j as int, u@));
        Ok((next_u, WitnessFoldPotSuper { vec_wit }, r, cm_t))
    }

    /// What is wrong with a step before anything is computed.
    pub open spec fn early_error(&self, st: SuperStateView, inp: SuperInputView) -> Option<ErrorView> {
        let blinding = blinding_error(self.hiding, st.i, st.w_i, self.run_w_at(st));
        if blinding is Some {
            blinding
        } else {
            input_error(
                inp.other_instances,
                st.z_i.len(),
                self.active().state_len as nat,
                inp.external_inputs.len(),
                self.active().external_inputs_len as nat,
                st.i,
            )
        }
    }

    /// Checks a step before anything is computed.
    fn check_step(&self, inp: &SuperInput) -> (r: Option<Error>)
        requires
            self.wf(),
        ensures
            crate::foldpot::opt_error(r) == self.early_error(self.state@, inp@),
    {
        let ghost st = self.state@;
        let j1 = field_to_usize(&self.pc_i1);
        let j = field_to_usize(&self.state.pc_i);
        assert(st.run_w.len() == self.state.run_w.vec_wit@.len());
        match check_blinding(self.hiding, &self.state.i, &self.state.w_i, &self.state.run_w.vec_wit[j]) {
            Some(e) => { return Some(e); },
            None => {},
        }
        check_input(
            inp.other_instances,
            self.state.z_i.len(),
            self.circuits[j1].state_len,
            inp.external_inputs.len(),
            self.circuits[j1].external_inputs_len,
            &self.state.i,
        )
    }

    /// The next state.
    fn next_state(&self, inp: &SuperInput) -> (z: Vec<Fr>)
        requires
            self.wf(),
        ensures
            z@ == self.next_z(self.state@, inp@),
    {
        let mut z: Vec<Fr> = Vec::new();
        z.push(chain(&self.poseidon_config, &self.state.z_i[0], &inp.cm_f));
        z.push(inp.next_part2.hash(&self.poseidon_config));
        assert(z@ =~= self.next_z(self.state@, inp@));
        z
    }

    /// The running instances and witnesses after the step, and the commitment to the
    /// cross term.
    fn fold_running(&self) -> (r: Result<(CommittedInstanceFoldPotSuper, WitnessFoldPotSuper, G1), Error>)
        requires
            self.wf(),
        ensures
            r is Ok <==> self.cm_t(self.state@) is Some,
            r matches Ok(f) ==> {
                &&& f.0@ == self.next_u(self.state@)
                &&& wit_views(f.1.vec_wit@) == self.next_w(self.state@)
                &&& Some(f.2) == self.cm_t(self.state@)
            },
            r matches Err(e) ==> e@ == ErrorView::CommitmentFail,
    {
        let (mut next_u, next_w, r, cm_t) = match self.gen_next_folded() {
            Err(e) => { return Err(e); },
            Ok(f) => f,
        };
        next_u.pc_i = self.pc_i1;
        next_u.x_1 = self.state.run_u.x_1.plus(&r.times(&self.state.u_i.x[1]));
        next_u.x_2 = if self.b_full_mode {
            match &self.state.run_u.x_2 {
                Some(x) => Some(x.plus(&r.times(&self.state.u_i.x[2]))),
                None => None,
            }
        } else {
            None
        };
        assert(next_u@ =~= self.next_u(self.state@));
        Ok((next_u, next_w, cm_t))
    }

    /// The first public value that the augmented circuit has to give.
    fn expected_x(&self, inp: &SuperInput, next_u: &CommittedInstanceFoldPotSuper, z_i1: &Vec<Fr>) -> (x: Fr)
        requires
            self.wf(),
            next_u@ == self.next_u(self.state@),
            z_i1@ == self.next_z(self.state@, inp@),
        ensures
            x == self.next_x(self.state@, inp@),
    {
        let sponge = Sponge::new(&self.poseidon_config);
        let zero = Fr::zero();
        let one = Fr::one();
        if self.state.i.same(&zero) {
            let x_len: usize = if self.b_full_mode { 3 } else { 2 };
            let mut dummy = CommittedInstanceFoldPotSuper::dummy(x_len, self.circuits.len(), self.b_full_mode);
            dummy.pc_i = self.pc_i1;
            dummy.hash(&sponge, &self.pp_hash, &one, &self.pc_i1, &self.z_0, z_i1)
        } else {
            let next_i = self.state.i.plus(&one);
            next_u.hash(&sponge, &self.pp_hash, &next_i, &self.pc_i1, &self.z_0, z_i1)
        }
    }

    /// Whether the augmented circuit's public values are `x0` and the digests of the
    /// running CycleFold and CyclePair instances.
    fn check_values(&self, inp: &SuperInput, x0: &Fr) -> (b: bool)
        requires
            self.wf(),
            self.input_wf(inp@),
        ensures
            b == {
                &&& inp.x@[0] == *x0
                &&& inp.x@[1] == self.state@.cf_u.hash_cyclefold(self.sponge(), self.pp_hash)
                &&& self.b_full_mode ==> inp.x@[2] == self.state@.cp_u->0.hash_cyclefold(
                    self.sponge(),
                    self.pp_hash,
                )
            },
    {
        let sponge = Sponge::new(&self.poseidon_config);
        let x1 = self.state.cf_u.hash_cyclefold(&sponge, &self.pp_hash);
        if !inp.x[0].same(x0) || !inp.x[1].same(&x1) {
            return false;
        }
        if self.b_full_mode {
            match &self.state.cp_u {
                Some(u) => {
                    let x2 = u.hash_cyclefold(&sponge, &self.pp_hash);
                    inp.x[2].same(&x2)
                },
                None => true,
            }
        } else {
            true
        }
    }

    /// Takes a step with the circuit `pc_i1`: the incoming instance is folded into
    /// the running one of the last step's circuit, the folds of its commitments are
    /// folded into the running CycleFold instance, the pairing of the step into the
    /// running CyclePair instance, and the augmented circuit's assignment becomes the
    /// incoming witness.
    ///
    /// A step that fails late has left its traces in the state: the CycleFold and
    /// CyclePair instances where the public values are not the expected ones, and all
    /// but the instances where the new witness cannot be committed to.
    #[verifier::rlimit(40)]
    pub fn prove_step(&mut self, inp: &SuperInput) -> (r: Result<(), Error>)
        requires
            old(self).wf(),
            old(self).input_wf(inp@),
            old(self).state.z_i@[1] == old(self).state@.zi_part2_inst.hash(old(self).poseidon_config@),
        ensures
            final(self).same_setup(*old(self)),
            (final(self).state@, outcome(r)) == old(self).step_spec(old(self).state@, inp@),
            r is Ok ==> final(self).wf(),
            r is Ok ==> final(self).state.z_i@[1] == final(self).state@.zi_part2_inst.hash(
                final(self).poseidon_config@,
            ),
    {
        let ghost st = self.state@;
        let ghost before = *self;
        match self.check_step(inp) {
            Some(e) => { return Err(e); },
            None => {},
        }
        let z_i1 = self.next_state(inp);
        let (next_u, next_w, cm_t) = match self.fold_running() {
            Err(e) => { return Err(e); },
            Ok(f) => f,
        };
        let x0 = self.expected_x(inp, &next_u, &z_i1);
        let zero = Fr::zero();
        if !self.state.i.same(&zero) {
            match self.fold_pairs(inp, &cm_t, &next_u) {
                Err(e) => { return Err(e); },
                Ok(_) => {},
            }
        }
        assert(self.state@ == before.pairs_stepped(st, inp@));
        if !self.check_values(inp, &x0) {
            assert(!before.values_match(st, inp@));
            return Err(Error::NotEqual);
        }
        assert(before.values_match(st, inp@));
        self.install(inp, z_i1, next_u, next_w, Ghost(before))
    }

    /// Puts what a step computed into the state.
    fn install(
        &mut self,
        inp: &SuperInput,
        z_i1: Vec<Fr>,
        next_u: CommittedInstanceFoldPotSuper,
        next_w: WitnessFoldPotSuper,
        before: Ghost<FoldPotSuper<CS1, CS2>>,
    ) -> (r: Result<(), Error>)
        requires
            before@.wf(),
            old(self).wf(),
            old(self).input_wf(inp@),
            old(self).same_setup(before@),
            old(self).state@ == before@.pairs_stepped(before@.state@, inp@),
            z_i1@ == before@.next_z(before@.state@, inp@),
            next_u@ == before@.next_u(before@.state@),
            wit_views(next_w.vec_wit@) == before@.next_w(before@.state@),
            before@.early_error(before@.state@, inp@) is None,
            before@.cm_t(before@.state@) is Some,
            before@.state.i != f_zero::<Fr>() ==> before@.cf_folds(before@.state@, inp@) is Ok,
            before@.state.i != f_zero::<Fr>() && before@.b_full_mode ==> before@.cp_fold(before@.state@, inp@) is Ok,
            before@.values_match(before@.state@, inp@),
        ensures
            final(self).same_setup(before@),
            (final(self).state@, outcome(r)) == before@.step_spec(before@.state@, inp@),
            r is Ok ==> final(self).wf(),
            r is Ok ==> final(self).state.z_i@[1] == final(self).state@.zi_part2_inst.hash(
                final(self).poseidon_config@,
            ),
    {
        let ghost st = before@.state@;
        let j1 = field_to_usize(&self.pc_i1);
        let one = Fr::one();
        assert(self.circuits@[j1 as int].wf(self.x_len()));
        self.state.i = self.state.i.plus(&one);
        self.state.z_i = z_i1;
        self.state.zi_part2_inst = inp.next_part2.dup();
        self.state.w_i = WitnessFoldPot::new(
            &inp.w,
            self.circuits[j1].r1cs.a.n_rows,
            self.hiding,
            &inp.blinds,
            self.circuits[j1].size_f,
            self.circuits[j1].start_f,
        );
        assert(self.state@ =~= before@.stepped(st, inp@));
        let u_i = match self.state.w_i.commit(&self.circuits[j1].cs_pp, &inp.x) {
            None => { return Err(Error::CommitmentFail); },
            Some(u) => u,
        };
        self.state.u_i = u_i;
        self.state.run_w = next_w;
        self.state.run_u = next_u;
        self.state.pc_i = self.pc_i1;
        assert(self.state@ =~= before@.step_spec(st, inp@).0);
        proof {
            assert forall|k: int| 0 <= k < self.circuits@.len() implies {
                &&& (#[trigger] self.state@.run_w[k]).w.len() == self.circuits@[k].w_len()
                &&& self.state@.run_w[k].e.len() == self.circuits@[k].r1cs.a.n_rows
                &&& self.state@.run_u.insts[k].x.len() == self.x_len()
            } by {
                assert(st.run_w[k].w.len() == self.circuits@[k].w_len());
            }
        }
        Ok(())
    }

    /// Folds the CycleFold circuits and, where pairings are folded too, the CyclePair
    /// circuit of a step.
    fn fold_pairs(
        &mut self,
        inp: &SuperInput,
        cm_t: &G1,
        next_u: &CommittedInstanceFoldPotSuper,
    ) -> (r: Result<(), Error>)
        requires
            old(self).wf(),
            old(self).input_wf(inp@),
            old(self).cm_t(old(self).state@) == Some(*cm_t),
            next_u@ == old(self).next_u(old(self).state@),
            old(self).state.i != f_zero::<Fr>(),
        ensures
            final(self).same_setup(*old(self)),
            outcome(r) == (if old(self).cf_folds(old(self).state@, inp@) is Err {
                Err::<(), ErrorView>(old(self).cf_folds(old(self).state@, inp@)->Err_0)
            } else if old(self).b_full_mode && old(self).cp_fold(old(self).state@, inp@) is Err {
                Err::<(), ErrorView>(old(self).cp_fold(old(self).state@, inp@)->Err_0)
            } else {
                Ok::<(), ErrorView>(())
            }),
            r is Ok ==> {
                &&& final(self).state@ == old(self).pairs_stepped(old(self).state@, inp@)
                &&& final(self).wf()
            },
            r is Err ==> final(self).state@ == old(self).state@,
    {
        let ghost st = self.state@;
        let j = field_to_usize(&self.state.pc_i);
        let mut transcript = Sponge::new(&self.poseidon_config);
        let bits = ChallengeGadgetFoldPotSuper::get_challenge_native(
            &mut transcript,
            &self.pp_hash,
            &self.state.run_u,
            &self.state.u_i,
            cm_t,
        );
        let r_fq = challenge_to_fq(&bits);
        assert(next_u.vec_inst@.len() == next_u@.insts.len());
        assert(self.state.run_u.vec_inst@.len() == st.run_u.insts.len());
        let run = &self.state.run_u.vec_inst[j];
        let next = &next_u.vec_inst[j];
        assert(next@ == next_u@.insts[j as int]);
        assert(run@ == st.run_u.insts[j as int]);
        assert(next@ == self.next_u_at(st));
        let x_w = cf_public_values(&r_fq, &run.cm_w, &self.state.u_i.cm_w, &next.cm_w);
        let x_e = cf_public_values(&r_fq, &run.cm_e, cm_t, &next.cm_e);
        let x_f = cf_public_values(&r_fq, &run.cm_f, &self.state.u_i.cm_f, &next.cm_f);
        let folds = match self.cf.fold_circuits(
            &mut transcript,
            &self.pp_hash,
            &self.state.cf_w,
            &self.state.cf_u,
            &x_w,
            &x_e,
            &x_f,
            &inp.cf,
        ) {
            Err(e) => { return Err(e); },
            Ok(f) => f,
        };
        if self.b_full_mode {
            match (&self.state.cp_w, &self.state.cp_u, &inp.next_part2.cyclepair_input) {
                (Some(cp_w), Some(cp_u), Some(input)) => {
                    let x = cyclepair_values(input);
                    let circuit = CyclePairCircuit::from_vec_fq(&x);
                    let fold = match fold_cyclepair_circuit(
                        &self.cp,
                        &mut transcript,
                        &self.pp_hash,
                        cp_w,
                        cp_u,
                        &x,
                        &circuit,
                        &inp.cp,
                    ) {
                        Err(e) => { return Err(e); },
                        Ok(f) => f,
                    };
                    self.state.cp_w = Some(fold.witness);
                    self.state.cp_u = Some(fold.instance);
                },
                _ => {},
            }
        }
        self.state.cf_w = folds.f.witness;
        self.state.cf_u = folds.f.instance;
        assert(self.state@ =~= old(self).pairs_stepped(st, inp@));
        Ok(())
    }
}

/// The digest that `sha3::Sha3_256` computes of the given bytes.
pub uninterp spec fn sha3_256(bytes: Seq<u8>) -> Seq<u8>;

/// `sha3`'s `Sha3_256::digest`. The digest has 32 bytes.
#[verifier::external_body]
fn sha3_digest(bytes: &Vec<u8>) -> (r: Vec<u8>)
    ensures
        r@ == sha3_256(bytes@),
        r@.len() == 32,
{
    sha3::Sha3_256::digest(bytes).to_vec()
}

/// What the verifier of a computation with several step circuits knows.
pub struct VerifierParamsFoldPotSuper {
    /// What there is to know of each circuit.
    pub vec_vp: Vec<VerifierParamsFoldPot>,
    /// The CyclePair circuit's system, where pairings are folded too.
    pub cp_r1cs: Option<R1CS<Fq>>,
}

/// The digests of the circuits' parameters.
pub open spec fn vp_hashes(v: Seq<VerifierParamsFoldPot>) -> Seq<Fr> {
    v.map_values(|vp: VerifierParamsFoldPot| vp.pp_hash)
}

/// The bytes of the elements behind each other, 32 for each, least significant
/// first.
pub open spec fn hashes_bytes(v: Seq<Fr>) -> Seq<u8> {
    crate::sigma_cyclepair::elements_bytes(v)
}

/// What the checks of the first `n` running witnesses return: the first error.
pub open spec fn relaxed_checks(
    vps: Seq<VerifierParamsFoldPot>,
    wits: Seq<WitnessFoldPotView>,
    insts: Seq<InstanceView>,
    n: nat,
) -> Result<(), ErrorView>
    decreases n,
{
    if n == 0 {
        Ok(())
    } else if relaxed_checks(vps, wits, insts, (n - 1) as nat) is Err {
        relaxed_checks(vps, wits, insts, (n - 1) as nat)
    } else {
        relaxed_check(vps[n - 1].r1cs, wits[n - 1], insts[n - 1])
    }
}

/// What is verified.
pub struct SuperProofView {
    pub run_u: InstanceSuperView,
    pub run_w: Seq<WitnessFoldPotView>,
    pub u_i: InstanceView,
    pub w_i: WitnessFoldPotView,
    pub cf_u: CommittedInstanceView,
    pub cf_w: WitnessView,
    pub cp: Option<(CommittedInstanceView, WitnessView)>,
}

pub open spec fn cp_view(cp: Option<(&CommittedInstance, &Witness)>) -> Option<
    (CommittedInstanceView, WitnessView),
> {
    match cp {
        Some(p) => Some((p.0@, p.1@)),
        None => None,
    }
}

impl VerifierParamsFoldPotSuper {
    pub open spec fn wf(&self) -> bool {
        &&& self.vec_vp@.len() > 0
        &&& forall|k: int| 0 <= k < self.vec_vp@.len() ==> (#[trigger] self.vec_vp@[k]).wf()
        &&& self.cp_r1cs is Some ==> self.cp_r1cs->0.wf()
    }

    /// The digest of all parameters.
    pub open spec fn pp_hash_spec(&self) -> Fr {
        Fr::of(le_value(sha3_256(hashes_bytes(vp_hashes(self.vec_vp@)))) % fr_modulus())
    }

    /// The digest of all parameters: that of the circuits' digests.
    pub fn pp_hash(&self) -> (h: Fr)
        ensures
            h == self.pp_hash_spec(),
    {
        let ghost hashes = vp_hashes(self.vec_vp@);
        let mut bytes: Vec<u8> = Vec::new();
        let mut i: usize = 0;
        assert(hashes.take(0) =~= Seq::empty());
        while i < self.vec_vp.len()
            invariant
                i <= self.vec_vp@.len(),
                hashes == vp_hashes(self.vec_vp@),
                bytes@ == hashes_bytes(hashes.take(i as int)),
            decreases self.vec_vp.len() - i,
        {
            let b = ark_to_bytes_le(self.vec_vp[i].pp_hash.limbs());
            proof {
                lemma_le_digits(b@);
            }
            crate::vecs::push_all(&mut bytes, &b);
            assert(hashes.take(i + 1).drop_last() =~= hashes.take(i as int));
            i = i + 1;
        }
        assert(hashes.take(i as int) =~= hashes);
        let d = sha3_digest(&bytes);
        ark_from_le_bytes_mod_order(&d)
    }

    /// Whether what is to be verified has the shape of the parameters.
    pub open spec fn fits(&self, p: SuperProofView) -> bool {
        &&& p.run_u.pc_i.val() < p.run_u.insts.len()
        &&& p.run_u.insts.len() <= self.vec_vp@.len()
        &&& p.run_u.insts.len() <= p.run_w.len()
        &&& p.cp is Some ==> p.run_u.x_2 is Some && self.cp_r1cs is Some
    }

    /// What the verification returns.
    pub open spec fn verify_spec(&self, z_0: Seq<Fr>, z_i: Seq<Fr>, num_steps: Fr, p: SuperProofView) -> Result<
        (),
        ErrorView,
    > {
        let sponge = SpongeView::fresh(self.vec_vp@[0].poseidon_config@);
        let pp_hash = self.pp_hash_spec();
        let j = p.run_u.pc_i.val() as int;
        let n = p.run_u.insts.len();
        let x_len: nat = if p.run_u.x_2 is Some { 3 } else { 2 };
        if num_steps == f_zero::<Fr>() {
            if z_0 == z_i {
                Ok(())
            } else {
                Err(ErrorView::IVCVerificationFail)
            }
        } else if p.u_i.x.len() != x_len || p.run_u.insts[j].x.len() != x_len {
            Err(ErrorView::IVCVerificationFail)
        } else if p.run_u.hash(sponge, pp_hash, num_steps, p.run_u.pc_i, z_0, z_i) != p.u_i.x[0] {
            Err(ErrorView::IVCVerificationFail)
        } else if p.cf_u.hash_cyclefold(sponge, pp_hash) != p.u_i.x[1] {
            Err(ErrorView::IVCVerificationFail)
        } else if p.u_i.cm_e != G1::Infinity || p.u_i.u != f_one::<Fr>() {
            Err(ErrorView::IVCVerificationFail)
        } else if strict_check(self.vec_vp@[j].r1cs, p.w_i, p.u_i) is Err {
            strict_check(self.vec_vp@[j].r1cs, p.w_i, p.u_i)
        } else if relaxed_checks(self.vec_vp@, p.run_w, p.run_u.insts, n) is Err {
            relaxed_checks(self.vec_vp@, p.run_w, p.run_u.insts, n)
        } else if pair_check(self.vec_vp@[0].cf_r1cs, p.cf_w, p.cf_u) is Err {
            pair_check(self.vec_vp@[0].cf_r1cs, p.cf_w, p.cf_u)
        } else {
            match p.cp {
                None => Ok(()),
                Some(cp) => if cp.0.hash_cyclefold(sponge, pp_hash) != p.u_i.x[2] {
                    Err(ErrorView::IVCVerificationFail)
                } else {
                    pair_check(self.cp_r1cs->0, cp.1, cp.0)
                },
            }
        }
    }

    /// Verifies a computation of `num_steps` steps from `z_0` to `z_i`. The
    /// commitments are not opened.
    pub fn verify(
        &self,
        z_0: &Vec<Fr>,
        z_i: &Vec<Fr>,
        num_steps: &Fr,
        running_instance: (&CommittedInstanceFoldPotSuper, &WitnessFoldPotSuper),
        incoming_instance: (&CommittedInstanceFoldPot, &WitnessFoldPot),
        cyclefold_instance: (&CommittedInstance, &Witness),
        cyclepair_instance: Option<(&CommittedInstance, &Witness)>,
    ) -> (r: Result<(), Error>)
        requires
            self.wf(),
            *num_steps != f_zero::<Fr>() ==> self.fits(
                SuperProofView {
                    run_u: running_instance.0@,
                    run_w: wit_views(running_instance.1.vec_wit@),
                    u_i: incoming_instance.0@,
                    w_i: incoming_instance.1@,
                    cf_u: cyclefold_instance.0@,
                    cf_w: cyclefold_instance.1@,
                    cp: cp_view(cyclepair_instance),
                },
            ),
        ensures
            outcome(r) == self.verify_spec(
                z_0@,
                z_i@,
                *num_steps,
                SuperProofView {
                    run_u: running_instance.0@,
                    run_w: wit_views(running_instance.1.vec_wit@),
                    u_i: incoming_instance.0@,
                    w_i: incoming_instance.1@,
                    cf_u: cyclefold_instance.0@,
                    cf_w: cyclefold_instance.1@,
                    cp: cp_view(cyclepair_instance),
                },
            ),
    {
        assert(self.vec_vp@[0].wf());
        let sponge = Sponge::new(&self.vec_vp[0].poseidon_config);
        let zero = Fr::zero();
        let one = Fr::one();
        if num_steps.same(&zero) {
            if same_elements(z_0, z_i) {
                return Ok(());
            }
            return Err(Error::IVCVerificationFail);
        }
        let (run_u, run_w) = running_instance;
        let (u_i, w_i) = incoming_instance;
        let (cf_u, cf_w) = cyclefold_instance;
        assert(run_u.vec_inst@.len() == run_u@.insts.len());
        assert(run_w.vec_wit@.len() == wit_views(run_w.vec_wit@).len());
        let n = run_u.vec_inst.len();
        let j = field_to_usize(&run_u.pc_i);
        let x_len: usize = if run_u.x_2.is_some() { 3 } else { 2 };
        if u_i.x.len() != x_len || run_u.vec_inst[j].x.len() != x_len {
            return Err(Error::IVCVerificationFail);
        }
        let pp_hash = self.pp_hash();
        let expected_x = run_u.hash(&sponge, &pp_hash, num_steps, &run_u.pc_i, z_0, z_i);
        if !expected_x.same(&u_i.x[0]) {
            return Err(Error::IVCVerificationFail);
        }
        let expected_cf_x = cf_u.hash_cyclefold(&sponge, &pp_hash);
        if !expected_cf_x.same(&u_i.x[1]) {
            return Err(Error::IVCVerificationFail);
        }
        if u_i.cm_e != G1::Infinity || !u_i.u.same(&one) {
            return Err(Error::IVCVerificationFail);
        }
        assert(self.vec_vp@[j as int].wf());
        match check_instance_relation(&self.vec_vp[j].r1cs, w_i, u_i) {
            Err(e) => { return Err(e); },
            Ok(_) => {},
        }
        match self.check_running(run_w, run_u, n) {
            Err(e) => { return Err(e); },
            Ok(_) => {},
        }
        match check_pair_relation(&self.vec_vp[0].cf_r1cs, cf_w, cf_u) {
            Err(e) => { return Err(e); },
            Ok(_) => {},
        }
        match (cyclepair_instance, &self.cp_r1cs) {
            (Some((cp_u, cp_w)), Some(cp_r1cs)) => {
                let expected_cp_x = cp_u.hash_cyclefold(&sponge, &pp_hash);
                if !expected_cp_x.same(&u_i.x[2]) {
                    return Err(Error::IVCVerificationFail);
                }
                check_pair_relation(cp_r1cs, cp_w, cp_u)
            },
            _ => Ok(()),
        }
    }

    /// Checks the first `n` running witnesses.
    fn check_running(&self, run_w: &WitnessFoldPotSuper, run_u: &CommittedInstanceFoldPotSuper, n: usize) -> (r:
        Result<(), Error>)
        requires
            self.wf(),
            n <= self.vec_vp@.len(),
            n <= run_w.vec_wit@.len(),
            n <= run_u.vec_inst@.len(),
        ensures
            outcome(r) == relaxed_checks(self.vec_vp@, wit_views(run_w.vec_wit@), run_u@.insts, n as nat),
    {
        let mut i: usize = 0;
        while i < n
            invariant
                i <= n,
                self.wf(),
                n <= self.vec_vp@.len(),
                n <= run_w.vec_wit@.len(),
                n <= run_u.vec_inst@.len(),
                relaxed_checks(self.vec_vp@, wit_views(run_w.vec_wit@), run_u@.insts, i as nat) is Ok,
            decreases n - i,
        {
            assert(self.vec_vp@[i as int].wf());
            match check_relaxed_instance_relation(&self.vec_vp[i].r1cs, &run_w.vec_wit[i], &run_u.vec_inst[i]) {
                Err(e) => {
                    proof {
                        lemma_first_error(
                            self.vec_vp@,
                            wit_views(run_w.vec_wit@),
                            run_u@.insts,
                            (i + 1) as nat,
                            n as nat,
                        );
                    }
                    return Err(e);
                },
                Ok(_) => {},
            }
            i = i + 1;
        }
        Ok(())
    }
}

/// An error of the first checks is that of all.
proof fn lemma_first_error(
    vps: Seq<VerifierParamsFoldPot>,
    wits: Seq<WitnessFoldPotView>,
    insts: Seq<InstanceView>,
    k: nat,
    n: nat,
)
    requires
        k <= n,
        relaxed_checks(vps, wits, insts, k) is Err,
    ensures
        relaxed_checks(vps, wits, insts, n) == relaxed_checks(vps, wits, insts, k),
    decreases n,
{
    if k < n {
        lemma_first_error(vps, wits, insts, k, (n - 1) as nat);
    }
}

} // verus!
