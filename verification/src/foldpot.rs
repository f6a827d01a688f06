//! Incrementally verifiable computation with one step circuit.
use vstd::prelude::*;
use crate::bigint::bits_value;
use crate::circuits::cf_public_values;
use crate::circuits::cf_x;
use crate::circuits::challenge_to_fr;
use crate::circuits::StepValuesView;
use crate::circuits::CF_IO_LEN;
use crate::commitment::CommitmentScheme;
use crate::curve::Grumpkin;
use crate::curve::G1;
use crate::cyclefold::pair_relaxed;
use crate::cyclefold::pair_strict;
use crate::cyclefold::CycleAssignments;
use crate::cyclefold::CycleAssignmentsView;
use crate::cyclefold::CycleFoldsView;
use crate::cyclefold::CyclePublic;
use crate::cyclefold::PairContext;
use crate::cyclefold::PairState;
use crate::error::outcome;
use crate::error::Error;
use crate::error::ErrorView;
use crate::field::canonical;
use crate::field::f_add;
use crate::field::f_one;
use crate::field::f_zero;
use crate::field::Field;
use crate::field::FieldModel;
use crate::field_fq::Fq;
use crate::field_fr::Fr;
use crate::instance::check_instance_relation;
use crate::instance::check_relaxed_instance_relation;
use crate::instance::dummy_instance_foldpot;
use crate::instance::dummy_possible;
use crate::instance::relaxed_check;
use crate::instance::strict_check;
use crate::instance::Blinds;
use crate::instance::CommittedInstanceFoldPot;
use crate::instance::InstanceView;
use crate::instance::WitnessFoldPot;
use crate::instance::WitnessFoldPotView;
use crate::limbs::g1_absorbed;
use crate::nifs::step_cross_term;
use crate::nifs::step_transcript;
use crate::nifs::step_transcript_after;
use crate::nifs::ChallengeGadgetFoldPot;
use crate::nifs::NIFSFoldPot;
use crate::nova::challenge_to_fq;
use crate::nova::fq_challenge;
use crate::nova::CommittedInstance;
use crate::nova::CommittedInstanceView;
use crate::nova::Witness;
use crate::nova::WitnessView;
use crate::part_two::chain;
use crate::part_two::chained;
use crate::part_two::compute_step_hc;
use crate::part_two::PartTwoView;
use crate::part_two::ZiPartTwoInst;
use crate::r1cs::R1CS;
use crate::sponge::PoseidonConfig;
use crate::sponge::Sponge;
use crate::sponge::SpongeView;
use crate::sponge::N_BITS_RO;
use crate::vecs::copy_of;
use crate::vecs::same_elements;

verus! {

/// Where the fixed memory starts in a witness of the augmented circuit: behind the
/// parameters' digest, the step, the two states of two elements each, the four
/// elements of the fixed memory's commitment and two more.
pub const START_F: usize = 12;

/// What a step changes.
#[derive(Debug)]
pub struct StepState {
    /// The number of steps taken.
    pub i: Fr,
    /// The current state.
    pub z_i: Vec<Fr>,
    /// What the current state's second element is the digest of.
    pub zi_part2_inst: ZiPartTwoInst,
    /// The incoming witness and instance.
    pub w_i: WitnessFoldPot,
    pub u_i: CommittedInstanceFoldPot,
    /// The running witness and instance.
    pub run_w: WitnessFoldPot,
    pub run_u: CommittedInstanceFoldPot,
    /// The running CycleFold witness and instance.
    pub cf_w: Witness,
    pub cf_u: CommittedInstance,
}

#[verifier::ext_equal]
pub struct StepStateView {
    pub i: Fr,
    pub z_i: Seq<Fr>,
    pub zi_part2_inst: PartTwoView,
    pub w_i: WitnessFoldPotView,
    pub u_i: InstanceView,
    pub run_w: WitnessFoldPotView,
    pub run_u: InstanceView,
    pub cf_w: WitnessView,
    pub cf_u: CommittedInstanceView,
}

impl View for StepState {
    type V = StepStateView;

    open spec fn view(&self) -> StepStateView {
        StepStateView {
            i: self.i,
            z_i: self.z_i@,
            zi_part2_inst: self.zi_part2_inst@,
            w_i: self.w_i@,
            u_i: self.u_i@,
            run_w: self.run_w@,
            run_u: self.run_u@,
            cf_w: self.cf_w@,
            cf_u: self.cf_u@,
        }
    }
}

/// What a step is given: the external inputs, what the step circuit's witness
/// generation gives, the assignments that the synthesis of the circuits gives, and
/// blinding values.
#[derive(Debug)]
pub struct StepInput {
    pub external_inputs: Vec<Fr>,
    /// Whether further instances were given to fold.
    pub other_instances: bool,
    /// What is absorbed of the commitment to the step's fixed memory.
    pub cm_f: Vec<Fr>,
    /// What the next state's second element is the digest of.
    pub next_part2: ZiPartTwoInst,
    /// The augmented circuit's assignment: the secret and the public values.
    pub w: Vec<Fr>,
    pub x: Vec<Fr>,
    pub blinds: Blinds,
    /// The CycleFold circuits' assignments.
    pub cf: CycleAssignments,
}

pub struct StepInputView {
    pub external_inputs: Seq<Fr>,
    pub other_instances: bool,
    pub cm_f: Seq<Fr>,
    pub next_part2: PartTwoView,
    pub w: Seq<Fr>,
    pub x: Seq<Fr>,
    pub blinds: Blinds,
    pub cf: CycleAssignmentsView,
}

impl View for StepInput {
    type V = StepInputView;

    open spec fn view(&self) -> StepInputView {
        StepInputView {
            external_inputs: self.external_inputs@,
            other_instances: self.other_instances,
            cm_f: self.cm_f@,
            next_part2: self.next_part2@,
            w: self.w@,
            x: self.x@,
            blinds: self.blinds,
            cf: self.cf@,
        }
    }
}

/// An incremental computation with one step circuit.
pub struct FoldPot<CS1: CommitmentScheme<Fr, G1>, CS2: CommitmentScheme<Fq, Grumpkin>> {
    /// The augmented step circuit's system.
    pub r1cs: R1CS<Fr>,
    pub poseidon_config: PoseidonConfig,
    pub cs_pp: CS1,
    /// Whether the commitments are blinded.
    pub hiding: bool,
    /// The CycleFold circuit's system and commitment scheme.
    pub cf: PairContext<CS2>,
    /// How many elements a state of the step circuit has.
    pub state_len: usize,
    /// How many external inputs the step circuit takes.
    pub external_inputs_len: usize,
    /// The digest of the parameters.
    pub pp_hash: Fr,
    /// The first state.
    pub z_0: Vec<Fr>,
    /// Where in the witness the fixed memory is.
    pub size_f: usize,
    pub start_f: usize,
    pub state: StepState,
}

/// The blinding values that are zero though the commitments are to be blinded, none
/// in the first step. In the second step those of the running witness still are zero
/// and do not count.
pub open spec fn blinding_error(
    hiding: bool,
    i: Fr,
    w_i: WitnessFoldPotView,
    run_w: WitnessFoldPotView,
) -> Option<ErrorView> {
    let values = if i == f_one::<Fr>() {
        seq![w_i.r_w, w_i.r_e]
    } else {
        seq![w_i.r_w, w_i.r_e, run_w.r_w, run_w.r_e]
    };
    if hiding && i.val() >= 1 && values.contains(f_zero::<Fr>()) {
        Some(ErrorView::IncorrectBlinding(true, values))
    } else {
        None
    }
}

/// Whether a value of the vector is zero.
fn contains_zero(v: &Vec<Fr>) -> (b: bool)
    ensures
        b == v@.contains(f_zero::<Fr>()),
{
    let zero = Fr::zero();
    let mut k: usize = 0;
    while k < v.len()
        invariant
            k <= v@.len(),
            zero == f_zero::<Fr>(),
            forall|j: int| 0 <= j < k ==> v@[j] != zero,
        decreases v.len() - k,
    {
        if v[k].same(&zero) {
            assert(v@[k as int] == zero);
            return true;
        }
        k = k + 1;
    }
    false
}

/// Checks the blinding values.
pub fn check_blinding(hiding: bool, i: &Fr, w_i: &WitnessFoldPot, run_w: &WitnessFoldPot) -> (r: Option<Error>)
    ensures
        opt_error(r) == blinding_error(hiding, *i, w_i@, run_w@),
{
    let one = Fr::one();
    proof {
        crate::field::lemma_units::<Fr>();
        if i.val() == 0 {
            i.lemma_of_val();
        }
    }
    if !hiding || i.less(&one) {
        return None;
    }
    let mut values: Vec<Fr> = Vec::new();
    values.push(w_i.r_w);
    values.push(w_i.r_e);
    if !i.same(&one) {
        values.push(run_w.r_w);
        values.push(run_w.r_e);
    }
    assert(values@ =~= (if *i == f_one::<Fr>() {
        seq![w_i.r_w, w_i.r_e]
    } else {
        seq![w_i.r_w, w_i.r_e, run_w.r_w, run_w.r_e]
    }));
    if contains_zero(&values) {
        Some(Error::IncorrectBlinding(true, values))
    } else {
        None
    }
}

pub open spec fn opt_error(r: Option<Error>) -> Option<ErrorView> {
    match r {
        Some(e) => Some(e@),
        None => None,
    }
}

/// What is wrong with a step's input, before anything is computed.
pub open spec fn input_error(
    other_instances: bool,
    z_len: nat,
    state_len: nat,
    inputs_len: nat,
    external_inputs_len: nat,
    i: Fr,
) -> Option<ErrorView> {
    if other_instances {
        Some(ErrorView::NoMultiInstances)
    } else if z_len != state_len {
        Some(ErrorView::NotSameLength("z_i.len()"@, z_len as usize, "F.state_len()"@, state_len as usize))
    } else if inputs_len != external_inputs_len {
        Some(
            ErrorView::NotSameLength(
                "F.external_inputs_len()"@,
                external_inputs_len as usize,
                "external_inputs.len()"@,
                inputs_len as usize,
            ),
        )
    } else if i.val() > usize::MAX {
        Some(ErrorView::MaxStep)
    } else {
        None
    }
}

/// Checks a step's input.
pub fn check_input(
    other_instances: bool,
    z_len: usize,
    state_len: usize,
    inputs_len: usize,
    external_inputs_len: usize,
    i: &Fr,
) -> (r: Option<Error>)
    ensures
        opt_error(r) == input_error(
            other_instances,
            z_len as nat,
            state_len as nat,
            inputs_len as nat,
            external_inputs_len as nat,
            *i,
        ),
{
    if other_instances {
        return Some(Error::NoMultiInstances);
    }
    if z_len != state_len {
        return Some(
            Error::NotSameLength("z_i.len()".to_owned(), z_len, "F.state_len()".to_owned(), state_len),
        );
    }
    if inputs_len != external_inputs_len {
        return Some(
            Error::NotSameLength(
                "F.external_inputs_len()".to_owned(),
                external_inputs_len,
                "external_inputs.len()".to_owned(),
                inputs_len,
            ),
        );
    }
    let limit = Fr::from_u64(usize::MAX as u64);
    if limit.less(i) {
        return Some(Error::MaxStep);
    }
    None
}

impl<CS1: CommitmentScheme<Fr, G1>, CS2: CommitmentScheme<Fq, Grumpkin>> FoldPot<CS1, CS2> {
    /// Whether everything but the state is the same.
    pub open spec fn same_setup(&self, other: FoldPot<CS1, CS2>) -> bool {
        *self == (FoldPot { state: self.state, ..other })
    }

    /// Whether the sizes fit together.
    pub open spec fn setup_wf(&self) -> bool {
        &&& self.r1cs.wf()
        &&& self.r1cs.l == 2
        &&& self.cf.r1cs.wf()
        &&& self.cf.r1cs.l == CF_IO_LEN
        &&& self.poseidon_config@.wf()
        &&& dummy_possible(self.r1cs, self.size_f as nat, self.start_f as nat)
    }

    /// How many secret values a witness of the augmented circuit has.
    pub open spec fn w_len(&self) -> nat {
        (self.r1cs.a.n_cols - 1 - self.r1cs.l) as nat
    }

    /// How many secret values a witness of the CycleFold circuit has.
    pub open spec fn cf_w_len(&self) -> nat {
        (self.cf.r1cs.a.n_cols - 1 - self.cf.r1cs.l) as nat
    }

    /// Whether the sizes in a state are those of the systems.
    pub open spec fn state_wf(&self, st: StepStateView) -> bool {
        &&& st.z_i.len() == 2
        &&& st.w_i.w.len() == self.w_len()
        &&& st.u_i.x.len() == 2
        &&& st.run_w.w.len() == self.w_len()
        &&& st.run_w.e.len() == self.r1cs.a.n_rows
        &&& st.run_u.x.len() == 2
        &&& self.cf_state(st).wf(self.cf.r1cs)
    }

    /// Whether the sizes in a step's input are those of the systems.
    pub open spec fn input_wf(&self, inp: StepInputView) -> bool {
        &&& inp.w.len() == self.w_len()
        &&& inp.x.len() == 2
        &&& inp.cf.wf(self.cf_w_len())
    }

    pub open spec fn wf(&self) -> bool {
        self.setup_wf() && self.state_wf(self.state@)
    }

    pub open spec fn sponge(&self) -> SpongeView {
        SpongeView::fresh(self.poseidon_config@)
    }

    /// The cross term of the incoming and the running witness.
    pub open spec fn cross(&self, st: StepStateView) -> Seq<Fr> {
        step_cross_term(self.r1cs, st.w_i, st.u_i, st.run_w, st.run_u)
    }

    /// The commitment to the cross term.
    pub open spec fn cm_t(&self, st: StepStateView) -> Option<G1> {
        self.cs_pp.commit_spec(self.cross(st), f_zero::<Fr>())
    }

    /// The bits of the challenge.
    pub open spec fn r_bits(&self, st: StepStateView) -> Seq<bool> {
        step_transcript(
            self.sponge(),
            self.pp_hash,
            st.run_u.absorbed(),
            st.u_i.absorbed(),
            self.cm_t(st)->0,
        ).output_bits(N_BITS_RO as nat)
    }

    /// The challenge.
    pub open spec fn r(&self, st: StepStateView) -> Fr {
        Fr::of(bits_value(self.r_bits(st)))
    }

    /// The running witness after the step.
    pub open spec fn next_w(&self, st: StepStateView) -> WitnessFoldPotView {
        st.run_w.folded(self.r(st), st.w_i, self.cross(st))
    }

    /// The running instance after the step.
    pub open spec fn next_u(&self, st: StepStateView) -> InstanceView {
        st.run_u.folded(self.r(st), st.u_i, self.cm_t(st)->0)
    }

    /// The next state: the next link of the chain of the fixed memories' digests,
    /// and the digest of the second part.
    pub open spec fn next_z(&self, st: StepStateView, inp: StepInputView) -> Seq<Fr> {
        seq![
            chained(self.poseidon_config@, st.z_i[0], inp.cm_f),
            inp.next_part2.hash(self.poseidon_config@),
        ]
    }

    /// The first public value that the augmented circuit has to give.
    pub open spec fn next_x(&self, st: StepStateView, inp: StepInputView) -> Fr {
        self.next_u(st).hash(
            self.sponge(),
            self.pp_hash,
            f_add(st.i, f_one::<Fr>()),
            self.z_0@,
            self.next_z(st, inp),
        )
    }

    /// The running CycleFold witness and instance, with the transcript after the
    /// step's challenge.
    pub open spec fn cf_state(&self, st: StepStateView) -> PairState {
        PairState {
            witness: st.cf_w,
            instance: st.cf_u,
            transcript: step_transcript_after(
                self.sponge(),
                self.pp_hash,
                st.run_u.absorbed(),
                st.u_i.absorbed(),
                self.cm_t(st)->0,
            ),
        }
    }

    /// The public values of the CycleFold circuits.
    pub open spec fn cf_public(&self, st: StepStateView) -> CyclePublic {
        let r = fq_challenge(self.r_bits(st));
        let next = self.next_u(st);
        CyclePublic {
            w: cf_x(r, st.run_u.cm_w, st.u_i.cm_w, next.cm_w),
            e: cf_x(r, st.run_u.cm_e, self.cm_t(st)->0, next.cm_e),
            f: cf_x(r, st.run_u.cm_f, st.u_i.cm_f, next.cm_f),
        }
    }

    /// What the folds of the CycleFold circuits give.
    pub open spec fn cf_folds(&self, st: StepStateView, inp: StepInputView) -> Result<CycleFoldsView, ErrorView> {
        self.cf.folds_spec(self.pp_hash, self.cf_state(st), self.cf_public(st), inp.cf)
    }

    /// The state with the CycleFold parts of the step: none in the first step.
    pub open spec fn cf_stepped(&self, st: StepStateView, inp: StepInputView) -> StepStateView {
        if st.i == f_zero::<Fr>() {
            st
        } else {
            StepStateView {
                cf_w: self.cf_folds(st, inp)->Ok_0.f.witness,
                cf_u: self.cf_folds(st, inp)->Ok_0.f.instance,
                ..st
            }
        }
    }

    /// The state with all but the instances of the step.
    pub open spec fn stepped(&self, st: StepStateView, inp: StepInputView) -> StepStateView {
        StepStateView {
            i: f_add(st.i, f_one::<Fr>()),
            z_i: self.next_z(st, inp),
            zi_part2_inst: inp.next_part2,
            w_i: WitnessFoldPotView::new(
                inp.w,
                self.r1cs.a.n_rows as nat,
                self.hiding,
                inp.blinds,
                self.size_f as nat,
                self.start_f as nat,
            ),
            ..self.cf_stepped(st, inp)
        }
    }

    /// The state after a step, and what the step returns.
    pub open spec fn step_spec(&self, st: StepStateView, inp: StepInputView) -> (
        StepStateView,
        Result<(), ErrorView>,
    ) {
        let blinding = blinding_error(self.hiding, st.i, st.w_i, st.run_w);
        let input = input_error(
            inp.other_instances,
            st.z_i.len(),
            self.state_len as nat,
            inp.external_inputs.len(),
            self.external_inputs_len as nat,
            st.i,
        );
        let cf_x = self.cf_stepped(st, inp).cf_u.hash_cyclefold(self.sponge(), self.pp_hash);
        let stepped = self.stepped(st, inp);
        let u_i = stepped.w_i.commit(self.cs_pp, inp.x);
        if blinding is Some {
            (st, Err(blinding->0))
        } else if input is Some {
            (st, Err(input->0))
        } else if self.cm_t(st) is None {
            (st, Err(ErrorView::CommitmentFail))
        } else if st.i != f_zero::<Fr>() && self.cf_folds(st, inp) is Err {
            (st, Err(self.cf_folds(st, inp)->Err_0))
        } else if inp.x[0] != self.next_x(st, inp) || inp.x[1] != cf_x {
            (self.cf_stepped(st, inp), Err(ErrorView::NotEqual))
        } else if u_i is None {
            (stepped, Err(ErrorView::CommitmentFail))
        } else {
            (
                StepStateView { u_i: u_i->0, run_w: self.next_w(st), run_u: self.next_u(st), ..stepped },
                Ok(()),
            )
        }
    }

    /// Takes a step: the incoming instance is folded into the running one, the folds
    /// of its commitments are folded into the running CycleFold instance, and the
    /// augmented circuit's assignment becomes the incoming witness.
    ///
    /// A step that fails late has left its traces in the state: the CycleFold
    /// instance where the public values are not the expected ones, and all but the
    /// instances where the new witness cannot be committed to.
    pub fn prove_step(&mut self, inp: &StepInput) -> (r: Result<(), Error>)
        requires
            old(self).wf(),
            old(self).input_wf(inp@),
            old(self).state.z_i@[1] == old(self).state@.zi_part2_inst.hash(old(self).poseidon_config@),
        ensures
            final(self).same_setup(*old(self)),
            (final(self).state@, outcome(r)) == old(self).step_spec(old(self).state@, inp@),
            final(self).wf(),
            r is Ok ==> final(self).state.z_i@[1] == final(self).state@.zi_part2_inst.hash(
                final(self).poseidon_config@,
            ),
    {
        let ghost st = self.state@;
        match check_blinding(self.hiding, &self.state.i, &self.state.w_i, &self.state.run_w) {
            Some(e) => { return Err(e); },
            None => {},
        }
        match check_input(
            inp.other_instances,
            self.state.z_i.len(),
            self.state_len,
            inp.external_inputs.len(),
            self.external_inputs_len,
            &self.state.i,
        ) {
            Some(e) => { return Err(e); },
            None => {},
        }
        let sponge = Sponge::new(&self.poseidon_config);
        let mut transcript = Sponge::new(&self.poseidon_config);
        let zero = Fr::zero();
        let one = Fr::one();
        // the next state
        let mut z_i1: Vec<Fr> = Vec::new();
        z_i1.push(chain(&self.poseidon_config, &self.state.z_i[0], &inp.cm_f));
        z_i1.push(inp.next_part2.hash(&self.poseidon_config));
        assert(z_i1@ =~= self.next_z(st, inp@));
        // the fold
        let (t, cm_t) = self.compute_cmT();
        let cm_t = match cm_t {
            None => { return Err(Error::CommitmentFail); },
            Some(p) => p,
        };
        let bits = ChallengeGadgetFoldPot::get_challenge_native(
            &mut transcript,
            &self.pp_hash,
            &self.state.run_u,
            &self.state.u_i,
            &cm_t,
        );
        let r = challenge_to_fr(&bits);
        let r_fq = challenge_to_fq(&bits);
        let (next_w, next_u) = NIFSFoldPot::fold_instances(
            &r,
            &self.state.run_w,
            &self.state.run_u,
            &self.state.w_i,
            &self.state.u_i,
            &t,
            &cm_t,
        );
        let next_i = self.state.i.plus(&one);
        let x0 = next_u.hash(&sponge, &self.pp_hash, &next_i, &self.z_0, &z_i1);
        // the CycleFold circuits
        let x1: Fr;
        if self.state.i.same(&zero) {
            x1 = self.state.cf_u.hash_cyclefold(&sponge, &self.pp_hash);
        } else {
            let x_w = cf_public_values(&r_fq, &self.state.run_u.cm_w, &self.state.u_i.cm_w, &next_u.cm_w);
            let x_e = cf_public_values(&r_fq, &self.state.run_u.cm_e, &cm_t, &next_u.cm_e);
            let x_f = cf_public_values(&r_fq, &self.state.run_u.cm_f, &self.state.u_i.cm_f, &next_u.cm_f);
            let folds = match self.cf.fold_circuits(
                &mut transcript,
                &self.pp_hash,
                &self.state.cf_w,
                &self.state.cf_u,
                &x_w,
                &x_e,
                &x_f,
                &inp.cf,
            ) {
                Err(e) => { return Err(e); },
                Ok(f) => f,
            };
            x1 = folds.f.instance.hash_cyclefold(&sponge, &self.pp_hash);
            self.state.cf_w = folds.f.witness;
            self.state.cf_u = folds.f.instance;
        }
        assert(self.state@ =~= self.cf_stepped(st, inp@));
        if !inp.x[0].same(&x0) || !inp.x[1].same(&x1) {
            return Err(Error::NotEqual);
        }
        // what the next step finds
        self.state.i = next_i;
        self.state.z_i = z_i1;
        self.state.zi_part2_inst = inp.next_part2.dup();
        self.state.w_i = WitnessFoldPot::new(
            &inp.w,
            self.r1cs.a.n_rows,
            self.hiding,
            &inp.blinds,
            self.size_f,
            self.start_f,
        );
        assert(self.state@ =~= self.stepped(st, inp@));
        let u_i = match self.state.w_i.commit(&self.cs_pp, &inp.x) {
            None => { return Err(Error::CommitmentFail); },
            Some(u) => u,
        };
        self.state.u_i = u_i;
        self.state.run_w = next_w;
        self.state.run_u = next_u;
        Ok(())
    }

    /// The cross term of the incoming and the running witness, and its commitment.
    #[allow(non_snake_case)]
    pub fn compute_cmT(&self) -> (r: (Vec<Fr>, Option<G1>))
        requires
            self.wf(),
        ensures
            r.0@ == self.cross(self.state@),
            r.1 == self.cm_t(self.state@),
    {
        NIFSFoldPot::compute_cmT(
            &self.cs_pp,
            &self.r1cs,
            &self.state.w_i,
            &self.state.u_i,
            &self.state.run_w,
            &self.state.run_u,
        )
    }
}

/// What the verifier of an incremental computation knows.
pub struct VerifierParamsFoldPot {
    pub poseidon_config: PoseidonConfig,
    /// The augmented step circuit's system.
    pub r1cs: R1CS<Fr>,
    /// The CycleFold circuit's system.
    pub cf_r1cs: R1CS<Fq>,
    /// The digest of the parameters.
    pub pp_hash: Fr,
}

/// What the check of a relaxed witness on the second curve returns.
pub open spec fn pair_check(r1cs: R1CS<Fq>, w: WitnessView, u: CommittedInstanceView) -> Result<(), ErrorView> {
    r1cs.check_spec(w.e, u.u, R1CS::assignment(u.u, u.x, w.w))
}

/// Checks that a witness on the second curve satisfies the relaxed system.
pub fn check_pair_relation(r1cs: &R1CS<Fq>, w: &Witness, u: &CommittedInstance) -> (r: Result<(), Error>)
    requires
        r1cs.wf(),
    ensures
        outcome(r) == pair_check(*r1cs, w@, u@),
{
    let z = R1CS::assemble(&u.u, &u.x, &w.w);
    r1cs.check_relaxed(&w.e, &u.u, &z)
}

impl VerifierParamsFoldPot {
    pub open spec fn wf(&self) -> bool {
        self.poseidon_config@.wf() && self.r1cs.wf() && self.cf_r1cs.wf()
    }

    /// What the verification returns.
    pub open spec fn verify_spec(
        &self,
        z_0: Seq<Fr>,
        z_i: Seq<Fr>,
        num_steps: Fr,
        run_u: InstanceView,
        run_w: WitnessFoldPotView,
        u_i: InstanceView,
        w_i: WitnessFoldPotView,
        cf_u: CommittedInstanceView,
        cf_w: WitnessView,
    ) -> Result<(), ErrorView> {
        let sponge = SpongeView::fresh(self.poseidon_config@);
        if num_steps == f_zero::<Fr>() {
            if z_0 == z_i {
                Ok(())
            } else {
                Err(ErrorView::IVCVerificationFail)
            }
        } else if u_i.x.len() != 2 || run_u.x.len() != 2 {
            Err(ErrorView::IVCVerificationFail)
        } else if run_u.hash(sponge, self.pp_hash, num_steps, z_0, z_i) != u_i.x[0] {
            Err(ErrorView::IVCVerificationFail)
        } else if cf_u.hash_cyclefold(sponge, self.pp_hash) != u_i.x[1] {
            Err(ErrorView::IVCVerificationFail)
        } else if u_i.cm_e != G1::Infinity || u_i.u != f_one::<Fr>() {
            Err(ErrorView::IVCVerificationFail)
        } else if strict_check(self.r1cs, w_i, u_i) is Err {
            strict_check(self.r1cs, w_i, u_i)
        } else if relaxed_check(self.r1cs, run_w, run_u) is Err {
            relaxed_check(self.r1cs, run_w, run_u)
        } else {
            pair_check(self.cf_r1cs, cf_w, cf_u)
        }
    }

    /// Verifies a computation of `num_steps` steps from `z_0` to `z_i`. The
    /// commitments are not opened.
    pub fn verify(
        &self,
        z_0: &Vec<Fr>,
        z_i: &Vec<Fr>,
        num_steps: &Fr,
        running_instance: (&CommittedInstanceFoldPot, &WitnessFoldPot),
        incoming_instance: (&CommittedInstanceFoldPot, &WitnessFoldPot),
        cyclefold_instance: (&CommittedInstance, &Witness),
    ) -> (r: Result<(), Error>)
        requires
            self.wf(),
        ensures
            outcome(r) == self.verify_spec(
                z_0@,
                z_i@,
                *num_steps,
                running_instance.0@,
                running_instance.1@,
                incoming_instance.0@,
                incoming_instance.1@,
                cyclefold_instance.0@,
                cyclefold_instance.1@,
            ),
    {
        let sponge = Sponge::new(&self.poseidon_config);
        let zero = Fr::zero();
        let one = Fr::one();
        if num_steps.same(&zero) {
            if same_elements(z_0, z_i) {
                return Ok(());
            }
            return Err(Error::IVCVerificationFail);
        }
        let (run_u, run_w) = running_instance;
        let (u_i, w_i) = incoming_instance;
        let (cf_u, cf_w) = cyclefold_instance;
        if u_i.x.len() != 2 || run_u.x.len() != 2 {
            return Err(Error::IVCVerificationFail);
        }
        let expected_x = run_u.hash(&sponge, &self.pp_hash, num_steps, z_0, z_i);
        if !expected_x.same(&u_i.x[0]) {
            return Err(Error::IVCVerificationFail);
        }
        let expected_cf_x = cf_u.hash_cyclefold(&sponge, &self.pp_hash);
        if !expected_cf_x.same(&u_i.x[1]) {
            return Err(Error::IVCVerificationFail);
        }
        if u_i.cm_e != G1::Infinity || !u_i.u.same(&one) {
            return Err(Error::IVCVerificationFail);
        }
        match check_instance_relation(&self.r1cs, w_i, u_i) {
            Err(e) => { return Err(e); },
            Ok(_) => {},
        }
        match check_relaxed_instance_relation(&self.r1cs, run_w, run_u) {
            Err(e) => { return Err(e); },
            Ok(_) => {},
        }
        check_pair_relation(&self.cf_r1cs, cf_w, cf_u)
    }
}

impl<CS1: CommitmentScheme<Fr, G1>, CS2: CommitmentScheme<Fq, Grumpkin>> FoldPot<CS1, CS2> {
    /// The state before the first step.
    pub open spec fn first_state(
        r1cs: R1CS<Fr>,
        cf_r1cs: R1CS<Fq>,
        size_f: nat,
        start_f: nat,
        z_0: Seq<Fr>,
        part2: PartTwoView,
    ) -> StepStateView {
        let w = WitnessFoldPotView::dummy(
            (r1cs.a.n_cols - 1 - r1cs.l) as nat,
            r1cs.a.n_rows as nat,
            size_f,
            start_f,
        );
        StepStateView {
            i: f_zero::<Fr>(),
            z_i: z_0,
            zi_part2_inst: part2,
            w_i: w,
            u_i: InstanceView::dummy(r1cs.l as nat),
            run_w: w,
            run_u: InstanceView::dummy(r1cs.l as nat),
            cf_w: WitnessView::dummy(
                (cf_r1cs.a.n_cols - 1 - cf_r1cs.l) as nat,
                cf_r1cs.a.n_rows as nat,
            ),
            cf_u: CommittedInstanceView::dummy(cf_r1cs.l as nat),
        }
    }

    /// The computation before its first step. The first state `z_0` holds the last
    /// link of the chain of the fixed memories' digests, known from a first pass,
    /// and the digest of its second part.
    pub fn init(
        prover: ProverParamsFoldPot<CS1, CS2>,
        r1cs: R1CS<Fr>,
        state_len: usize,
        external_inputs_len: usize,
        pp_hash: &Fr,
        z_0: &Vec<Fr>,
        z0_part2_inst: &ZiPartTwoInst,
    ) -> (r: FoldPot<CS1, CS2>)
        requires
            prover.poseidon_config@.wf(),
            r1cs.wf(),
            r1cs.l == 2,
            prover.cf.r1cs.wf(),
            prover.cf.r1cs.l == CF_IO_LEN,
            dummy_possible(r1cs, prover.size_f as nat, prover.start_f as nat),
            z_0@.len() == 2,
            z_0@[1] == z0_part2_inst@.hash(prover.poseidon_config@),
        ensures
            r.r1cs == r1cs,
            r.poseidon_config == prover.poseidon_config,
            r.cs_pp == prover.cs_pp,
            r.hiding == prover.hiding,
            r.cf == prover.cf,
            r.state_len == state_len,
            r.external_inputs_len == external_inputs_len,
            r.pp_hash == *pp_hash,
            r.z_0@ == z_0@,
            r.size_f == prover.size_f,
            r.start_f == prover.start_f,
            r.state@ == FoldPot::<CS1, CS2>::first_state(
                r1cs,
                prover.cf.r1cs,
                prover.size_f as nat,
                prover.start_f as nat,
                z_0@,
                z0_part2_inst@,
            ),
            r.wf(),
    {
        let (run_w, run_u) = dummy_instance_foldpot(&r1cs, prover.size_f, prover.start_f);
        let cf_w_len: usize = prover.cf.r1cs.a.n_cols - 1 - prover.cf.r1cs.l;
        let state = StepState {
            i: Fr::zero(),
            z_i: copy_of(z_0),
            zi_part2_inst: z0_part2_inst.dup(),
            w_i: run_w.dup(),
            u_i: run_u.dup(),
            run_w,
            run_u,
            cf_w: Witness::dummy(cf_w_len, prover.cf.r1cs.a.n_rows),
            cf_u: CommittedInstance::dummy(prover.cf.r1cs.l),
        };
        FoldPot {
            r1cs,
            poseidon_config: prover.poseidon_config,
            cs_pp: prover.cs_pp,
            hiding: prover.hiding,
            cf: prover.cf,
            state_len,
            external_inputs_len,
            pp_hash: *pp_hash,
            z_0: copy_of(z_0),
            size_f: prover.size_f,
            start_f: prover.start_f,
            state,
        }
    }

    /// The current state.
    pub fn state(&self) -> (z: Vec<Fr>)
        ensures
            z@ == self.state.z_i@,
    {
        copy_of(&self.state.z_i)
    }

    /// The running, the incoming and the CycleFold instance, each with its witness.
    pub fn instances(&self) -> (r: (
        (&CommittedInstanceFoldPot, &WitnessFoldPot),
        (&CommittedInstanceFoldPot, &WitnessFoldPot),
        (&CommittedInstance, &Witness),
    ))
        ensures
            r.0.0@ == self.state@.run_u,
            r.0.1@ == self.state@.run_w,
            r.1.0@ == self.state@.u_i,
            r.1.1@ == self.state@.w_i,
            r.2.0@ == self.state@.cf_u,
            r.2.1@ == self.state@.cf_w,
    {
        (
            (&self.state.run_u, &self.state.run_w),
            (&self.state.u_i, &self.state.w_i),
            (&self.state.cf_u, &self.state.cf_w),
        )
    }

    /// The next link of the chain of the fixed memories' digests.
    #[allow(non_snake_case)]
    pub fn compute_step_hc_cmF(&self, hc_cm_f: &Fr, cm_f: &G1) -> (r: Fr)
        requires
            self.poseidon_config@.wf(),
        ensures
            r == chained(self.poseidon_config@, *hc_cm_f, g1_absorbed(*cm_f)),
    {
        compute_step_hc(&self.poseidon_config, hc_cm_f, cm_f)
    }
}

/// What preprocessing is given: the keys where they exist already, the size of the
/// lookup table and where the fixed memory is.
pub struct PreprocessorParamFoldPot<CS1: CommitmentScheme<Fr, G1>, CS2: CommitmentScheme<Fq, Grumpkin>> {
    pub poseidon_config: PoseidonConfig,
    pub hiding: bool,
    pub cs_pp: Option<CS1>,
    pub cf_cs_pp: Option<CS2>,
    pub lk_size: usize,
    pub size_f: usize,
    pub start_f: usize,
}

/// What the prover of an incremental computation knows.
pub struct ProverParamsFoldPot<CS1: CommitmentScheme<Fr, G1>, CS2: CommitmentScheme<Fq, Grumpkin>> {
    pub poseidon_config: PoseidonConfig,
    pub hiding: bool,
    pub cs_pp: CS1,
    /// The CycleFold circuit's system and commitment scheme.
    pub cf: PairContext<CS2>,
    pub size_f: usize,
    pub start_f: usize,
    /// How long a vector the key on the first curve has to commit to.
    pub cs_pp_len: usize,
}

/// How long vectors the key on the first curve has to commit to: the witness, and
/// the lookup table with one element more.
pub open spec fn key_len(n_cols: nat, lk_size: nat) -> nat {
    if n_cols >= lk_size + 1 {
        n_cols
    } else {
        lk_size + 1
    }
}

impl<CS1: CommitmentScheme<Fr, G1>, CS2: CommitmentScheme<Fq, Grumpkin>> PreprocessorParamFoldPot<CS1, CS2> {
    /// No keys exist yet, and the fixed memory is at its usual place.
    pub fn new(poseidon_config: &PoseidonConfig, hiding: bool, lk_size: usize, size_f: usize) -> (r:
        PreprocessorParamFoldPot<CS1, CS2>)
        ensures
            r.poseidon_config@ == poseidon_config@,
            r.hiding == hiding,
            r.cs_pp is None,
            r.cf_cs_pp is None,
            r.lk_size == lk_size,
            r.size_f == size_f,
            r.start_f == START_F,
    {
        PreprocessorParamFoldPot {
            poseidon_config: poseidon_config.clone(),
            hiding,
            cs_pp: None,
            cf_cs_pp: None,
            lk_size,
            size_f,
            start_f: START_F,
        }
    }

    /// How long vectors the keys have to commit to, on the first and on the second
    /// curve.
    pub fn key_lengths(&self, r1cs: &R1CS<Fr>, cf_r1cs: &R1CS<Fq>) -> (r: (usize, usize))
        requires
            self.lk_size < usize::MAX,
        ensures
            r.0 == key_len(r1cs.a.n_cols as nat, self.lk_size as nat),
            r.1 == cf_r1cs.a.n_rows,
    {
        let n: usize = self.lk_size + 1;
        (if r1cs.a.n_cols >= n { r1cs.a.n_cols } else { n }, cf_r1cs.a.n_rows)
    }

    /// The prover's parameters. The keys `fresh`, made for the lengths that
    /// `key_lengths` tells, are taken unless keys for both curves exist already.
    pub fn preprocess(self, r1cs: &R1CS<Fr>, cf_r1cs: R1CS<Fq>, fresh: (CS1, CS2)) -> (r: ProverParamsFoldPot<
        CS1,
        CS2,
    >)
        requires
            self.lk_size < usize::MAX,
        ensures
            r.poseidon_config == self.poseidon_config,
            r.hiding == self.hiding,
            r.cf.hiding == self.hiding,
            r.cf.r1cs == cf_r1cs,
            r.size_f == self.size_f,
            r.start_f == self.start_f,
            r.cs_pp_len == key_len(r1cs.a.n_cols as nat, self.lk_size as nat),
            (r.cs_pp, r.cf.cs) == (if self.cs_pp is Some && self.cf_cs_pp is Some {
                (self.cs_pp->0, self.cf_cs_pp->0)
            } else {
                fresh
            }),
    {
        let (cs_pp_len, _cf_len) = self.key_lengths(r1cs, &cf_r1cs);
        let (cs_pp, cf_cs_pp) = match (self.cs_pp, self.cf_cs_pp) {
            (Some(a), Some(b)) => (a, b),
            _ => fresh,
        };
        ProverParamsFoldPot {
            poseidon_config: self.poseidon_config,
            hiding: self.hiding,
            cs_pp,
            cf: PairContext { r1cs: cf_r1cs, cs: cf_cs_pp, hiding: self.hiding },
            size_f: self.size_f,
            start_f: self.start_f,
            cs_pp_len,
        }
    }
}

impl<CS1: CommitmentScheme<Fr, G1>, CS2: CommitmentScheme<Fq, Grumpkin>> FoldPot<CS1, CS2> {
    /// Whether the witnesses satisfy the systems: the running ones the relaxed
    /// systems, the incoming one the system with its own `u` and without an error.
    pub open spec fn sound(&self, st: StepStateView) -> bool {
        &&& self.state_wf(st)
        &&& canonical(st.cf_u.u)
        &&& relaxed_check(self.r1cs, st.run_w, st.run_u) is Ok
        &&& self.r1cs.check_spec(
            crate::vecs::repeated(f_zero::<Fr>(), self.r1cs.a.n_rows as nat),
            st.u_i.u,
            st.w_i.assignment(st.u_i),
        ) is Ok
        &&& pair_relaxed(self.cf, st.cf_w, st.cf_u)
    }

    /// What the verifier knows of this computation.
    pub open spec fn accepted_by(&self, vp: VerifierParamsFoldPot, st: StepStateView) -> bool {
        &&& vp.poseidon_config == self.poseidon_config
        &&& vp.r1cs == self.r1cs
        &&& vp.cf_r1cs == self.cf.r1cs
        &&& vp.pp_hash == self.pp_hash
        &&& vp.verify_spec(
            self.z_0@,
            st.z_i,
            st.i,
            st.run_u,
            st.run_w,
            st.u_i,
            st.w_i,
            st.cf_u,
            st.cf_w,
        ) is Ok
    }

    /// Whether the assignments of a step satisfy their circuits' systems.
    pub open spec fn honest(&self, st: StepStateView, inp: StepInputView) -> bool {
        let x = self.cf_public(st);
        &&& self.r1cs.check_spec(
            crate::vecs::repeated(f_zero::<Fr>(), self.r1cs.a.n_rows as nat),
            f_one::<Fr>(),
            R1CS::assignment(f_one::<Fr>(), inp.x, inp.w),
        ) is Ok
        &&& st.i != f_zero::<Fr>() ==> {
            &&& pair_strict(self.cf, x.w, inp.cf.w.w)
            &&& pair_strict(self.cf, x.e, inp.cf.e.w)
            &&& pair_strict(self.cf, x.f, inp.cf.f.w)
        }
    }

    /// The values of a step as the augmented circuit takes them.
    pub open spec fn circuit_values(&self, st: StepStateView, inp: StepInputView) -> StepValuesView {
        let folds = self.cf_folds(st, inp)->Ok_0;
        let next = self.next_u(st);
        StepValuesView {
            pp_hash: self.pp_hash,
            i: st.i,
            z_0: self.z_0@,
            z_i: st.z_i,
            running: st.run_u,
            u_cm_w: st.u_i.cm_w,
            u_cm_f: st.u_i.cm_f,
            next_cm_e: next.cm_e,
            next_cm_w: next.cm_w,
            next_cm_f: next.cm_f,
            cm_t: self.cm_t(st)->0,
            cf_running: st.cf_u,
            cf1_cm_w: folds.w.incoming.cm_w,
            cf2_cm_w: folds.e.incoming.cm_w,
            cf3_cm_w: folds.f.incoming.cm_w,
            cf1_cm_t: folds.w.cm_t,
            cf2_cm_t: folds.e.cm_t,
            cf3_cm_t: folds.f.cm_t,
        }
    }
}

/// A vector of zeros satisfies every system relaxed by zero.
pub proof fn lemma_zeros_satisfy<F: Field>(r1cs: R1CS<F>, z: Seq<F>)
    requires
        r1cs.wf(),
        z == crate::vecs::repeated(f_zero::<F>(), r1cs.a.n_cols as nat),
    ensures
        r1cs.check_spec(
            crate::vecs::repeated(f_zero::<F>(), r1cs.a.n_rows as nat),
            f_zero::<F>(),
            z,
        ) is Ok,
{
    let e = crate::vecs::repeated(f_zero::<F>(), r1cs.a.n_rows as nat);
    assert forall|i: int| 0 <= i < r1cs.a.n_rows implies #[trigger] r1cs.relaxed_at(i, e, f_zero::<F>(), z) by {
        lemma_row_dot_zeros(r1cs.a.coeffs@[i]@, z);
        lemma_row_dot_zeros(r1cs.b.coeffs@[i]@, z);
        lemma_row_dot_zeros(r1cs.c.coeffs@[i]@, z);
        crate::field::lemma_mul_zero(f_zero::<F>());
        crate::field::lemma_units::<F>();
        crate::field::lemma_add_zero(f_zero::<F>());
    }
}

pub proof fn lemma_row_dot_zeros<F: Field>(row: Seq<(F, usize)>, z: Seq<F>)
    requires
        forall|i: int| 0 <= i < z.len() ==> z[i] == f_zero::<F>(),
        forall|k: int| 0 <= k < row.len() ==> (#[trigger] row[k]).1 < z.len(),
    ensures
        crate::r1cs::row_dot(row, z) == f_zero::<F>(),
    decreases row.len(),
{
    if row.len() > 0 {
        let short = row.drop_last();
        assert forall|k: int| 0 <= k < short.len() implies (#[trigger] short[k]).1 < z.len() by {
            assert(short[k] == row[k]);
        }
        lemma_row_dot_zeros(short, z);
        assert(row[row.len() - 1].1 < z.len());
        crate::field::lemma_mul_zero(row.last().0);
        crate::field::lemma_units::<F>();
        crate::field::lemma_add_zero(f_zero::<F>());
    }
}

/// Before the first step all witnesses satisfy their systems.
pub proof fn law_first_state_is_sound<CS1: CommitmentScheme<Fr, G1>, CS2: CommitmentScheme<Fq, Grumpkin>>(
    f: FoldPot<CS1, CS2>,
    part2: PartTwoView,
)
    requires
        f.setup_wf(),
        f.z_0@.len() == 2,
    ensures
        f.sound(
            FoldPot::<CS1, CS2>::first_state(
                f.r1cs,
                f.cf.r1cs,
                f.size_f as nat,
                f.start_f as nat,
                f.z_0@,
                part2,
            ),
        ),
{
    let st = FoldPot::<CS1, CS2>::first_state(
        f.r1cs,
        f.cf.r1cs,
        f.size_f as nat,
        f.start_f as nat,
        f.z_0@,
        part2,
    );
    crate::field::lemma_units::<Fq>();
    let z = R1CS::assignment(st.run_u.u, st.run_u.x, st.run_w.w);
    assert(z =~= crate::vecs::repeated(f_zero::<Fr>(), f.r1cs.a.n_cols as nat));
    lemma_zeros_satisfy(f.r1cs, z);
    let cz = R1CS::assignment(st.cf_u.u, st.cf_u.x, st.cf_w.w);
    assert(cz =~= crate::vecs::repeated(f_zero::<Fq>(), f.cf.r1cs.a.n_cols as nat));
    lemma_zeros_satisfy(f.cf.r1cs, cz);
}

/// A step leads from sound states to sound states that the verifier accepts: where
/// all witnesses satisfy their systems, the assignments of the step satisfy theirs
/// and the step succeeds, the verification of the computation after the step
/// succeeds too.
pub proof fn law_step_is_accepted<CS1: CommitmentScheme<Fr, G1>, CS2: CommitmentScheme<Fq, Grumpkin>>(
    f: FoldPot<CS1, CS2>,
    vp: VerifierParamsFoldPot,
    st: StepStateView,
    inp: StepInputView,
)
    requires
        f.setup_wf(),
        f.sound(st),
        f.input_wf(inp),
        f.honest(st, inp),
        vp.poseidon_config == f.poseidon_config,
        vp.r1cs == f.r1cs,
        vp.cf_r1cs == f.cf.r1cs,
        vp.pp_hash == f.pp_hash,
        f.step_spec(st, inp).1 is Ok,
    ensures
        f.sound(f.step_spec(st, inp).0),
        f.accepted_by(vp, f.step_spec(st, inp).0),
{
    let next = f.step_spec(st, inp).0;
    let r = f.r(st);
    crate::nifs::law_folded_witness_satisfies_folded_instance(
        f.r1cs,
        st.run_w,
        st.run_u,
        st.w_i,
        st.u_i,
        r,
        f.cm_t(st)->0,
    );
    let stepped = f.stepped(st, inp);
    let u_i = stepped.w_i.commit(f.cs_pp, inp.x)->0;
    assert(crate::nova::all_zero(stepped.w_i.e));
    if st.i != f_zero::<Fr>() {
        let x = f.cf_public(st);
        let s0 = f.cf_state(st);
        let folds = f.cf_folds(st, inp)->Ok_0;
        crate::cyclefold::law_pair_fold_keeps_satisfaction(f.cf, f.pp_hash, s0, x.w, inp.cf.w);
        let s1 = f.cf.after(f.pp_hash, s0, folds.w);
        crate::cyclefold::law_pair_fold_keeps_satisfaction(f.cf, f.pp_hash, s1, x.e, inp.cf.e);
        let s2 = f.cf.after(f.pp_hash, s1, folds.e);
        crate::cyclefold::law_pair_fold_keeps_satisfaction(f.cf, f.pp_hash, s2, x.f, inp.cf.f);
    }
    // the step counter has not wrapped around
    assert(next.i != f_zero::<Fr>()) by {
        crate::field::lemma_units::<Fr>();
        crate::field::lemma_op_values(st.i, f_one::<Fr>());
        Fr::lemma_modulus();
        assert(crate::field_fr::fr_modulus() > 0x1_0000_0000_0000_0000);
        vstd::arithmetic::div_mod::lemma_small_mod((st.i.val() + 1) as nat, crate::field_fr::fr_modulus());
    }
}

/// The prover and the augmented circuit agree: behind the first step, where the
/// incoming instance is not relaxed and its public values are the digests of the
/// running instances, the circuit computes from the step's values the very public
/// values that the prover expects.
pub proof fn law_circuit_gives_expected_values<CS1: CommitmentScheme<Fr, G1>, CS2: CommitmentScheme<Fq, Grumpkin>>(
    f: FoldPot<CS1, CS2>,
    st: StepStateView,
    inp: StepInputView,
)
    requires
        st.i != f_zero::<Fr>(),
        st.u_i == f.circuit_values(st, inp).incoming(f.sponge()),
        f.cf_folds(st, inp) is Ok,
    ensures
        f.circuit_values(st, inp).x_out(f.sponge(), f.next_z(st, inp)) == f.next_x(st, inp),
        f.circuit_values(st, inp).cf_x_out(f.sponge()) == f.cf_stepped(st, inp).cf_u.hash_cyclefold(
            f.sponge(),
            f.pp_hash,
        ),
{
    let v = f.circuit_values(st, inp);
    let x = f.cf_public(st);
    let s0 = f.cf_state(st);
    let folds = f.cf_folds(st, inp)->Ok_0;
    assert(v.next(f.sponge()) =~= f.next_u(st));
    crate::cyclefold::law_pair_fold_matches_circuit(f.cf, f.pp_hash, s0, x.w, inp.cf.w);
    let s1 = f.cf.after(f.pp_hash, s0, folds.w);
    crate::cyclefold::law_pair_fold_matches_circuit(f.cf, f.pp_hash, s1, x.e, inp.cf.e);
    let s2 = f.cf.after(f.pp_hash, s1, folds.e);
    crate::cyclefold::law_pair_fold_matches_circuit(f.cf, f.pp_hash, s2, x.f, inp.cf.f);
}

/// The chain of digests that a first pass computes is the one that the steps build:
/// the state's first element after a step is the next link for the commitment to the
/// step's fixed memory.
pub proof fn law_state_continues_chain<CS1: CommitmentScheme<Fr, G1>, CS2: CommitmentScheme<Fq, Grumpkin>>(
    f: FoldPot<CS1, CS2>,
    st: StepStateView,
    inp: StepInputView,
    cm_f: G1,
)
    requires
        inp.cm_f == g1_absorbed(cm_f),
        f.step_spec(st, inp).1 is Ok,
    ensures
        f.step_spec(st, inp).0.z_i[0] == chained(f.poseidon_config@, st.z_i[0], g1_absorbed(cm_f)),
{
}

/// How many constraints the augmented and the CycleFold circuit's systems have.
pub fn get_cs_params_len(r1cs: &R1CS<Fr>, cf_r1cs: &R1CS<Fq>) -> (r: (usize, usize))
    ensures
        r == (r1cs.a.n_rows, cf_r1cs.a.n_rows),
{
    (r1cs.a.n_rows, cf_r1cs.a.n_rows)
}

} // verus!
