//! The augmented step circuit: what it asks of the values of one step, and the two
//! public values that it gives.
use vstd::prelude::*;
use crate::bigint::bits_value;
use crate::curve::Grumpkin;
use crate::curve::G1;
use crate::error::Error;
use crate::error::ErrorView;
use crate::field::f_add;
use crate::field::f_one;
use crate::field::f_zero;
use crate::field::Field;
use crate::field::FieldModel;
use crate::field_fq::Fq;
use crate::field_fr::fr_modulus;
use crate::field_fr::Fr;
use crate::instance::CommittedInstanceFoldPot;
use crate::instance::InstanceView;
use crate::limbs::fr_from_bits;
use crate::nifs::step_transcript;
use crate::nifs::step_transcript_after;
use crate::nifs::ChallengeGadgetFoldPot;
use crate::nifs::CommittedInstanceVarFoldPot;
use crate::nifs::NIFSGadgetFoldPot;
use crate::nova::challenge_to_fq;
use crate::nova::fold_pair_instances;
use crate::nova::fq_challenge;
use crate::nova::pair_challenge;
use crate::nova::pair_transcript;
use crate::nova::CommittedInstance;
use crate::nova::CommittedInstanceView;
use crate::sponge::PoseidonConfig;
use crate::sponge::Sponge;
use crate::sponge::SpongeView;
use crate::sponge::N_BITS_RO;
use crate::vecs::copy_of;
use crate::vecs::filled;
use crate::vecs::repeated;

verus! {

/// How many points a CycleFold circuit folds.
pub const FOLDPOT_CF_N_POINTS: usize = 2;

/// How many public values a CycleFold circuit for two points has: the challenge and
/// the coordinates of the two points and of their fold.
pub const CF_IO_LEN: usize = 7;

/// The public values of the CycleFold circuit for `c`, the fold of `a` and `b`.
pub open spec fn cf_x(r: Fq, a: G1, b: G1, c: G1) -> Seq<Fq> {
    seq![r, a.xy().0, a.xy().1, b.xy().0, b.xy().1, c.xy().0, c.xy().1]
}

/// The public values of the CycleFold circuit for `c`, the fold of `a` and `b`.
pub fn cf_public_values(r: &Fq, a: &G1, b: &G1, c: &G1) -> (x: Vec<Fq>)
    ensures
        x@ == cf_x(*r, *a, *b, *c),
        x@.len() == CF_IO_LEN,
{
    let (ax, ay) = a.coordinates();
    let (bx, by) = b.coordinates();
    let (cx, cy) = c.coordinates();
    let mut x: Vec<Fq> = Vec::new();
    x.push(*r);
    x.push(ax);
    x.push(ay);
    x.push(bx);
    x.push(by);
    x.push(cx);
    x.push(cy);
    assert(x@ =~= cf_x(*r, *a, *b, *c));
    x
}

/// An instance on the second curve that is not relaxed.
pub open spec fn strict_pair(x: Seq<Fq>, cm_w: Grumpkin) -> CommittedInstanceView {
    CommittedInstanceView { cm_e: Grumpkin::Infinity, u: f_one::<Fq>(), cm_w, x }
}

/// A running instance on the second curve with its transcript.
pub struct PairRun {
    pub instance: CommittedInstanceView,
    pub transcript: SpongeView,
}

impl PairRun {
    /// The run after an incoming instance was folded in.
    pub open spec fn step(self, pp_hash: Fr, incoming: CommittedInstanceView, cm_t: Grumpkin) -> PairRun {
        let t = pair_transcript(
            self.transcript,
            pp_hash,
            self.instance.absorbed(),
            incoming.absorbed(),
            cm_t,
        );
        PairRun {
            instance: self.instance.folded(fq_challenge(t.output_bits(N_BITS_RO as nat)), incoming, cm_t),
            transcript: t.squeezed(SpongeView::elements_for_bits(N_BITS_RO as nat)),
        }
    }
}

/// The values of a step as the circuit takes them.
#[derive(Debug)]
pub struct StepValues {
    pub pp_hash: Fr,
    pub i: Fr,
    pub z_0: Vec<Fr>,
    pub z_i: Vec<Fr>,
    /// The running instance before the step.
    pub running: CommittedInstanceFoldPot,
    /// The commitments of the incoming instance.
    pub u_cm_w: G1,
    pub u_cm_f: G1,
    /// The commitments of the running instance after the step.
    pub next_cm_e: G1,
    pub next_cm_w: G1,
    pub next_cm_f: G1,
    /// The commitment to the cross term.
    pub cm_t: G1,
    /// The running CycleFold instance before the step.
    pub cf_running: CommittedInstance,
    /// The witness commitments of the CycleFold instances for the folds of the
    /// witness, the error and the fixed memory.
    pub cf1_cm_w: Grumpkin,
    pub cf2_cm_w: Grumpkin,
    pub cf3_cm_w: Grumpkin,
    /// The commitments to their cross terms.
    pub cf1_cm_t: Grumpkin,
    pub cf2_cm_t: Grumpkin,
    pub cf3_cm_t: Grumpkin,
}

#[verifier::ext_equal]
pub struct StepValuesView {
    pub pp_hash: Fr,
    pub i: Fr,
    pub z_0: Seq<Fr>,
    pub z_i: Seq<Fr>,
    pub running: InstanceView,
    pub u_cm_w: G1,
    pub u_cm_f: G1,
    pub next_cm_e: G1,
    pub next_cm_w: G1,
    pub next_cm_f: G1,
    pub cm_t: G1,
    pub cf_running: CommittedInstanceView,
    pub cf1_cm_w: Grumpkin,
    pub cf2_cm_w: Grumpkin,
    pub cf3_cm_w: Grumpkin,
    pub cf1_cm_t: Grumpkin,
    pub cf2_cm_t: Grumpkin,
    pub cf3_cm_t: Grumpkin,
}

impl View for StepValues {
    type V = StepValuesView;

    open spec fn view(&self) -> StepValuesView {
        StepValuesView {
            pp_hash: self.pp_hash,
            i: self.i,
            z_0: self.z_0@,
            z_i: self.z_i@,
            running: self.running@,
            u_cm_w: self.u_cm_w,
            u_cm_f: self.u_cm_f,
            next_cm_e: self.next_cm_e,
            next_cm_w: self.next_cm_w,
            next_cm_f: self.next_cm_f,
            cm_t: self.cm_t,
            cf_running: self.cf_running@,
            cf1_cm_w: self.cf1_cm_w,
            cf2_cm_w: self.cf2_cm_w,
            cf3_cm_w: self.cf3_cm_w,
            cf1_cm_t: self.cf1_cm_t,
            cf2_cm_t: self.cf2_cm_t,
            cf3_cm_t: self.cf3_cm_t,
        }
    }
}

impl StepValuesView {
    /// Whether the running instances have as many public values as the circuit
    /// takes.
    pub open spec fn wf(self) -> bool {
        self.running.x.len() == 2 && self.cf_running.x.len() == CF_IO_LEN
    }

    /// The incoming instance: its public values are the digests of the running
    /// instances.
    pub open spec fn incoming(self, sponge: SpongeView) -> InstanceView {
        InstanceView {
            cm_e: G1::Infinity,
            u: f_one::<Fr>(),
            cm_w: self.u_cm_w,
            x: seq![
                self.running.hash(sponge, self.pp_hash, self.i, self.z_0, self.z_i),
                self.cf_running.hash_cyclefold(sponge, self.pp_hash),
            ],
            cm_f: self.u_cm_f,
        }
    }

    /// The bits of the challenge.
    pub open spec fn challenge(self, sponge: SpongeView) -> Seq<bool> {
        step_transcript(
            sponge,
            self.pp_hash,
            self.running.absorbed(),
            self.incoming(sponge).absorbed(),
            self.cm_t,
        ).output_bits(N_BITS_RO as nat)
    }

    /// The running instance after the step.
    pub open spec fn next(self, sponge: SpongeView) -> InstanceView {
        let folded = self.running.folded_public(
            Fr::of(bits_value(self.challenge(sponge))),
            self.incoming(sponge),
        );
        InstanceView { cm_e: self.next_cm_e, cm_w: self.next_cm_w, cm_f: self.next_cm_f, ..folded }
    }

    /// The first public value: the digest of the running instance after the step,
    /// of the dummy instance in the first step.
    pub open spec fn x_out(self, sponge: SpongeView, z_i1: Seq<Fr>) -> Fr {
        if self.i == f_zero::<Fr>() {
            self.x_base(sponge, z_i1)
        } else {
            self.next(sponge).hash(sponge, self.pp_hash, f_add(self.i, f_one::<Fr>()), self.z_0, z_i1)
        }
    }

    /// The first public value of the first step.
    pub open spec fn x_base(self, sponge: SpongeView, z_i1: Seq<Fr>) -> Fr {
        InstanceView::dummy(2).hash(sponge, self.pp_hash, f_one::<Fr>(), self.z_0, z_i1)
    }

    /// The running CycleFold instance after the folds of the witness, the error and
    /// the fixed memory.
    pub open spec fn cf_next(self, sponge: SpongeView) -> PairRun {
        let r = fq_challenge(self.challenge(sponge));
        let start = PairRun {
            instance: self.cf_running,
            transcript: step_transcript_after(
                sponge,
                self.pp_hash,
                self.running.absorbed(),
                self.incoming(sponge).absorbed(),
                self.cm_t,
            ),
        };
        let (u, n) = (self.running, self.next(sponge));
        start.step(
            self.pp_hash,
            strict_pair(cf_x(r, u.cm_w, self.u_cm_w, n.cm_w), self.cf1_cm_w),
            self.cf1_cm_t,
        ).step(
            self.pp_hash,
            strict_pair(cf_x(r, u.cm_e, self.cm_t, n.cm_e), self.cf2_cm_w),
            self.cf2_cm_t,
        ).step(
            self.pp_hash,
            strict_pair(cf_x(r, u.cm_f, self.u_cm_f, n.cm_f), self.cf3_cm_w),
            self.cf3_cm_t,
        )
    }

    /// The second public value: the digest of the running CycleFold instance after
    /// the step, of the dummy instance in the first step.
    pub open spec fn cf_x_out(self, sponge: SpongeView) -> Fr {
        if self.i == f_zero::<Fr>() {
            self.cf_x_base(sponge)
        } else {
            self.cf_next(sponge).instance.hash_cyclefold(sponge, self.pp_hash)
        }
    }

    /// The second public value of the first step.
    pub open spec fn cf_x_base(self, sponge: SpongeView) -> Fr {
        CommittedInstanceView::dummy(CF_IO_LEN as nat).hash_cyclefold(sponge, self.pp_hash)
    }
}

/// A challenge of few bits is below the modulus.
pub fn challenge_to_fr(bits: &Vec<bool>) -> (r: Fr)
    requires
        bits@.len() == N_BITS_RO,
    ensures
        r == Fr::of(bits_value(bits@)),
        bits_value(bits@) < fr_modulus(),
{
    proof {
        crate::bigint::lemma_bits_bound(bits@);
        vstd::arithmetic::power2::lemma_pow2_strictly_increases(128, 220);
        crate::limbs::lemma_powers();
    }
    match fr_from_bits(bits) {
        Some(r) => r,
        None => {
            assert(false);
            Fr::zero()
        },
    }
}

/// Folds an instance that is not relaxed into a running one on the second curve.
pub fn fold_in_circuit(
    transcript: &mut Sponge,
    pp_hash: &Fr,
    running: &CommittedInstance,
    x: Vec<Fq>,
    cm_w: &Grumpkin,
    cm_t: &Grumpkin,
) -> (r: CommittedInstance)
    requires
        old(transcript).wf(),
        running.x@.len() == x@.len(),
    ensures
        ({
            let run = PairRun { instance: running@, transcript: old(transcript)@ }.step(
                *pp_hash,
                strict_pair(x@, *cm_w),
                *cm_t,
            );
            r@ == run.instance && final(transcript)@ == run.transcript
        }),
        r.x@.len() == x@.len(),
{
    let incoming = CommittedInstance { cm_e: Grumpkin::Infinity, u: Fq::one(), cm_w: *cm_w, x };
    let running_elems = running.to_native_sponge_field_elements();
    let incoming_elems = incoming.to_native_sponge_field_elements();
    let bits = pair_challenge(transcript, pp_hash, &running_elems, &incoming_elems, cm_t);
    let r = challenge_to_fq(&bits);
    fold_pair_instances(&r, cm_t, running, &incoming)
}

impl StepValues {
    /// The two public values that the circuit computes from a step's values and the
    /// next state.
    pub fn outputs(&self, config: &PoseidonConfig, z_i1: &Vec<Fr>) -> (r: (Fr, Fr))
        requires
            config@.wf(),
            self@.wf(),
        ensures
            r.0 == self@.x_out(SpongeView::fresh(config@), z_i1@),
            r.1 == self@.cf_x_out(SpongeView::fresh(config@)),
    {
        let sponge = Sponge::new(config);
        let mut transcript = Sponge::new(config);
        let zero = Fr::zero();
        let one = Fr::one();
        // the incoming instance
        let running = CommittedInstanceVarFoldPot::new_variable(&self.running);
        let (u_x, running_elems) = running.hash(&sponge, &self.pp_hash, &self.i, &self.z_0, &self.z_i);
        let cf_u_x = self.cf_running.hash_cyclefold(&sponge, &self.pp_hash);
        let mut x: Vec<Fr> = Vec::new();
        x.push(u_x);
        x.push(cf_u_x);
        let incoming = CommittedInstanceVarFoldPot {
            value: CommittedInstanceFoldPot {
                cm_e: G1::Infinity,
                u: one,
                cm_w: self.u_cm_w,
                x,
                cm_f: self.u_cm_f,
            },
        };
        assert(incoming.value@ =~= self@.incoming(sponge@));
        // the challenge
        let bits = ChallengeGadgetFoldPot::get_challenge_gadget(
            &mut transcript,
            &self.pp_hash,
            &running_elems,
            &incoming,
            &self.cm_t,
        );
        let r = challenge_to_fr(&bits);
        let r_fq = challenge_to_fq(&bits);
        // the fold, and the first public value
        let mut next = NIFSGadgetFoldPot::fold_committed_instance(&r, &running, &incoming);
        next.value.cm_e = self.next_cm_e;
        next.value.cm_w = self.next_cm_w;
        next.value.cm_f = self.next_cm_f;
        assert(next.value@ =~= self@.next(sponge@));
        let next_i = self.i.plus(&one);
        let (next_x, _next_elems) = next.hash(&sponge, &self.pp_hash, &next_i, &self.z_0, z_i1);
        let dummy = CommittedInstanceFoldPot::dummy(2);
        let base_x = dummy.hash(&sponge, &self.pp_hash, &one, &self.z_0, z_i1);
        // the CycleFold instances, and the second public value
        let cf_w_x = cf_public_values(&r_fq, &self.running.cm_w, &self.u_cm_w, &self.next_cm_w);
        let cf_e_x = cf_public_values(&r_fq, &self.running.cm_e, &self.cm_t, &self.next_cm_e);
        let cf_f_x = cf_public_values(&r_fq, &self.running.cm_f, &self.u_cm_f, &self.next_cm_f);
        let cf1 = fold_in_circuit(
            &mut transcript,
            &self.pp_hash,
            &self.cf_running,
            cf_w_x,
            &self.cf1_cm_w,
            &self.cf1_cm_t,
        );
        let cf2 = fold_in_circuit(&mut transcript, &self.pp_hash, &cf1, cf_e_x, &self.cf2_cm_w, &self.cf2_cm_t);
        let cf3 = fold_in_circuit(&mut transcript, &self.pp_hash, &cf2, cf_f_x, &self.cf3_cm_w, &self.cf3_cm_t);
        let next_cf_x = cf3.hash_cyclefold(&sponge, &self.pp_hash);
        let cf_dummy = CommittedInstance::dummy(CF_IO_LEN);
        let base_cf_x = cf_dummy.hash_cyclefold(&sponge, &self.pp_hash);
        if self.i.same(&zero) {
            (base_x, base_cf_x)
        } else {
            (next_x, next_cf_x)
        }
    }
}

/// The augmented step circuit. What is missing stands for zero.
#[derive(Debug)]
pub struct AugmentedFCircuitFoldPot {
    pub poseidon_config: PoseidonConfig,
    /// How many elements a state of the step function has.
    pub state_len: usize,
    pub pp_hash: Option<Fr>,
    pub i: Option<Fr>,
    pub z_0: Option<Vec<Fr>>,
    pub z_i: Option<Vec<Fr>>,
    pub u_i_cm_w: Option<G1>,
    pub u_i_cm_f: Option<G1>,
    pub running: Option<CommittedInstanceFoldPot>,
    pub next_cm_e: Option<G1>,
    pub next_cm_w: Option<G1>,
    pub next_cm_f: Option<G1>,
    pub cm_t: Option<G1>,
    /// The first public value, that of the first step if missing.
    pub x: Option<Fr>,
    pub cf1_u_i_cm_w: Option<Grumpkin>,
    pub cf2_u_i_cm_w: Option<Grumpkin>,
    pub cf3_u_i_cm_w: Option<Grumpkin>,
    pub cf_running: Option<CommittedInstance>,
    pub cf1_cm_t: Option<Grumpkin>,
    pub cf2_cm_t: Option<Grumpkin>,
    pub cf3_cm_t: Option<Grumpkin>,
    /// The second public value, that of the first step if missing.
    pub cf_x: Option<Fr>,
}

pub open spec fn or_zero_fr(v: Option<Fr>) -> Fr {
    match v {
        Some(x) => x,
        None => f_zero::<Fr>(),
    }
}

pub open spec fn or_zero_g1(v: Option<G1>) -> G1 {
    match v {
        Some(x) => x,
        None => G1::Infinity,
    }
}

pub open spec fn or_zero_grumpkin(v: Option<Grumpkin>) -> Grumpkin {
    match v {
        Some(x) => x,
        None => Grumpkin::Infinity,
    }
}

pub open spec fn or_zeros(v: Option<Vec<Fr>>, n: nat) -> Seq<Fr> {
    match v {
        Some(x) => x@,
        None => repeated(f_zero::<Fr>(), n),
    }
}

fn fr_or_zero(v: &Option<Fr>) -> (r: Fr)
    ensures
        r == or_zero_fr(*v),
{
    match v {
        Some(x) => *x,
        None => Fr::zero(),
    }
}

fn g1_or_zero(v: &Option<G1>) -> (r: G1)
    ensures
        r == or_zero_g1(*v),
{
    match v {
        Some(x) => *x,
        None => G1::Infinity,
    }
}

fn grumpkin_or_zero(v: &Option<Grumpkin>) -> (r: Grumpkin)
    ensures
        r == or_zero_grumpkin(*v),
{
    match v {
        Some(x) => *x,
        None => Grumpkin::Infinity,
    }
}

fn copy_or_zeros(v: &Option<Vec<Fr>>, n: usize) -> (r: Vec<Fr>)
    ensures
        r@ == or_zeros(*v, n as nat),
{
    match v {
        Some(x) => copy_of(x),
        None => filled(Fr::zero(), n),
    }
}

impl AugmentedFCircuitFoldPot {
    /// The values that the circuit takes, with zeros for the missing ones.
    pub open spec fn values_view(&self) -> StepValuesView {
        StepValuesView {
            pp_hash: or_zero_fr(self.pp_hash),
            i: or_zero_fr(self.i),
            z_0: or_zeros(self.z_0, self.state_len as nat),
            z_i: or_zeros(self.z_i, self.state_len as nat),
            running: match self.running {
                Some(u) => u@,
                None => InstanceView::dummy(2),
            },
            u_cm_w: or_zero_g1(self.u_i_cm_w),
            u_cm_f: or_zero_g1(self.u_i_cm_f),
            next_cm_e: or_zero_g1(self.next_cm_e),
            next_cm_w: or_zero_g1(self.next_cm_w),
            next_cm_f: or_zero_g1(self.next_cm_f),
            cm_t: or_zero_g1(self.cm_t),
            cf_running: match self.cf_running {
                Some(u) => u@,
                None => CommittedInstanceView::dummy(CF_IO_LEN as nat),
            },
            cf1_cm_w: or_zero_grumpkin(self.cf1_u_i_cm_w),
            cf2_cm_w: or_zero_grumpkin(self.cf2_u_i_cm_w),
            cf3_cm_w: or_zero_grumpkin(self.cf3_u_i_cm_w),
            cf1_cm_t: or_zero_grumpkin(self.cf1_cm_t),
            cf2_cm_t: or_zero_grumpkin(self.cf2_cm_t),
            cf3_cm_t: or_zero_grumpkin(self.cf3_cm_t),
        }
    }

    /// The circuit's public values: those given, else those of the first step.
    pub open spec fn public_values(&self, z_i1: Seq<Fr>) -> (Fr, Fr) {
        let sponge = SpongeView::fresh(self.poseidon_config@);
        let v = self.values_view();
        (
            match self.x {
                Some(x) => x,
                None => v.x_base(sponge, z_i1),
            },
            match self.cf_x {
                Some(x) => x,
                None => v.cf_x_base(sponge),
            },
        )
    }

    /// Whether the circuit's constraints hold, `z_i1` being the state that the step
    /// function gives.
    pub open spec fn satisfied(&self, z_i1: Seq<Fr>) -> bool {
        let sponge = SpongeView::fresh(self.poseidon_config@);
        let v = self.values_view();
        &&& self.public_values(z_i1).0 == v.x_out(sponge, z_i1)
        &&& self.public_values(z_i1).1 == v.cf_x_out(sponge)
    }

    /// The circuit in which everything is missing.
    pub fn empty(poseidon_config: &PoseidonConfig, state_len: usize) -> (r: AugmentedFCircuitFoldPot)
        ensures
            r.poseidon_config@ == poseidon_config@,
            r.state_len == state_len,
            r.values_view() == (StepValuesView {
                pp_hash: f_zero::<Fr>(),
                i: f_zero::<Fr>(),
                z_0: repeated(f_zero::<Fr>(), state_len as nat),
                z_i: repeated(f_zero::<Fr>(), state_len as nat),
                running: InstanceView::dummy(2),
                u_cm_w: G1::Infinity,
                u_cm_f: G1::Infinity,
                next_cm_e: G1::Infinity,
                next_cm_w: G1::Infinity,
                next_cm_f: G1::Infinity,
                cm_t: G1::Infinity,
                cf_running: CommittedInstanceView::dummy(CF_IO_LEN as nat),
                cf1_cm_w: Grumpkin::Infinity,
                cf2_cm_w: Grumpkin::Infinity,
                cf3_cm_w: Grumpkin::Infinity,
                cf1_cm_t: Grumpkin::Infinity,
                cf2_cm_t: Grumpkin::Infinity,
                cf3_cm_t: Grumpkin::Infinity,
            }),
            r.x is None,
            r.cf_x is None,
    {
        AugmentedFCircuitFoldPot {
            poseidon_config: poseidon_config.clone(),
            state_len,
            pp_hash: None,
            i: None,
            z_0: None,
            z_i: None,
            u_i_cm_w: None,
            u_i_cm_f: None,
            running: None,
            next_cm_e: None,
            next_cm_w: None,
            next_cm_f: None,
            cm_t: None,
            x: None,
            cf1_u_i_cm_w: None,
            cf2_u_i_cm_w: None,
            cf3_u_i_cm_w: None,
            cf_running: None,
            cf1_cm_t: None,
            cf2_cm_t: None,
            cf3_cm_t: None,
            cf_x: None,
        }
    }

    /// The values that the circuit takes.
    pub fn values(&self) -> (r: StepValues)
        ensures
            r@ == self.values_view(),
    {
        StepValues {
            pp_hash: fr_or_zero(&self.pp_hash),
            i: fr_or_zero(&self.i),
            z_0: copy_or_zeros(&self.z_0, self.state_len),
            z_i: copy_or_zeros(&self.z_i, self.state_len),
            running: match &self.running {
                Some(u) => u.dup(),
                None => CommittedInstanceFoldPot::dummy(2),
            },
            u_cm_w: g1_or_zero(&self.u_i_cm_w),
            u_cm_f: g1_or_zero(&self.u_i_cm_f),
            next_cm_e: g1_or_zero(&self.next_cm_e),
            next_cm_w: g1_or_zero(&self.next_cm_w),
            next_cm_f: g1_or_zero(&self.next_cm_f),
            cm_t: g1_or_zero(&self.cm_t),
            cf_running: match &self.cf_running {
                Some(u) => u.dup(),
                None => CommittedInstance::dummy(CF_IO_LEN),
            },
            cf1_cm_w: grumpkin_or_zero(&self.cf1_u_i_cm_w),
            cf2_cm_w: grumpkin_or_zero(&self.cf2_u_i_cm_w),
            cf3_cm_w: grumpkin_or_zero(&self.cf3_u_i_cm_w),
            cf1_cm_t: grumpkin_or_zero(&self.cf1_cm_t),
            cf2_cm_t: grumpkin_or_zero(&self.cf2_cm_t),
            cf3_cm_t: grumpkin_or_zero(&self.cf3_cm_t),
        }
    }

    /// Checks the circuit's constraints and hands out its public values. The step
    /// function's own circuit gives the next state `z_i1`.
    pub fn generate_constraints(&self, z_i1: &Vec<Fr>) -> (r: Result<(Fr, Fr), Error>)
        requires
            self.poseidon_config@.wf(),
            self.values_view().wf(),
        ensures
            r is Ok <==> self.satisfied(z_i1@),
            r matches Ok(x) ==> x == self.public_values(z_i1@),
            r matches Err(e) ==> e@ == ErrorView::NotSatisfied,
    {
        let values = self.values();
        let (x_out, cf_x_out) = values.outputs(&self.poseidon_config, z_i1);
        let sponge = Sponge::new(&self.poseidon_config);
        let one = Fr::one();
        let x = match &self.x {
            Some(x) => *x,
            None => {
                let dummy = CommittedInstanceFoldPot::dummy(2);
                dummy.hash(&sponge, &values.pp_hash, &one, &values.z_0, z_i1)
            },
        };
        let cf_x = match &self.cf_x {
            Some(x) => *x,
            None => {
                let dummy = CommittedInstance::dummy(CF_IO_LEN);
                dummy.hash_cyclefold(&sponge, &values.pp_hash)
            },
        };
        if x.same(&x_out) && cf_x.same(&cf_x_out) {
            Ok((x, cf_x))
        } else {
            Err(Error::NotSatisfied)
        }
    }
}

} // verus!
