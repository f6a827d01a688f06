//! Folding of instances on the first curve: the challenge, the folded instance and
//! the folded witness.
use vstd::prelude::*;
use crate::commitment::CommitmentScheme;
use crate::curve::g1_plus;
use crate::curve::g1_times;
use crate::curve::G1;
use crate::error::outcome;
use crate::error::Error;
use crate::error::ErrorView;
use crate::field::f_add;
use crate::field::f_mul;
use crate::field::f_zero;
use crate::field::Field;
use crate::field_fr::Fr;
use crate::instance::CommittedInstanceFoldPot;
use crate::instance::InstanceView;
use crate::instance::WitnessFoldPot;
use crate::instance::WitnessFoldPotView;
use crate::limbs::absorb_g1;
use crate::limbs::g1_absorbed;
use crate::r1cs::fold_vectors;
use crate::r1cs::folded;
use crate::r1cs::R1CS;
use crate::sponge::Sponge;
use crate::sponge::SpongeView;
use crate::sponge::N_BITS_RO;
use crate::vecs::same_elements;

verus! {

impl InstanceView {
    /// The fold of `u` and the public values; the commitments are left to another
    /// circuit and set to zero.
    pub open spec fn folded_public(self, r: Fr, other: InstanceView) -> InstanceView {
        InstanceView {
            cm_e: G1::Infinity,
            u: f_add(self.u, f_mul(r, other.u)),
            cm_w: G1::Infinity,
            x: folded(self.x, r, other.x),
            cm_f: G1::Infinity,
        }
    }

    /// The fold of a running instance and an incoming one.
    pub open spec fn folded(self, r: Fr, other: InstanceView, cm_t: G1) -> InstanceView {
        InstanceView {
            cm_e: g1_plus(g1_plus(self.cm_e, g1_times(other.cm_e, r)), g1_times(cm_t, r)),
            u: f_add(self.u, f_mul(r, other.u)),
            cm_w: g1_plus(self.cm_w, g1_times(other.cm_w, r)),
            x: folded(self.x, r, other.x),
            cm_f: g1_plus(self.cm_f, g1_times(other.cm_f, r)),
        }
    }
}

impl WitnessFoldPotView {
    /// The vector that the witness and its instance stand for.
    pub open spec fn assignment(self, u: InstanceView) -> Seq<Fr> {
        R1CS::assignment(u.u, u.x, self.w)
    }

    /// The fold of a running witness and one that is not relaxed. The commitment
    /// to the cross term is not blinded.
    pub open spec fn folded(self, r: Fr, other: WitnessFoldPotView, t: Seq<Fr>) -> WitnessFoldPotView {
        WitnessFoldPotView {
            e: folded(self.e, r, t),
            r_e: self.r_e,
            w: folded(self.w, r, other.w),
            r_w: f_add(self.r_w, f_mul(r, other.r_w)),
            size_f: self.size_f,
            start_f: self.start_f,
            r_f: f_add(self.r_f, f_mul(r, other.r_f)),
        }
    }
}

/// The cross term of an incoming and a running witness.
pub open spec fn step_cross_term(
    r1cs: R1CS<Fr>,
    w_in: WitnessFoldPotView,
    u_in: InstanceView,
    w_run: WitnessFoldPotView,
    u_run: InstanceView,
) -> Seq<Fr> {
    r1cs.cross_term(u_in.u, w_in.assignment(u_in), u_run.u, w_run.assignment(u_run))
}

/// The transcript after the challenge of a fold was asked for.
pub open spec fn step_transcript(
    t: SpongeView,
    pp_hash: Fr,
    running: Seq<Fr>,
    incoming: Seq<Fr>,
    cm_t: G1,
) -> SpongeView {
    t.absorbed(seq![pp_hash]).absorbed(running).absorbed(incoming).absorbed(g1_absorbed(cm_t))
}

/// The transcript after the challenge of a fold was handed out.
pub open spec fn step_transcript_after(
    t: SpongeView,
    pp_hash: Fr,
    running: Seq<Fr>,
    incoming: Seq<Fr>,
    cm_t: G1,
) -> SpongeView {
    step_transcript(t, pp_hash, running, incoming, cm_t).squeezed(SpongeView::elements_for_bits(N_BITS_RO as nat))
}

/// The challenge of a folding step.
#[derive(Debug, Clone, Copy)]
pub struct ChallengeGadgetFoldPot {}

impl ChallengeGadgetFoldPot {
    /// The bits of the challenge: the parameters' digest, the running and the
    /// incoming instance and the cross term's commitment are absorbed.
    pub fn get_challenge_native(
        transcript: &mut Sponge,
        pp_hash: &Fr,
        running: &CommittedInstanceFoldPot,
        incoming: &CommittedInstanceFoldPot,
        cm_t: &G1,
    ) -> (r: Vec<bool>)
        requires
            old(transcript).wf(),
        ensures
            r@ == step_transcript(
                old(transcript)@,
                *pp_hash,
                running@.absorbed(),
                incoming@.absorbed(),
                *cm_t,
            ).output_bits(N_BITS_RO as nat),
            r@.len() == N_BITS_RO,
            final(transcript)@ == step_transcript_after(
                old(transcript)@,
                *pp_hash,
                running@.absorbed(),
                incoming@.absorbed(),
                *cm_t,
            ),
    {
        transcript.absorb_one(pp_hash);
        transcript.absorb(&running.to_sponge_field_elements());
        transcript.absorb(&incoming.to_sponge_field_elements());
        transcript.absorb(&absorb_g1(cm_t));
        transcript.squeeze_bits(N_BITS_RO)
    }

    /// The bits of the challenge as the circuit asks for them: the running
    /// instance's elements are given.
    pub fn get_challenge_gadget(
        transcript: &mut Sponge,
        pp_hash: &Fr,
        running: &Vec<Fr>,
        incoming: &CommittedInstanceVarFoldPot,
        cm_t: &G1,
    ) -> (r: Vec<bool>)
        requires
            old(transcript).wf(),
        ensures
            r@ == step_transcript(
                old(transcript)@,
                *pp_hash,
                running@,
                incoming.value@.absorbed(),
                *cm_t,
            ).output_bits(N_BITS_RO as nat),
            r@.len() == N_BITS_RO,
            final(transcript)@ == step_transcript_after(
                old(transcript)@,
                *pp_hash,
                running@,
                incoming.value@.absorbed(),
                *cm_t,
            ),
    {
        transcript.absorb_one(pp_hash);
        transcript.absorb(running);
        transcript.absorb(&incoming.to_sponge_field_elements());
        transcript.absorb(&absorb_g1(cm_t));
        transcript.squeeze_bits(N_BITS_RO)
    }
}

/// An instance as a circuit holds it.
#[derive(Debug)]
pub struct CommittedInstanceVarFoldPot {
    pub value: CommittedInstanceFoldPot,
}

impl CommittedInstanceVarFoldPot {
    /// The instance allocated in a circuit.
    pub fn new_variable(value: &CommittedInstanceFoldPot) -> (r: CommittedInstanceVarFoldPot)
        ensures
            r.value@ == value@,
    {
        CommittedInstanceVarFoldPot { value: value.dup() }
    }

    pub fn to_sponge_field_elements(&self) -> (r: Vec<Fr>)
        ensures
            r@ == self.value@.absorbed(),
    {
        self.value.to_sponge_field_elements()
    }

    /// The instance's digest, and the elements that were absorbed of it.
    pub fn hash(&self, sponge: &Sponge, pp_hash: &Fr, i: &Fr, z_0: &Vec<Fr>, z_i: &Vec<Fr>) -> (r: (Fr, Vec<Fr>))
        requires
            sponge.wf(),
        ensures
            r.0 == self.value@.hash(sponge@, *pp_hash, *i, z_0@, z_i@),
            r.1@ == self.value@.absorbed(),
    {
        let mut s = sponge.dup();
        let elems = self.to_sponge_field_elements();
        s.absorb_one(pp_hash);
        s.absorb_one(i);
        s.absorb(z_0);
        s.absorb(z_i);
        s.absorb(&elems);
        (s.squeeze_one(), elems)
    }

    /// Holds the other instance to this one: `u`, the public values and the three
    /// commitments.
    pub fn enforce_equal(&self, other: &CommittedInstanceVarFoldPot) -> (r: Result<(), Error>)
        ensures
            outcome(r) == (if self.value@ == other.value@ {
                Ok(())
            } else {
                Err(ErrorView::NotSatisfied)
            }),
    {
        let (a, b) = (&self.value, &other.value);
        let same_points = a.cm_e == b.cm_e && a.cm_w == b.cm_w && a.cm_f == b.cm_f;
        if same_points && a.u.same(&b.u) && same_elements(&a.x, &b.x) {
            assert(self.value@ =~= other.value@);
            Ok(())
        } else {
            Err(Error::NotSatisfied)
        }
    }

    /// The first instance if the condition holds, else the second. The two have
    /// equally many public values: two, or three where pairings are folded too.
    pub fn conditionally_select(
        cond: bool,
        true_value: &CommittedInstanceVarFoldPot,
        false_value: &CommittedInstanceVarFoldPot,
    ) -> (r: CommittedInstanceVarFoldPot)
        requires
            true_value.value.x@.len() == false_value.value.x@.len(),
            true_value.value.x@.len() == 2 || true_value.value.x@.len() == 3,
        ensures
            r.value@ == (if cond { true_value.value@ } else { false_value.value@ }),
    {
        if cond {
            CommittedInstanceVarFoldPot { value: true_value.value.dup() }
        } else {
            CommittedInstanceVarFoldPot { value: false_value.value.dup() }
        }
    }
}

/// The verifier's side of a folding step as a circuit.
#[derive(Debug, Clone, Copy)]
pub struct NIFSGadgetFoldPot {}

impl NIFSGadgetFoldPot {
    /// The fold of `u` and the public values. The commitments are folded by the
    /// circuits on the second curve and come out as zero.
    pub fn fold_committed_instance(
        r: &Fr,
        ci1: &CommittedInstanceVarFoldPot,
        ci2: &CommittedInstanceVarFoldPot,
    ) -> (ci3: CommittedInstanceVarFoldPot)
        ensures
            ci3.value@ == ci1.value@.folded_public(*r, ci2.value@),
    {
        let value = CommittedInstanceFoldPot {
            cm_e: G1::Infinity,
            u: ci1.value.u.plus(&r.times(&ci2.value.u)),
            cm_w: G1::Infinity,
            x: fold_vectors(&ci1.value.x, r, &ci2.value.x),
            cm_f: G1::Infinity,
        };
        CommittedInstanceVarFoldPot { value }
    }

    /// The fold of the whole instance.
    pub fn fold_committed_instance_full(
        r: &Fr,
        ci1: &CommittedInstanceVarFoldPot,
        ci2: &CommittedInstanceVarFoldPot,
        cm_t: &G1,
    ) -> (ci3: CommittedInstanceVarFoldPot)
        ensures
            ci3.value@ == ci1.value@.folded(*r, ci2.value@, *cm_t),
    {
        CommittedInstanceVarFoldPot { value: NIFSFoldPot::verify(r, &ci1.value, &ci2.value, cm_t) }
    }

    /// Holds `u` and the public values of `ci3` to the fold of the other two.
    pub fn verify(
        r: &Fr,
        ci1: &CommittedInstanceVarFoldPot,
        ci2: &CommittedInstanceVarFoldPot,
        ci3: &CommittedInstanceVarFoldPot,
    ) -> (res: Result<(), Error>)
        ensures
            outcome(res) == (if ci3.value.u == ci1.value@.folded_public(*r, ci2.value@).u && ci3.value.x@
                == ci1.value@.folded_public(*r, ci2.value@).x {
                Ok(())
            } else {
                Err(ErrorView::NotSatisfied)
            }),
    {
        let ci = NIFSGadgetFoldPot::fold_committed_instance(r, ci1, ci2);
        if ci.value.u.same(&ci3.value.u) && same_elements(&ci.value.x, &ci3.value.x) {
            Ok(())
        } else {
            Err(Error::NotSatisfied)
        }
    }
}

/// The folding scheme on the first curve.
#[derive(Debug, Clone, Copy)]
pub struct NIFSFoldPot {}

impl NIFSFoldPot {
    /// The cross term of an incoming and a running witness, and its commitment.
    #[allow(non_snake_case)]
    pub fn compute_cmT<CS: CommitmentScheme<Fr, G1>>(
        cs: &CS,
        r1cs: &R1CS<Fr>,
        w_in: &WitnessFoldPot,
        u_in: &CommittedInstanceFoldPot,
        w_run: &WitnessFoldPot,
        u_run: &CommittedInstanceFoldPot,
    ) -> (r: (Vec<Fr>, Option<G1>))
        requires
            r1cs.wf(),
            w_in@.assignment(u_in@).len() == r1cs.a.n_cols,
            w_run@.assignment(u_run@).len() == r1cs.a.n_cols,
        ensures
            r.0@ == step_cross_term(*r1cs, w_in@, u_in@, w_run@, u_run@),
            r.1 == cs.commit_spec(r.0@, f_zero::<Fr>()),
    {
        let z1 = R1CS::assemble(&u_in.u, &u_in.x, &w_in.w);
        let z2 = R1CS::assemble(&u_run.u, &u_run.x, &w_run.w);
        let t = r1cs.compute_cross_term(&u_in.u, &z1, &u_run.u, &z2);
        let zero = Fr::zero();
        let cm_t = cs.commit(&t, &zero);
        (t, cm_t)
    }

    /// The fold of a running and an incoming instance.
    pub fn verify(
        r: &Fr,
        ci1: &CommittedInstanceFoldPot,
        ci2: &CommittedInstanceFoldPot,
        cm_t: &G1,
    ) -> (ci3: CommittedInstanceFoldPot)
        ensures
            ci3@ == ci1@.folded(*r, ci2@, *cm_t),
    {
        CommittedInstanceFoldPot {
            cm_e: ci1.cm_e.plus(&ci2.cm_e.times(r)).plus(&cm_t.times(r)),
            u: ci1.u.plus(&r.times(&ci2.u)),
            cm_w: ci1.cm_w.plus(&ci2.cm_w.times(r)),
            x: fold_vectors(&ci1.x, r, &ci2.x),
            cm_f: ci1.cm_f.plus(&ci2.cm_f.times(r)),
        }
    }

    /// The fold of a running witness with its instance and an incoming one.
    pub fn fold_instances(
        r: &Fr,
        w1: &WitnessFoldPot,
        ci1: &CommittedInstanceFoldPot,
        w2: &WitnessFoldPot,
        ci2: &CommittedInstanceFoldPot,
        t: &Vec<Fr>,
        cm_t: &G1,
    ) -> (res: (WitnessFoldPot, CommittedInstanceFoldPot))
        ensures
            res.0@ == w1@.folded(*r, w2@, t@),
            res.1@ == ci1@.folded(*r, ci2@, *cm_t),
    {
        let w3 = WitnessFoldPot {
            e: fold_vectors(&w1.e, r, t),
            r_e: w1.r_e,
            w: fold_vectors(&w1.w, r, &w2.w),
            r_w: w1.r_w.plus(&r.times(&w2.r_w)),
            size_f: w1.size_f,
            start_f: w1.start_f,
            r_f: w1.r_f.plus(&r.times(&w2.r_f)),
        };
        (w3, NIFSFoldPot::verify(r, ci1, ci2, cm_t))
    }
}

/// A folded instance comes with a folded witness that satisfies it: where the
/// running witness satisfies the system relaxed by its instance, and the incoming
/// one satisfies it without an error, the fold satisfies the system relaxed by the
/// folded instance, whatever the challenge.
pub proof fn law_folded_witness_satisfies_folded_instance(
    r1cs: R1CS<Fr>,
    w_run: WitnessFoldPotView,
    u_run: InstanceView,
    w_in: WitnessFoldPotView,
    u_in: InstanceView,
    r: Fr,
    cm_t: G1,
)
    requires
        r1cs.wf(),
        u_run.x.len() == u_in.x.len(),
        w_run.w.len() == w_in.w.len(),
        r1cs.check_spec(w_run.e, u_run.u, w_run.assignment(u_run)) is Ok,
        r1cs.check_spec(
            crate::vecs::repeated(f_zero::<Fr>(), r1cs.a.n_rows as nat),
            u_in.u,
            w_in.assignment(u_in),
        ) is Ok,
    ensures
        ({
            let w = w_run.folded(r, w_in, step_cross_term(r1cs, w_in, u_in, w_run, u_run));
            let u = u_run.folded(r, u_in, cm_t);
            r1cs.check_spec(w.e, u.u, w.assignment(u)) is Ok
        }),
{
    let (z1, z2) = (w_run.assignment(u_run), w_in.assignment(u_in));
    crate::r1cs::law_folding_keeps_satisfaction(r1cs, w_run.e, u_run.u, z1, u_in.u, z2, r);
    let t = step_cross_term(r1cs, w_in, u_in, w_run, u_run);
    crate::r1cs::lemma_cross_term_symmetric(r1cs, u_in.u, z2, u_run.u, z1);
    let w = w_run.folded(r, w_in, t);
    let u = u_run.folded(r, u_in, cm_t);
    assert(w.assignment(u) =~= folded(z1, r, z2));
}

} // verus!
