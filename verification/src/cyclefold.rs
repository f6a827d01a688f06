//! The three CycleFold circuits of a step: the folds of the commitments to the
//! witness, to the error and to the fixed memory are checked on the second curve.
use vstd::prelude::*;
use crate::circuits::strict_pair;
use crate::circuits::PairRun;
use crate::commitment::CommitmentScheme;
use crate::curve::Grumpkin;
use crate::error::Error;
use crate::error::ErrorView;
use crate::field::f_one;
use crate::field::f_zero;
use crate::field::Field;
use crate::field_fq::Fq;
use crate::field_fr::Fr;
use crate::nova::fold_outcome;
use crate::nova::fold_pair;
use crate::nova::pair_fold;
use crate::nova::pair_fold_transcript;
use crate::nova::CommittedInstance;
use crate::nova::CommittedInstanceView;
use crate::nova::PairFold;
use crate::nova::PairFoldView;
use crate::nova::Witness;
use crate::nova::WitnessView;
use crate::r1cs::R1CS;
use crate::sponge::Sponge;
use crate::sponge::SpongeView;
use crate::vecs::repeated;

verus! {

/// The secret values of a circuit on the second curve, as its synthesis gives them,
/// and the blinding values of its witness.
#[derive(Debug)]
pub struct PairAssignment {
    pub w: Vec<Fq>,
    pub r_w: Fq,
    pub r_e: Fq,
}

#[verifier::ext_equal]
pub struct PairAssignmentView {
    pub w: Seq<Fq>,
    pub r_w: Fq,
    pub r_e: Fq,
}

impl View for PairAssignment {
    type V = PairAssignmentView;

    open spec fn view(&self) -> PairAssignmentView {
        PairAssignmentView { w: self.w@, r_w: self.r_w, r_e: self.r_e }
    }
}

/// What folding on the second curve needs.
pub struct PairContext<CS: CommitmentScheme<Fq, Grumpkin>> {
    pub r1cs: R1CS<Fq>,
    pub cs: CS,
    /// Whether the commitments are blinded.
    pub hiding: bool,
}

/// A running witness and instance on the second curve, and the transcript.
#[verifier::ext_equal]
pub struct PairState {
    pub witness: WitnessView,
    pub instance: CommittedInstanceView,
    pub transcript: SpongeView,
}

impl PairState {
    /// Whether the sizes are those of the system.
    pub open spec fn wf(self, r1cs: R1CS<Fq>) -> bool {
        &&& 1 + self.instance.x.len() + self.witness.w.len() == r1cs.a.n_cols
        &&& self.instance.x.len() == r1cs.l
        &&& self.witness.e.len() == r1cs.a.n_rows
    }
}

impl<CS: CommitmentScheme<Fq, Grumpkin>> PairContext<CS> {
    pub open spec fn blind(&self, r: Fq) -> Fq {
        if self.hiding { r } else { f_zero::<Fq>() }
    }

    /// What the fold of an assignment with the public values `x` gives.
    pub open spec fn fold_spec(&self, pp_hash: Fr, s: PairState, x: Seq<Fq>, a: PairAssignmentView) -> Result<
        PairFoldView,
        ErrorView,
    > {
        pair_fold(
            s.transcript,
            self.r1cs,
            self.cs,
            pp_hash,
            s.witness,
            s.instance,
            x,
            a.w,
            x,
            self.blind(a.r_w),
            self.blind(a.r_e),
        )
    }

    /// The running witness, instance and transcript after a fold.
    pub open spec fn after(&self, pp_hash: Fr, s: PairState, f: PairFoldView) -> PairState {
        PairState {
            witness: f.witness,
            instance: f.instance,
            transcript: pair_fold_transcript(s.transcript, pp_hash, s.instance, f),
        }
    }

    /// Folds an assignment with the public values `x` into a running witness.
    pub fn fold_circuit(
        &self,
        transcript: &mut Sponge,
        pp_hash: &Fr,
        witness: &Witness,
        instance: &CommittedInstance,
        x: &Vec<Fq>,
        a: &PairAssignment,
    ) -> (r: Result<PairFold, Error>)
        requires
            old(transcript).wf(),
            self.r1cs.wf(),
            (PairState { witness: witness@, instance: instance@, transcript: old(transcript)@ }).wf(self.r1cs),
            x@.len() == self.r1cs.l,
            a.w@.len() == witness.w@.len(),
        ensures
            ({
                let s = PairState { witness: witness@, instance: instance@, transcript: old(transcript)@ };
                &&& fold_outcome(r) == self.fold_spec(*pp_hash, s, x@, a@)
                &&& r matches Ok(f) ==> {
                    &&& final(transcript)@ == self.after(*pp_hash, s, f@).transcript
                    &&& self.after(*pp_hash, s, f@).wf(self.r1cs)
                    &&& f@.witness.w.len() == witness.w@.len()
                }
                &&& r is Err ==> final(transcript)@ == old(transcript)@
            }),
    {
        let zero = Fq::zero();
        let (r_w, r_e) = if self.hiding {
            (a.r_w, a.r_e)
        } else {
            (zero, zero)
        };
        fold_pair(
            transcript,
            &self.r1cs,
            &self.cs,
            pp_hash,
            witness,
            instance,
            x,
            &a.w,
            x,
            &r_w,
            &r_e,
        )
    }
}

/// The three folds of a step.
#[derive(Debug)]
pub struct CycleFolds {
    pub w: PairFold,
    pub e: PairFold,
    pub f: PairFold,
}

#[verifier::ext_equal]
pub struct CycleFoldsView {
    pub w: PairFoldView,
    pub e: PairFoldView,
    pub f: PairFoldView,
}

impl View for CycleFolds {
    type V = CycleFoldsView;

    open spec fn view(&self) -> CycleFoldsView {
        CycleFoldsView { w: self.w@, e: self.e@, f: self.f@ }
    }
}

pub open spec fn folds_outcome(r: Result<CycleFolds, Error>) -> Result<CycleFoldsView, ErrorView> {
    match r {
        Ok(f) => Ok(f@),
        Err(e) => Err(e@),
    }
}

/// The public values of the three circuits of a step.
pub struct CyclePublic {
    pub w: Seq<Fq>,
    pub e: Seq<Fq>,
    pub f: Seq<Fq>,
}

/// The assignments of the three circuits of a step.
#[derive(Debug)]
pub struct CycleAssignments {
    pub w: PairAssignment,
    pub e: PairAssignment,
    pub f: PairAssignment,
}

#[verifier::ext_equal]
pub struct CycleAssignmentsView {
    pub w: PairAssignmentView,
    pub e: PairAssignmentView,
    pub f: PairAssignmentView,
}

impl View for CycleAssignments {
    type V = CycleAssignmentsView;

    open spec fn view(&self) -> CycleAssignmentsView {
        CycleAssignmentsView { w: self.w@, e: self.e@, f: self.f@ }
    }
}

impl CycleAssignmentsView {
    pub open spec fn wf(self, w_len: nat) -> bool {
        &&& self.w.w.len() == w_len
        &&& self.e.w.len() == w_len
        &&& self.f.w.len() == w_len
    }
}

impl<CS: CommitmentScheme<Fq, Grumpkin>> PairContext<CS> {
    /// What the three folds of a step give, one after the other.
    pub open spec fn folds_spec(&self, pp_hash: Fr, s: PairState, x: CyclePublic, a: CycleAssignmentsView) -> Result<
        CycleFoldsView,
        ErrorView,
    > {
        match self.fold_spec(pp_hash, s, x.w, a.w) {
            Err(e) => Err(e),
            Ok(w) => match self.fold_spec(pp_hash, self.after(pp_hash, s, w), x.e, a.e) {
                Err(e) => Err(e),
                Ok(e) => match self.fold_spec(
                    pp_hash,
                    self.after(pp_hash, self.after(pp_hash, s, w), e),
                    x.f,
                    a.f,
                ) {
                    Err(e) => Err(e),
                    Ok(f) => Ok(CycleFoldsView { w, e, f }),
                },
            },
        }
    }

    /// The running witness, instance and transcript after the three folds of a step.
    pub open spec fn after_folds(&self, pp_hash: Fr, s: PairState, f: CycleFoldsView) -> PairState {
        self.after(pp_hash, self.after(pp_hash, self.after(pp_hash, s, f.w), f.e), f.f)
    }

    /// The three folds of a step, one after the other.
    pub fn fold_circuits(
        &self,
        transcript: &mut Sponge,
        pp_hash: &Fr,
        witness: &Witness,
        instance: &CommittedInstance,
        x_w: &Vec<Fq>,
        x_e: &Vec<Fq>,
        x_f: &Vec<Fq>,
        a: &CycleAssignments,
    ) -> (r: Result<CycleFolds, Error>)
        requires
            old(transcript).wf(),
            self.r1cs.wf(),
            (PairState { witness: witness@, instance: instance@, transcript: old(transcript)@ }).wf(self.r1cs),
            x_w@.len() == self.r1cs.l,
            x_e@.len() == self.r1cs.l,
            x_f@.len() == self.r1cs.l,
            a@.wf(witness.w@.len()),
        ensures
            ({
                let s = PairState { witness: witness@, instance: instance@, transcript: old(transcript)@ };
                let x = CyclePublic { w: x_w@, e: x_e@, f: x_f@ };
                &&& folds_outcome(r) == self.folds_spec(*pp_hash, s, x, a@)
                &&& r matches Ok(f) ==> {
                    &&& final(transcript)@ == self.after_folds(*pp_hash, s, f@).transcript
                    &&& self.after_folds(*pp_hash, s, f@).wf(self.r1cs)
                    &&& f@.f.witness.w.len() == witness.w@.len()
                }
            }),
            final(transcript)@.config == old(transcript)@.config,
    {
        let w = match self.fold_circuit(transcript, pp_hash, witness, instance, x_w, &a.w) {
            Err(e) => { return Err(e); },
            Ok(f) => f,
        };
        let e = match self.fold_circuit(transcript, pp_hash, &w.witness, &w.instance, x_e, &a.e) {
            Err(e) => { return Err(e); },
            Ok(f) => f,
        };
        let f = match self.fold_circuit(transcript, pp_hash, &e.witness, &e.instance, x_f, &a.f) {
            Err(e) => { return Err(e); },
            Ok(f) => f,
        };
        Ok(CycleFolds { w, e, f })
    }
}

/// Whether the witness satisfies the system relaxed by the instance.
pub open spec fn pair_relaxed<CS: CommitmentScheme<Fq, Grumpkin>>(
    ctx: PairContext<CS>,
    w: WitnessView,
    u: CommittedInstanceView,
) -> bool {
    ctx.r1cs.check_spec(w.e, u.u, R1CS::assignment(u.u, u.x, w.w)) is Ok
}

/// Whether the assignment satisfies the system.
pub open spec fn pair_strict<CS: CommitmentScheme<Fq, Grumpkin>>(
    ctx: PairContext<CS>,
    x: Seq<Fq>,
    w: Seq<Fq>,
) -> bool {
    ctx.r1cs.check_spec(
        repeated(f_zero::<Fq>(), ctx.r1cs.a.n_rows as nat),
        f_one::<Fq>(),
        R1CS::assignment(f_one::<Fq>(), x, w),
    ) is Ok
}

/// A fold on the second curve keeps satisfaction: where the running witness
/// satisfies the relaxed system and the assignment the plain one, the folded witness
/// satisfies the system relaxed by the folded instance.
pub proof fn law_pair_fold_keeps_satisfaction<CS: CommitmentScheme<Fq, Grumpkin>>(
    ctx: PairContext<CS>,
    pp_hash: Fr,
    s: PairState,
    x: Seq<Fq>,
    a: PairAssignmentView,
)
    requires
        ctx.r1cs.wf(),
        s.wf(ctx.r1cs),
        crate::field::canonical(s.instance.u),
        x.len() == ctx.r1cs.l,
        a.w.len() == s.witness.w.len(),
        pair_relaxed(ctx, s.witness, s.instance),
        pair_strict(ctx, x, a.w),
        ctx.fold_spec(pp_hash, s, x, a) is Ok,
    ensures
        ({
            let f = ctx.fold_spec(pp_hash, s, x, a)->Ok_0;
            &&& pair_relaxed(ctx, f.witness, f.instance)
            &&& crate::field::canonical(f.instance.u)
            &&& ctx.after(pp_hash, s, f).wf(ctx.r1cs)
            &&& f.witness.w.len() == s.witness.w.len()
        }),
{
    let f = ctx.fold_spec(pp_hash, s, x, a)->Ok_0;
    let one = f_one::<Fq>();
    let z1 = R1CS::assignment(s.instance.u, s.instance.x, s.witness.w);
    let z2 = R1CS::assignment(one, x, a.w);
    crate::r1cs::law_folding_keeps_satisfaction(ctx.r1cs, s.witness.e, s.instance.u, z1, one, z2, f.r);
    crate::r1cs::lemma_cross_term_symmetric(ctx.r1cs, one, z2, s.instance.u, z1);
    crate::nova::lemma_challenge_canonical(
        crate::nova::pair_transcript(
            s.transcript,
            pp_hash,
            s.instance.absorbed(),
            f.incoming.absorbed(),
            f.cm_t,
        ).output_bits(crate::sponge::N_BITS_RO as nat),
    );
    crate::field::lemma_mul_one(f.r);
    crate::field::lemma_op_values(s.instance.u, f.r);
    assert(R1CS::assignment(f.instance.u, f.instance.x, f.witness.w) =~= crate::r1cs::folded(z1, f.r, z2));
}

/// A running instance is folded alike by the prover and by the circuit.
pub proof fn law_pair_fold_matches_circuit<CS: CommitmentScheme<Fq, Grumpkin>>(
    ctx: PairContext<CS>,
    pp_hash: Fr,
    s: PairState,
    x: Seq<Fq>,
    a: PairAssignmentView,
)
    requires
        ctx.fold_spec(pp_hash, s, x, a) is Ok,
    ensures
        ({
            let f = ctx.fold_spec(pp_hash, s, x, a)->Ok_0;
            let run = PairRun { instance: s.instance, transcript: s.transcript }.step(
                pp_hash,
                strict_pair(x, f.incoming.cm_w),
                f.cm_t,
            );
            &&& run.instance == f.instance
            &&& run.transcript == ctx.after(pp_hash, s, f).transcript
        }),
{
    let f = ctx.fold_spec(pp_hash, s, x, a)->Ok_0;
    assert(f.incoming == strict_pair(x, f.incoming.cm_w));
}

} // verus!
