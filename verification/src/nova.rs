//! Instances and witnesses on the second curve, and their folding: the running
//! instances of the CycleFold and CyclePair circuits.
use vstd::prelude::*;
use crate::bigint::bits_value;
use crate::commitment::CommitmentScheme;
use crate::curve::grumpkin_plus;
use crate::curve::grumpkin_times;
use crate::curve::Grumpkin;
use crate::error::Error;
use crate::error::ErrorView;
use crate::field::f_add;
use crate::field::f_mul;
use crate::field::f_one;
use crate::field::f_zero;
use crate::field::Field;
use crate::field::FieldModel;
use crate::field_fq::fq_modulus;
use crate::field_fq::Fq;
use crate::field_fr::Fr;
use crate::limbs::absorb_fq;
use crate::limbs::fq_absorbed;
use crate::limbs::fq_from_bits;
use crate::r1cs::fold_vectors;
use crate::r1cs::folded;
use crate::r1cs::R1CS;
use crate::sponge::Sponge;
use crate::sponge::SpongeView;
use crate::sponge::N_BITS_RO;
use crate::vecs::copy_of;
use crate::vecs::filled;
use crate::vecs::push_all;
use crate::vecs::repeated;

verus! {

/// The public part of a relaxed witness on the second curve.
#[derive(Debug)]
pub struct CommittedInstance {
    pub cm_e: Grumpkin,
    pub u: Fq,
    pub cm_w: Grumpkin,
    pub x: Vec<Fq>,
}

#[verifier::ext_equal]
pub struct CommittedInstanceView {
    pub cm_e: Grumpkin,
    pub u: Fq,
    pub cm_w: Grumpkin,
    pub x: Seq<Fq>,
}

impl View for CommittedInstance {
    type V = CommittedInstanceView;

    open spec fn view(&self) -> CommittedInstanceView {
        CommittedInstanceView { cm_e: self.cm_e, u: self.u, cm_w: self.cm_w, x: self.x@ }
    }
}

/// What is absorbed of a list of elements of the base field.
pub open spec fn fqs_absorbed(v: Seq<Fq>) -> Seq<Fr>
    decreases v.len(),
{
    if v.len() == 0 {
        Seq::empty()
    } else {
        fqs_absorbed(v.drop_last()) + fq_absorbed(v.last())
    }
}

/// What is absorbed of a list of elements of the base field.
pub fn absorb_fqs(v: &Vec<Fq>) -> (r: Vec<Fr>)
    ensures
        r@ == fqs_absorbed(v@),
{
    let mut r: Vec<Fr> = Vec::new();
    let mut i: usize = 0;
    assert(v@.take(0) =~= Seq::empty());
    while i < v.len()
        invariant
            i <= v@.len(),
            r@ == fqs_absorbed(v@.take(i as int)),
        decreases v.len() - i,
    {
        push_all(&mut r, &absorb_fq(&v[i]));
        assert(v@.take(i + 1).drop_last() =~= v@.take(i as int));
        i = i + 1;
    }
    assert(v@.take(i as int) =~= v@);
    r
}

impl CommittedInstanceView {
    /// An instance of zeros with `io_len` public values.
    pub open spec fn dummy(io_len: nat) -> CommittedInstanceView {
        CommittedInstanceView {
            cm_e: Grumpkin::Infinity,
            u: f_zero::<Fq>(),
            cm_w: Grumpkin::Infinity,
            x: repeated(f_zero::<Fq>(), io_len),
        }
    }

    /// What a sponge absorbs of the instance: `u`, the public values, and the
    /// coordinates of the two commitments.
    pub open spec fn absorbed(self) -> Seq<Fr> {
        fq_absorbed(self.u) + fqs_absorbed(self.x) + seq![
            self.cm_e.xy().0,
            self.cm_e.xy().1,
            self.cm_w.xy().0,
            self.cm_w.xy().1,
        ]
    }

    /// The instance's digest: that of the parameters' digest and the instance.
    pub open spec fn hash_cyclefold(self, sponge: SpongeView, pp_hash: Fr) -> Fr {
        sponge.absorbed(seq![pp_hash]).absorbed(self.absorbed()).output(1)[0]
    }

    /// The fold of a running instance and one that is not relaxed.
    pub open spec fn folded(self, r: Fq, other: CommittedInstanceView, cm_t: Grumpkin) -> CommittedInstanceView {
        CommittedInstanceView {
            cm_e: grumpkin_plus(grumpkin_times(cm_t, r), self.cm_e),
            u: f_add(self.u, r),
            cm_w: grumpkin_plus(self.cm_w, grumpkin_times(other.cm_w, r)),
            x: folded(self.x, r, other.x),
        }
    }
}

/// The transcript after the challenge of a fold on the second curve was asked for.
pub open spec fn pair_transcript(
    t: SpongeView,
    pp_hash: Fr,
    running: Seq<Fr>,
    incoming: Seq<Fr>,
    cm_t: Grumpkin,
) -> SpongeView {
    t.absorbed(seq![pp_hash]).absorbed(running).absorbed(incoming).absorbed(seq![cm_t.xy().0]).absorbed(
        seq![cm_t.xy().1],
    )
}

impl CommittedInstance {
    pub fn dummy(io_len: usize) -> (r: CommittedInstance)
        ensures
            r@ == CommittedInstanceView::dummy(io_len as nat),
    {
        CommittedInstance {
            cm_e: Grumpkin::Infinity,
            u: Fq::zero(),
            cm_w: Grumpkin::Infinity,
            x: filled(Fq::zero(), io_len),
        }
    }

    pub fn dup(&self) -> (r: CommittedInstance)
        ensures
            r@ == self@,
    {
        CommittedInstance { cm_e: self.cm_e, u: self.u, cm_w: self.cm_w, x: copy_of(&self.x) }
    }

    /// What a sponge absorbs of the instance.
    pub fn to_native_sponge_field_elements(&self) -> (r: Vec<Fr>)
        ensures
            r@ == self@.absorbed(),
    {
        let mut r = absorb_fq(&self.u);
        push_all(&mut r, &absorb_fqs(&self.x));
        let (ex, ey) = self.cm_e.coordinates();
        let (wx, wy) = self.cm_w.coordinates();
        r.push(ex);
        r.push(ey);
        r.push(wx);
        r.push(wy);
        assert(r@ =~= self@.absorbed());
        r
    }

    /// The instance's digest. The sponge is left as it is.
    pub fn hash_cyclefold(&self, sponge: &Sponge, pp_hash: &Fr) -> (h: Fr)
        requires
            sponge.wf(),
        ensures
            h == self@.hash_cyclefold(sponge@, *pp_hash),
    {
        let mut s = sponge.dup();
        s.absorb_one(pp_hash);
        s.absorb(&self.to_native_sponge_field_elements());
        s.squeeze_one()
    }
}

/// The secret part of a relaxed witness on the second curve.
#[derive(Debug)]
pub struct Witness {
    pub e: Vec<Fq>,
    pub r_e: Fq,
    pub w: Vec<Fq>,
    pub r_w: Fq,
}

#[verifier::ext_equal]
pub struct WitnessView {
    pub e: Seq<Fq>,
    pub r_e: Fq,
    pub w: Seq<Fq>,
    pub r_w: Fq,
}

impl View for Witness {
    type V = WitnessView;

    open spec fn view(&self) -> WitnessView {
        WitnessView { e: self.e@, r_e: self.r_e, w: self.w@, r_w: self.r_w }
    }
}

/// Whether all entries are zero.
pub open spec fn all_zero<F: FieldModel>(v: Seq<F>) -> bool {
    forall|i: int| 0 <= i < v.len() ==> v[i] == f_zero::<F>()
}

/// Whether all entries are zero.
pub fn is_zero_vec<F: Field>(v: &Vec<F>) -> (b: bool)
    ensures
        b == all_zero(v@),
{
    let zero = F::zero();
    let mut i: usize = 0;
    while i < v.len()
        invariant
            i <= v@.len(),
            zero == f_zero::<F>(),
            forall|k: int| 0 <= k < i ==> v@[k] == zero,
        decreases v.len() - i,
    {
        if !v[i].same(&zero) {
            return false;
        }
        i = i + 1;
    }
    true
}

impl WitnessView {
    pub open spec fn dummy(w_len: nat, e_len: nat) -> WitnessView {
        WitnessView {
            e: repeated(f_zero::<Fq>(), e_len),
            r_e: f_zero::<Fq>(),
            w: repeated(f_zero::<Fq>(), w_len),
            r_w: f_zero::<Fq>(),
        }
    }

    /// A witness that is not relaxed.
    pub open spec fn strict(w: Seq<Fq>, e_len: nat, r_w: Fq, r_e: Fq) -> WitnessView {
        WitnessView { e: repeated(f_zero::<Fq>(), e_len), r_e, w, r_w }
    }

    /// The instance that commits to the witness, none where a commitment fails.
    pub open spec fn commit<CS: CommitmentScheme<Fq, Grumpkin>>(self, cs: CS, x: Seq<Fq>) -> Option<
        CommittedInstanceView,
    > {
        let cm_e = if all_zero(self.e) {
            Some(Grumpkin::Infinity)
        } else {
            cs.commit_spec(self.e, self.r_e)
        };
        let cm_w = cs.commit_spec(self.w, self.r_w);
        if cm_e is Some && cm_w is Some {
            Some(CommittedInstanceView { cm_e: cm_e->0, u: f_one::<Fq>(), cm_w: cm_w->0, x })
        } else {
            None
        }
    }

    /// The fold of a running witness and one that is not relaxed. The commitment
    /// to the cross term is not blinded.
    pub open spec fn folded(self, r: Fq, other: WitnessView, t: Seq<Fq>) -> WitnessView {
        WitnessView {
            e: folded(self.e, r, t),
            r_e: self.r_e,
            w: folded(self.w, r, other.w),
            r_w: f_add(self.r_w, f_mul(r, other.r_w)),
        }
    }
}

impl Witness {
    pub fn dummy(w_len: usize, e_len: usize) -> (r: Witness)
        ensures
            r@ == WitnessView::dummy(w_len as nat, e_len as nat),
    {
        Witness {
            e: filled(Fq::zero(), e_len),
            r_e: Fq::zero(),
            w: filled(Fq::zero(), w_len),
            r_w: Fq::zero(),
        }
    }

    pub fn dup(&self) -> (r: Witness)
        ensures
            r@ == self@,
    {
        Witness { e: copy_of(&self.e), r_e: self.r_e, w: copy_of(&self.w), r_w: self.r_w }
    }

    /// The instance that commits to the witness, with the public values `x`.
    pub fn commit<CS: CommitmentScheme<Fq, Grumpkin>>(&self, cs: &CS, x: &Vec<Fq>) -> (r: Option<
        CommittedInstance,
    >)
        ensures
            r is Some <==> self@.commit(*cs, x@) is Some,
            r matches Some(u) ==> Some(u@) == self@.commit(*cs, x@),
    {
        let cm_e = if is_zero_vec(&self.e) {
            Grumpkin::Infinity
        } else {
            match cs.commit(&self.e, &self.r_e) {
                None => { return None; },
                Some(p) => p,
            }
        };
        match cs.commit(&self.w, &self.r_w) {
            None => None,
            Some(cm_w) => Some(CommittedInstance { cm_e, u: Fq::one(), cm_w, x: copy_of(x) }),
        }
    }
}

/// What a fold on the second curve gives.
#[derive(Debug)]
pub struct PairFold {
    /// The incoming witness and instance.
    pub incoming_witness: Witness,
    pub incoming: CommittedInstance,
    /// The running witness and instance after the fold.
    pub witness: Witness,
    pub instance: CommittedInstance,
    /// The commitment to the cross term.
    pub cm_t: Grumpkin,
    /// The challenge.
    pub r: Fq,
}

#[verifier::ext_equal]
pub struct PairFoldView {
    pub incoming_witness: WitnessView,
    pub incoming: CommittedInstanceView,
    pub witness: WitnessView,
    pub instance: CommittedInstanceView,
    pub cm_t: Grumpkin,
    pub r: Fq,
}

impl View for PairFold {
    type V = PairFoldView;

    open spec fn view(&self) -> PairFoldView {
        PairFoldView {
            incoming_witness: self.incoming_witness@,
            incoming: self.incoming@,
            witness: self.witness@,
            instance: self.instance@,
            cm_t: self.cm_t,
            r: self.r,
        }
    }
}

/// The challenge that stands for the given bits.
pub open spec fn fq_challenge(bits: Seq<bool>) -> Fq {
    Fq::of(bits_value(bits) % fq_modulus())
}

/// What the fold of a running witness and a fresh assignment gives. The
/// assignment's public values `x` have to be the expected ones.
pub open spec fn pair_fold<CS: CommitmentScheme<Fq, Grumpkin>>(
    t: SpongeView,
    r1cs: R1CS<Fq>,
    cs: CS,
    pp_hash: Fr,
    witness: WitnessView,
    instance: CommittedInstanceView,
    expected_x: Seq<Fq>,
    w: Seq<Fq>,
    x: Seq<Fq>,
    r_w: Fq,
    r_e: Fq,
) -> Result<PairFoldView, ErrorView> {
    let incoming_witness = WitnessView::strict(w, r1cs.a.n_rows as nat, r_w, r_e);
    let incoming = incoming_witness.commit(cs, x);
    let z1 = R1CS::assignment(incoming->0.u, x, w);
    let z2 = R1CS::assignment(instance.u, instance.x, witness.w);
    let cross = r1cs.cross_term(incoming->0.u, z1, instance.u, z2);
    let cm_t = cs.commit_spec(cross, f_zero::<Fq>());
    let r = fq_challenge(
        pair_transcript(t, pp_hash, instance.absorbed(), incoming->0.absorbed(), cm_t->0).output_bits(
            N_BITS_RO as nat,
        ),
    );
    if x != expected_x {
        Err(ErrorView::NotEqual)
    } else if incoming is None || cm_t is None {
        Err(ErrorView::CommitmentFail)
    } else {
        Ok(
            PairFoldView {
                incoming_witness,
                incoming: incoming->0,
                witness: witness.folded(r, incoming_witness, cross),
                instance: instance.folded(r, incoming->0, cm_t->0),
                cm_t: cm_t->0,
                r,
            },
        )
    }
}

/// The transcript after a fold that succeeded.
pub open spec fn pair_fold_transcript(
    t: SpongeView,
    pp_hash: Fr,
    instance: CommittedInstanceView,
    fold: PairFoldView,
) -> SpongeView {
    pair_transcript(t, pp_hash, instance.absorbed(), fold.incoming.absorbed(), fold.cm_t).squeezed(
        SpongeView::elements_for_bits(N_BITS_RO as nat),
    )
}

pub open spec fn fold_outcome(r: Result<PairFold, Error>) -> Result<PairFoldView, ErrorView> {
    match r {
        Ok(f) => Ok(f@),
        Err(e) => Err(e@),
    }
}

/// The bits of the challenge of a fold on the second curve, and the transcript
/// after it.
pub fn pair_challenge(
    transcript: &mut Sponge,
    pp_hash: &Fr,
    running: &Vec<Fr>,
    incoming: &Vec<Fr>,
    cm_t: &Grumpkin,
) -> (r: Vec<bool>)
    requires
        old(transcript).wf(),
    ensures
        r@ == pair_transcript(old(transcript)@, *pp_hash, running@, incoming@, *cm_t).output_bits(N_BITS_RO as nat),
        r@.len() == N_BITS_RO,
        final(transcript)@ == pair_transcript(old(transcript)@, *pp_hash, running@, incoming@, *cm_t).squeezed(
            SpongeView::elements_for_bits(N_BITS_RO as nat),
        ),
{
    transcript.absorb_one(pp_hash);
    transcript.absorb(running);
    transcript.absorb(incoming);
    let (tx, ty) = cm_t.coordinates();
    transcript.absorb_one(&tx);
    transcript.absorb_one(&ty);
    transcript.squeeze_bits(N_BITS_RO)
}

/// A challenge of few bits is below the modulus.
pub fn challenge_to_fq(bits: &Vec<bool>) -> (r: Fq)
    requires
        bits@.len() == N_BITS_RO,
    ensures
        r == fq_challenge(bits@),
        bits_value(bits@) < fq_modulus(),
{
    proof {
        crate::bigint::lemma_bits_bound(bits@);
        vstd::arithmetic::power2::lemma_pow2_strictly_increases(128, 220);
        crate::limbs::lemma_powers();
        vstd::arithmetic::div_mod::lemma_small_mod(bits_value(bits@), fq_modulus());
    }
    match fq_from_bits(bits) {
        Some(r) => r,
        None => {
            assert(false);
            Fq::zero()
        },
    }
}

/// A challenge is below the modulus.
pub proof fn lemma_challenge_canonical(bits: Seq<bool>)
    ensures
        crate::field::canonical(fq_challenge(bits)),
{
    Fq::lemma_modulus();
    vstd::arithmetic::div_mod::lemma_mod_bound(bits_value(bits) as int, fq_modulus() as int);
    Fq::lemma_val_of(bits_value(bits) % fq_modulus());
}

/// The sum of a multiple of the incoming instance and the running one.
pub fn fold_pair_instances(r: &Fq, cm_t: &Grumpkin, ci1: &CommittedInstance, ci2: &CommittedInstance) -> (ci3:
    CommittedInstance)
    ensures
        ci3@ == ci1@.folded(*r, ci2@, *cm_t),
{
    CommittedInstance {
        cm_e: cm_t.times(r).plus(&ci1.cm_e),
        u: ci1.u.plus(r),
        cm_w: ci1.cm_w.plus(&ci2.cm_w.times(r)),
        x: fold_vectors(&ci1.x, r, &ci2.x),
    }
}

/// Folds a fresh assignment into a running witness. The synthesis of the circuit
/// hands over the assignment: the secret values `w` and the public values `x`.
pub fn fold_pair<CS: CommitmentScheme<Fq, Grumpkin>>(
    transcript: &mut Sponge,
    r1cs: &R1CS<Fq>,
    cs: &CS,
    pp_hash: &Fr,
    witness: &Witness,
    instance: &CommittedInstance,
    expected_x: &Vec<Fq>,
    w: &Vec<Fq>,
    x: &Vec<Fq>,
    r_w: &Fq,
    r_e: &Fq,
) -> (r: Result<PairFold, Error>)
    requires
        old(transcript).wf(),
        r1cs.wf(),
        1 + x@.len() + w@.len() == r1cs.a.n_cols,
        instance.x@.len() == x@.len(),
        witness.w@.len() == w@.len(),
        witness.e@.len() == r1cs.a.n_rows,
    ensures
        fold_outcome(r) == pair_fold(
            old(transcript)@,
            *r1cs,
            *cs,
            *pp_hash,
            witness@,
            instance@,
            expected_x@,
            w@,
            x@,
            *r_w,
            *r_e,
        ),
        r matches Ok(f) ==> final(transcript)@ == pair_fold_transcript(
            old(transcript)@,
            *pp_hash,
            instance@,
            f@,
        ),
        r is Err ==> final(transcript)@ == old(transcript)@,
{
    if !crate::vecs::same_elements(x, expected_x) {
        return Err(Error::NotEqual);
    }
    let incoming_witness = Witness {
        e: filled(Fq::zero(), r1cs.a.n_rows),
        r_e: *r_e,
        w: copy_of(w),
        r_w: *r_w,
    };
    assert(incoming_witness@ =~= WitnessView::strict(w@, r1cs.a.n_rows as nat, *r_w, *r_e));
    let incoming = match incoming_witness.commit(cs, x) {
        None => { return Err(Error::CommitmentFail); },
        Some(u) => u,
    };
    let z1 = R1CS::assemble(&incoming.u, x, w);
    let z2 = R1CS::assemble(&instance.u, &instance.x, &witness.w);
    let cross = r1cs.compute_cross_term(&incoming.u, &z1, &instance.u, &z2);
    let zero = Fq::zero();
    let cm_t = match cs.commit(&cross, &zero) {
        None => { return Err(Error::CommitmentFail); },
        Some(p) => p,
    };
    let running_elems = instance.to_native_sponge_field_elements();
    let incoming_elems = incoming.to_native_sponge_field_elements();
    let bits = pair_challenge(transcript, pp_hash, &running_elems, &incoming_elems, &cm_t);
    let r = challenge_to_fq(&bits);
    let next_instance = fold_pair_instances(&r, &cm_t, instance, &incoming);
    let next_witness = Witness {
        e: fold_vectors(&witness.e, &r, &cross),
        r_e: witness.r_e,
        w: fold_vectors(&witness.w, &r, w),
        r_w: witness.r_w.plus(&r.times(r_w)),
    };
    Ok(
        PairFold {
            incoming_witness,
            incoming,
            witness: next_witness,
            instance: next_instance,
            cm_t,
            r,
        },
    )
}

} // verus!
