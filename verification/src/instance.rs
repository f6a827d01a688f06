//! Instances and witnesses on the first curve. Besides the commitments to the
//! witness and to the error, an instance holds one to the fixed memory: the
//! segment of the witness that no challenge has a part in.
use vstd::prelude::*;
use crate::commitment::CommitmentScheme;
use crate::curve::G1;
use crate::error::outcome;
use crate::error::Error;
use crate::error::ErrorView;
use crate::field::f_one;
use crate::field::f_zero;
use crate::field::Field;
use crate::field_fq::Fq;
use crate::field_fr::Fr;
use crate::limbs::absorb_fr;
use crate::limbs::absorb_g1;
use crate::limbs::fr_absorbed;
use crate::limbs::g1_absorbed;
use crate::nova::all_zero;
use crate::nova::is_zero_vec;
use crate::r1cs::R1CS;
use crate::sponge::Sponge;
use crate::sponge::SpongeView;
use crate::vecs::copy_of;
use crate::vecs::copy_range;
use crate::vecs::filled;
use crate::vecs::push_all;
use crate::vecs::repeated;

verus! {

/// The public part of a relaxed witness.
#[derive(Debug)]
pub struct CommittedInstanceFoldPot {
    pub cm_e: G1,
    pub u: Fr,
    pub cm_w: G1,
    pub x: Vec<Fr>,
    /// The commitment to the fixed memory.
    pub cm_f: G1,
}

#[verifier::ext_equal]
pub struct InstanceView {
    pub cm_e: G1,
    pub u: Fr,
    pub cm_w: G1,
    pub x: Seq<Fr>,
    pub cm_f: G1,
}

impl View for CommittedInstanceFoldPot {
    type V = InstanceView;

    open spec fn view(&self) -> InstanceView {
        InstanceView { cm_e: self.cm_e, u: self.u, cm_w: self.cm_w, x: self.x@, cm_f: self.cm_f }
    }
}

/// What is absorbed of a list of elements of the scalar field by a sponge over the
/// base field.
pub open spec fn frs_absorbed(v: Seq<Fr>) -> Seq<Fq>
    decreases v.len(),
{
    if v.len() == 0 {
        Seq::empty()
    } else {
        frs_absorbed(v.drop_last()) + fr_absorbed(v.last())
    }
}

impl InstanceView {
    /// An instance of zeros with `io_len` public values.
    pub open spec fn dummy(io_len: nat) -> InstanceView {
        InstanceView {
            cm_e: G1::Infinity,
            u: f_zero::<Fr>(),
            cm_w: G1::Infinity,
            x: repeated(f_zero::<Fr>(), io_len),
            cm_f: G1::Infinity,
        }
    }

    /// What a sponge absorbs of the instance: `u`, the public values and the three
    /// commitments.
    pub open spec fn absorbed(self) -> Seq<Fr> {
        seq![self.u] + self.x + g1_absorbed(self.cm_e) + g1_absorbed(self.cm_w) + g1_absorbed(self.cm_f)
    }

    /// What a sponge over the base field absorbs of the instance: `u`, the public
    /// values and the coordinates of the three commitments.
    pub open spec fn absorbed_by_base(self) -> Seq<Fq> {
        fr_absorbed(self.u) + frs_absorbed(self.x) + seq![
            self.cm_e.xy().0,
            self.cm_e.xy().1,
            self.cm_w.xy().0,
            self.cm_w.xy().1,
            self.cm_f.xy().0,
            self.cm_f.xy().1,
        ]
    }

    /// The digest of the parameters, the step, the first and the current state, and
    /// the instance.
    pub open spec fn hash(self, sponge: SpongeView, pp_hash: Fr, i: Fr, z_0: Seq<Fr>, z_i: Seq<Fr>) -> Fr {
        sponge.absorbed(seq![pp_hash]).absorbed(seq![i]).absorbed(z_0).absorbed(z_i).absorbed(
            self.absorbed(),
        ).output(1)[0]
    }
}

impl CommittedInstanceFoldPot {
    pub fn dummy(io_len: usize) -> (r: CommittedInstanceFoldPot)
        ensures
            r@ == InstanceView::dummy(io_len as nat),
    {
        CommittedInstanceFoldPot {
            cm_e: G1::Infinity,
            u: Fr::zero(),
            cm_w: G1::Infinity,
            x: filled(Fr::zero(), io_len),
            cm_f: G1::Infinity,
        }
    }

    pub fn dup(&self) -> (r: CommittedInstanceFoldPot)
        ensures
            r@ == self@,
    {
        CommittedInstanceFoldPot {
            cm_e: self.cm_e,
            u: self.u,
            cm_w: self.cm_w,
            x: copy_of(&self.x),
            cm_f: self.cm_f,
        }
    }

    /// What a sponge absorbs of the instance.
    pub fn to_sponge_field_elements(&self) -> (r: Vec<Fr>)
        ensures
            r@ == self@.absorbed(),
    {
        let mut r: Vec<Fr> = Vec::new();
        r.push(self.u);
        push_all(&mut r, &self.x);
        push_all(&mut r, &absorb_g1(&self.cm_e));
        push_all(&mut r, &absorb_g1(&self.cm_w));
        push_all(&mut r, &absorb_g1(&self.cm_f));
        assert(r@ =~= self@.absorbed());
        r
    }

    /// What a sponge over the base field absorbs of the instance.
    pub fn to_native_sponge_field_elements(&self) -> (r: Vec<Fq>)
        ensures
            r@ == self@.absorbed_by_base(),
    {
        let mut r = absorb_fr(&self.u);
        let ghost head = r@;
        let mut i: usize = 0;
        assert(self.x@.take(0) =~= Seq::empty());
        while i < self.x.len()
            invariant
                i <= self.x@.len(),
                head == fr_absorbed(self.u),
                r@ == head + frs_absorbed(self.x@.take(i as int)),
            decreases self.x.len() - i,
        {
            push_all(&mut r, &absorb_fr(&self.x[i]));
            assert(self.x@.take(i + 1).drop_last() =~= self.x@.take(i as int));
            i = i + 1;
        }
        assert(self.x@.take(i as int) =~= self.x@);
        let (ex, ey) = self.cm_e.coordinates();
        let (wx, wy) = self.cm_w.coordinates();
        let (fx, fy) = self.cm_f.coordinates();
        r.push(ex);
        r.push(ey);
        r.push(wx);
        r.push(wy);
        r.push(fx);
        r.push(fy);
        assert(r@ =~= self@.absorbed_by_base());
        r
    }

    /// The digest of the parameters, the step, the first and the current state, and
    /// the instance. The sponge is left as it is.
    pub fn hash(&self, sponge: &Sponge, pp_hash: &Fr, i: &Fr, z_0: &Vec<Fr>, z_i: &Vec<Fr>) -> (h: Fr)
        requires
            sponge.wf(),
        ensures
            h == self@.hash(sponge@, *pp_hash, *i, z_0@, z_i@),
    {
        let mut s = sponge.dup();
        s.absorb_one(pp_hash);
        s.absorb_one(i);
        s.absorb(z_0);
        s.absorb(z_i);
        s.absorb(&self.to_sponge_field_elements());
        s.squeeze_one()
    }
}

/// The secret part of a relaxed witness.
#[derive(Debug)]
pub struct WitnessFoldPot {
    pub e: Vec<Fr>,
    pub r_e: Fr,
    pub w: Vec<Fr>,
    pub r_w: Fr,
    /// The size of the fixed memory.
    pub size_f: usize,
    /// Where in the witness the fixed memory starts.
    pub start_f: usize,
    /// The blinding value of the commitment to the fixed memory.
    pub r_f: Fr,
}

#[verifier::ext_equal]
pub struct WitnessFoldPotView {
    pub e: Seq<Fr>,
    pub r_e: Fr,
    pub w: Seq<Fr>,
    pub r_w: Fr,
    pub size_f: nat,
    pub start_f: nat,
    pub r_f: Fr,
}

impl View for WitnessFoldPot {
    type V = WitnessFoldPotView;

    open spec fn view(&self) -> WitnessFoldPotView {
        WitnessFoldPotView {
            e: self.e@,
            r_e: self.r_e,
            w: self.w@,
            r_w: self.r_w,
            size_f: self.size_f as nat,
            start_f: self.start_f as nat,
            r_f: self.r_f,
        }
    }
}

/// Blinding values, drawn in this order.
#[derive(Clone, Copy, Debug)]
pub struct Blinds {
    pub r_w: Fr,
    pub r_e: Fr,
    pub r_f: Fr,
}

impl WitnessFoldPotView {
    /// A witness that is not relaxed. Its blinding values are zero unless the
    /// commitments are hiding.
    pub open spec fn new(w: Seq<Fr>, e_len: nat, hiding: bool, blinds: Blinds, size_f: nat, start_f: nat) -> Self {
        WitnessFoldPotView {
            e: repeated(f_zero::<Fr>(), e_len),
            r_e: if hiding { blinds.r_e } else { f_zero::<Fr>() },
            w,
            r_w: if hiding { blinds.r_w } else { f_zero::<Fr>() },
            size_f,
            start_f,
            r_f: if hiding { blinds.r_f } else { f_zero::<Fr>() },
        }
    }

    pub open spec fn dummy(w_len: nat, e_len: nat, size_f: nat, start_f: nat) -> Self {
        WitnessFoldPotView {
            e: repeated(f_zero::<Fr>(), e_len),
            r_e: f_zero::<Fr>(),
            w: repeated(f_zero::<Fr>(), w_len),
            r_w: f_zero::<Fr>(),
            size_f,
            start_f,
            r_f: f_zero::<Fr>(),
        }
    }

    /// Whether the fixed memory lies in the witness.
    pub open spec fn wf(self) -> bool {
        self.start_f + self.size_f <= self.w.len()
    }

    /// The fixed memory.
    pub open spec fn fixed(self) -> Seq<Fr> {
        self.w.subrange(self.start_f as int, (self.start_f + self.size_f) as int)
    }

    /// The instance that commits to the witness, none where a commitment fails.
    pub open spec fn commit<CS: CommitmentScheme<Fr, G1>>(self, cs: CS, x: Seq<Fr>) -> Option<InstanceView> {
        let cm_e = if all_zero(self.e) {
            Some(G1::Infinity)
        } else {
            cs.commit_spec(self.e, self.r_e)
        };
        let cm_w = cs.commit_spec(self.w, self.r_w);
        let cm_f = cs.commit_spec(self.fixed(), self.r_f);
        if cm_e is Some && cm_w is Some && cm_f is Some {
            Some(InstanceView { cm_e: cm_e->0, u: f_one::<Fr>(), cm_w: cm_w->0, x, cm_f: cm_f->0 })
        } else {
            None
        }
    }
}

/// An optional instance as mathematical data.
pub open spec fn opt_instance(r: Option<CommittedInstanceFoldPot>) -> Option<InstanceView> {
    match r {
        Some(u) => Some(u@),
        None => None,
    }
}

impl WitnessFoldPot {
    /// A witness that is not relaxed, whose fixed memory has `size_f` elements from
    /// place `start_f` on. The blinding values count only where the commitments are
    /// hiding.
    pub fn new(
        w: &Vec<Fr>,
        e_len: usize,
        hiding: bool,
        blinds: &Blinds,
        size_f: usize,
        start_f: usize,
    ) -> (r: WitnessFoldPot)
        ensures
            r@ == WitnessFoldPotView::new(w@, e_len as nat, hiding, *blinds, size_f as nat, start_f as nat),
    {
        let zero = Fr::zero();
        let (r_w, r_e, r_f) = if hiding {
            (blinds.r_w, blinds.r_e, blinds.r_f)
        } else {
            (zero, zero, zero)
        };
        WitnessFoldPot { e: filled(zero, e_len), r_e, w: copy_of(w), r_w, size_f, start_f, r_f }
    }

    /// A witness of zeros, whose fixed memory is its first element.
    pub fn dummy(w_len: usize, e_len: usize) -> (r: WitnessFoldPot)
        ensures
            r@ == WitnessFoldPotView::dummy(w_len as nat, e_len as nat, 1, 0),
    {
        WitnessFoldPot {
            e: filled(Fr::zero(), e_len),
            r_e: Fr::zero(),
            w: filled(Fr::zero(), w_len),
            r_w: Fr::zero(),
            size_f: 1,
            start_f: 0,
            r_f: Fr::zero(),
        }
    }

    pub fn dup(&self) -> (r: WitnessFoldPot)
        ensures
            r@ == self@,
    {
        WitnessFoldPot {
            e: copy_of(&self.e),
            r_e: self.r_e,
            w: copy_of(&self.w),
            r_w: self.r_w,
            size_f: self.size_f,
            start_f: self.start_f,
            r_f: self.r_f,
        }
    }

    /// The instance that commits to the witness, with the public values `x`. An
    /// error of zeros is not committed to.
    pub fn commit<CS: CommitmentScheme<Fr, G1>>(&self, cs: &CS, x: &Vec<Fr>) -> (r: Option<
        CommittedInstanceFoldPot,
    >)
        requires
            self@.wf(),
        ensures
            opt_instance(r) == self@.commit(*cs, x@),
    {
        let cm_e = if is_zero_vec(&self.e) {
            G1::Infinity
        } else {
            match cs.commit(&self.e, &self.r_e) {
                None => { return None; },
                Some(p) => p,
            }
        };
        let cm_w = match cs.commit(&self.w, &self.r_w) {
            None => { return None; },
            Some(p) => p,
        };
        let n: usize = self.w.len();
        assert(self.start_f + self.size_f <= n);
        let fixed = copy_range(&self.w, self.start_f, self.start_f + self.size_f);
        match cs.commit(&fixed, &self.r_f) {
            None => None,
            Some(cm_f) => Some(CommittedInstanceFoldPot { cm_e, u: Fr::one(), cm_w, x: copy_of(x), cm_f }),
        }
    }
}

/// What the check of a witness against its instance returns, where neither is
/// relaxed.
pub open spec fn strict_check(r1cs: R1CS<Fr>, w: WitnessFoldPotView, u: InstanceView) -> Result<(), ErrorView> {
    r1cs.check_spec(
        repeated(f_zero::<Fr>(), r1cs.a.n_rows as nat),
        f_one::<Fr>(),
        R1CS::assignment(f_one::<Fr>(), u.x, w.w),
    )
}

/// What the check of a relaxed witness against its instance returns.
pub open spec fn relaxed_check(r1cs: R1CS<Fr>, w: WitnessFoldPotView, u: InstanceView) -> Result<(), ErrorView> {
    r1cs.check_spec(w.e, u.u, R1CS::assignment(u.u, u.x, w.w))
}

/// Checks that the witness satisfies the system, with no regard to `u` and the
/// error.
pub fn check_instance_relation(r1cs: &R1CS<Fr>, w: &WitnessFoldPot, u: &CommittedInstanceFoldPot) -> (r: Result<
    (),
    Error,
>)
    requires
        r1cs.wf(),
    ensures
        outcome(r) == strict_check(*r1cs, w@, u@),
{
    let one = Fr::one();
    let e = filled(Fr::zero(), r1cs.a.n_rows);
    let z = R1CS::assemble(&one, &u.x, &w.w);
    r1cs.check_relaxed(&e, &one, &z)
}

/// Checks that the witness satisfies the relaxed system.
pub fn check_relaxed_instance_relation(r1cs: &R1CS<Fr>, w: &WitnessFoldPot, u: &CommittedInstanceFoldPot) -> (r:
    Result<(), Error>)
    requires
        r1cs.wf(),
    ensures
        outcome(r) == relaxed_check(*r1cs, w@, u@),
{
    let z = R1CS::assemble(&u.u, &u.x, &w.w);
    r1cs.check_relaxed(&w.e, &u.u, &z)
}

/// Whether a dummy with a fixed memory can be made for the system.
pub open spec fn dummy_possible(r1cs: R1CS<Fr>, size_f: nat, start_f: nat) -> bool {
    size_f + start_f <= r1cs.a.n_cols - 1 - r1cs.l
}

/// A witness and an instance of zeros in the sizes of the system.
pub fn dummy_instance_foldpot(r1cs: &R1CS<Fr>, size_f: usize, start_f: usize) -> (r: (
    WitnessFoldPot,
    CommittedInstanceFoldPot,
))
    requires
        r1cs.wf(),
        dummy_possible(*r1cs, size_f as nat, start_f as nat),
    ensures
        r.0@ == WitnessFoldPotView::dummy(
            (r1cs.a.n_cols - 1 - r1cs.l) as nat,
            r1cs.a.n_rows as nat,
            size_f as nat,
            start_f as nat,
        ),
        r.1@ == InstanceView::dummy(r1cs.l as nat),
{
    let w_len: usize = r1cs.a.n_cols - 1 - r1cs.l;
    let mut w = WitnessFoldPot::dummy(w_len, r1cs.a.n_rows);
    w.size_f = size_f;
    w.start_f = start_f;
    (w, CommittedInstanceFoldPot::dummy(r1cs.l))
}

} // verus!
