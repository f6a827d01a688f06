//! The CyclePair circuit, which checks one pairing, and the folding of its
//! instances.
use vstd::prelude::*;
use crate::commitment::CommitmentScheme;
use crate::curve::ark_gt_mul;
use crate::curve::ark_pairing;
use crate::curve::gt_mul;
use crate::curve::pairing;
use crate::curve::Fq2;
use crate::curve::Grumpkin;
use crate::curve::G1;
use crate::curve::G2;
use crate::curve::GT_LEN;
use crate::cyclefold::PairAssignment;
use crate::cyclefold::PairContext;
use crate::cyclefold::PairState;
use crate::error::outcome;
use crate::error::Error;
use crate::error::ErrorView;
use crate::field::f_one;
use crate::field::f_zero;
use crate::field::Field;
use crate::field_fq::Fq;
use crate::field_fr::Fr;
use crate::nova::fold_outcome;
use crate::nova::fold_pair_instances;
use crate::nova::is_zero_vec;
use crate::nova::all_zero;
use crate::nova::pair_challenge;
use crate::nova::pair_transcript;
use crate::nova::CommittedInstance;
use crate::nova::PairFold;
use crate::nova::PairFoldView;
use crate::nova::Witness;
use crate::sponge::Sponge;
use crate::sponge::SpongeView;
use crate::sponge::N_BITS_RO;
use crate::vecs::copy_of;
use crate::vecs::copy_range;
use crate::vecs::filled;
use crate::vecs::push_all;
use crate::vecs::repeated;
use crate::vecs::same_elements;

verus! {

/// How many public values a CyclePair circuit has.
pub const CP_IO_LEN: usize = 32;

/// How many public values a CyclePair circuit has: two target elements, a point of
/// the first and one of the second group.
pub fn cp_io_len() -> (n: usize)
    ensures
        n == CP_IO_LEN,
        n == 3 + 5 + 2 * GT_LEN,
{
    let g1_num: usize = 3;
    let g2_num: usize = 5;
    g1_num + g2_num + 2 * GT_LEN
}

/// The elements of a point of the first group: its coordinates, and whether it is
/// the point at infinity.
pub open spec fn g1_elements(p: G1) -> Seq<Fq> {
    match p {
        G1::Infinity => seq![f_zero::<Fq>(), f_zero::<Fq>(), f_one::<Fq>()],
        G1::Point(x, y) => seq![x, y, f_zero::<Fq>()],
    }
}

/// The elements of a point of the second group: the two elements of each of its
/// coordinates, and whether it is the point at infinity.
pub open spec fn g2_elements(p: G2) -> Seq<Fq> {
    match p {
        G2::Infinity => seq![
            f_zero::<Fq>(),
            f_zero::<Fq>(),
            f_zero::<Fq>(),
            f_zero::<Fq>(),
            f_one::<Fq>(),
        ],
        G2::Point(x, y) => seq![x.c0, x.c1, y.c0, y.c1, f_zero::<Fq>()],
    }
}

/// The elements of a point of the first group.
pub fn g1_to_field_elements(p: &G1) -> (r: Vec<Fq>)
    ensures
        r@ == g1_elements(*p),
{
    let mut r: Vec<Fq> = Vec::new();
    match p {
        G1::Infinity => {
            r.push(Fq::zero());
            r.push(Fq::zero());
            r.push(Fq::one());
        },
        G1::Point(x, y) => {
            r.push(*x);
            r.push(*y);
            r.push(Fq::zero());
        },
    }
    assert(r@ =~= g1_elements(*p));
    r
}

/// The elements of a point of the second group.
pub fn g2_to_field_elements(p: &G2) -> (r: Vec<Fq>)
    ensures
        r@ == g2_elements(*p),
{
    let mut r: Vec<Fq> = Vec::new();
    match p {
        G2::Infinity => {
            r.push(Fq::zero());
            r.push(Fq::zero());
            r.push(Fq::zero());
            r.push(Fq::zero());
            r.push(Fq::one());
        },
        G2::Point(x, y) => {
            r.push(x.c0);
            r.push(x.c1);
            r.push(y.c0);
            r.push(y.c1);
            r.push(Fq::zero());
        },
    }
    assert(r@ =~= g2_elements(*p));
    r
}

/// The zero of the quadratic extension.
pub open spec fn fq2_zero() -> Fq2 {
    Fq2 { c0: f_zero::<Fq>(), c1: f_zero::<Fq>() }
}

impl G2 {
    /// The point with the given coordinates, where zeros stand for infinity.
    pub open spec fn of_xy(x: Fq2, y: Fq2) -> G2 {
        if x == fq2_zero() && y == fq2_zero() {
            G2::Infinity
        } else {
            G2::Point(x, y)
        }
    }

    /// Whether the point is not written with the coordinates that stand for
    /// infinity.
    pub open spec fn proper(self) -> bool {
        self != G2::Point(fq2_zero(), fq2_zero())
    }
}

/// The point of the first group with the given elements: its coordinates and a third
/// element that does not count. Coordinates of zero stand for infinity.
pub fn projective_from_field_elements(v: &Vec<Fq>) -> (r: G1)
    requires
        v@.len() == 3,
    ensures
        r == G1::of_xy(v@[0], v@[1]),
{
    G1::from_coordinates(&v[0], &v[1])
}

/// The point of the second group with the given elements: its coordinates and two
/// elements that do not count. Coordinates of zero stand for infinity.
pub fn projective_from_field_elements_g2(v: &Vec<Fq>) -> (r: G2)
    requires
        v@.len() == 6,
    ensures
        r == G2::of_xy(Fq2 { c0: v@[0], c1: v@[1] }, Fq2 { c0: v@[2], c1: v@[3] }),
{
    let zero = Fq::zero();
    let x = Fq2 { c0: v[0], c1: v[1] };
    let y = Fq2 { c0: v[2], c1: v[3] };
    if x.c0.same(&zero) && x.c1.same(&zero) && y.c0.same(&zero) && y.c1.same(&zero) {
        G2::Infinity
    } else {
        G2::Point(x, y)
    }
}

/// The circuit that checks `gt2 = gt1 * e(a, b)`. The target elements are held by
/// their coefficients.
#[derive(Debug)]
pub struct CyclePairCircuit {
    pub gt1: Vec<Fq>,
    pub a: G1,
    pub b: G2,
    pub gt2: Vec<Fq>,
    /// The public values.
    pub x: Vec<Fq>,
}

#[verifier::ext_equal]
pub struct CyclePairCircuitView {
    pub gt1: Seq<Fq>,
    pub a: G1,
    pub b: G2,
    pub gt2: Seq<Fq>,
    pub x: Seq<Fq>,
}

impl View for CyclePairCircuit {
    type V = CyclePairCircuitView;

    open spec fn view(&self) -> CyclePairCircuitView {
        CyclePairCircuitView { gt1: self.gt1@, a: self.a, b: self.b, gt2: self.gt2@, x: self.x@ }
    }
}

/// The public values of a circuit for the given values.
pub open spec fn pair_elements(gt1: Seq<Fq>, a: G1, b: G2, gt2: Seq<Fq>) -> Seq<Fq> {
    gt1 + g1_elements(a) + g2_elements(b) + gt2
}

impl CyclePairCircuitView {
    /// The circuit for which the given elements are the public values.
    pub open spec fn of_elements(v: Seq<Fq>) -> CyclePairCircuitView {
        CyclePairCircuitView {
            gt1: v.subrange(0, 12),
            a: G1::of_xy(v[12], v[13]),
            b: G2::of_xy(Fq2 { c0: v[15], c1: v[16] }, Fq2 { c0: v[17], c1: v[18] }),
            gt2: v.subrange(20, 32),
            x: v,
        }
    }

    /// Whether the circuit's constraints hold.
    pub open spec fn satisfied(self) -> bool {
        &&& pairing(self.a, self.b) is Some
        &&& gt_mul(self.gt1, pairing(self.a, self.b)->0) == self.gt2
        &&& self.x == pair_elements(self.gt1, self.a, self.b, self.gt2)
    }

    pub open spec fn wf(self) -> bool {
        self.gt1.len() == GT_LEN && self.gt2.len() == GT_LEN
    }
}

impl CyclePairCircuit {
    /// The circuit of zeros.
    pub fn empty() -> (r: CyclePairCircuit)
        ensures
            r@.wf(),
            r.gt1@ == repeated(f_zero::<Fq>(), GT_LEN as nat),
            r.gt2@ == repeated(f_zero::<Fq>(), GT_LEN as nat),
            r.a == G1::Infinity,
            r.b == G2::Infinity,
            r.x@ == pair_elements(r.gt1@, r.a, r.b, r.gt2@),
            r.x@.len() == CP_IO_LEN,
    {
        let gt1 = filled(Fq::zero(), GT_LEN);
        let gt2 = filled(Fq::zero(), GT_LEN);
        let x = CyclePairCircuit::real_inst_to_fq(&gt1, &G1::Infinity, &G2::Infinity, &gt2);
        CyclePairCircuit { gt1, a: G1::Infinity, b: G2::Infinity, gt2, x }
    }

    /// The public values of a circuit for the given values.
    pub fn real_inst_to_fq(gt1: &Vec<Fq>, a: &G1, b: &G2, gt2: &Vec<Fq>) -> (r: Vec<Fq>)
        ensures
            r@ == pair_elements(gt1@, *a, *b, gt2@),
    {
        let mut r = copy_of(gt1);
        push_all(&mut r, &g1_to_field_elements(a));
        push_all(&mut r, &g2_to_field_elements(b));
        push_all(&mut r, gt2);
        r
    }

    /// The circuit for which the given elements are the public values.
    pub fn from_vec_fq(v: &Vec<Fq>) -> (r: CyclePairCircuit)
        requires
            v@.len() == CP_IO_LEN,
        ensures
            r@ == CyclePairCircuitView::of_elements(v@),
            r@.wf(),
    {
        let gt1 = copy_range(v, 0, 12);
        let vec_a = copy_range(v, 12, 15);
        let mut vec_b = copy_range(v, 15, 20);
        vec_b.push(Fq::zero());
        let gt2 = copy_range(v, 20, 32);
        let a = projective_from_field_elements(&vec_a);
        let b = projective_from_field_elements_g2(&vec_b);
        CyclePairCircuit { gt1, a, b, gt2, x: copy_of(v) }
    }

    /// Checks the circuit's constraints: the pairing, and that the public values are
    /// those of the circuit's values. The points are taken to be on their curves.
    pub fn generate_constraints(&self) -> (r: Result<(), Error>)
        requires
            self@.wf(),
        ensures
            outcome(r) == (if self@.satisfied() {
                Ok(())
            } else {
                Err(ErrorView::NotSatisfied)
            }),
            r is Ok <==> {
                &&& pairing(self.a, self.b) is Some
                &&& self.gt2@ == gt_mul(self.gt1@, pairing(self.a, self.b)->0)
                &&& self.x@ == self.gt1@ + g1_elements(self.a) + g2_elements(self.b) + self.gt2@
            },
    {
        match ark_pairing(&self.a, &self.b) {
            None => Err(Error::NotSatisfied),
            Some(e) => {
                let product = ark_gt_mul(&self.gt1, &e);
                let x = CyclePairCircuit::real_inst_to_fq(&self.gt1, &self.a, &self.b, &self.gt2);
                if same_elements(&product, &self.gt2) && same_elements(&self.x, &x) {
                    Ok(())
                } else {
                    Err(Error::NotSatisfied)
                }
            },
        }
    }
}

/// A circuit's public values lead back to its values.
pub proof fn law_pair_elements_round_trip(gt1: Seq<Fq>, a: G1, b: G2, gt2: Seq<Fq>)
    requires
        gt1.len() == GT_LEN,
        gt2.len() == GT_LEN,
        a.proper(),
        b.proper(),
    ensures
        pair_elements(gt1, a, b, gt2).len() == CP_IO_LEN,
        ({
            let c = CyclePairCircuitView::of_elements(pair_elements(gt1, a, b, gt2));
            c.gt1 == gt1 && c.a == a && c.b == b && c.gt2 == gt2
        }),
{
    let v = pair_elements(gt1, a, b, gt2);
    assert(v.subrange(0, 12) =~= gt1);
    assert(v.subrange(20, 32) =~= gt2);
}

/// One if all elements are zero, else zero.
pub fn is_slice_zero(v: &Vec<Fq>) -> (r: Fq)
    ensures
        r == (if all_zero(v@) {
            f_one::<Fq>()
        } else {
            f_zero::<Fq>()
        }),
{
    if is_zero_vec(v) {
        Fq::one()
    } else {
        Fq::zero()
    }
}

/// An instance of the CyclePair circuit as another circuit holds it.
#[derive(Debug)]
pub struct CyclePairCommittedInstanceVar {
    pub value: CommittedInstance,
}

impl CyclePairCommittedInstanceVar {
    /// The instance allocated in a circuit.
    pub fn new_variable(value: &CommittedInstance) -> (r: CyclePairCommittedInstanceVar)
        ensures
            r.value@ == value@,
    {
        CyclePairCommittedInstanceVar { value: value.dup() }
    }

    /// What a sponge absorbs of the instance: `u`, the public values, and the
    /// coordinates of the two commitments.
    pub fn to_native_sponge_field_elements(&self) -> (r: Vec<Fr>)
        ensures
            r@ == self.value@.absorbed(),
    {
        self.value.to_native_sponge_field_elements()
    }

    /// The instance's digest, and the elements that were absorbed of it.
    pub fn hash(&self, sponge: &Sponge, pp_hash: &Fr) -> (r: (Fr, Vec<Fr>))
        requires
            sponge.wf(),
        ensures
            r.0 == self.value@.hash_cyclefold(sponge@, *pp_hash),
            r.1@ == self.value@.absorbed(),
    {
        let mut s = sponge.dup();
        let elems = self.to_native_sponge_field_elements();
        s.absorb_one(pp_hash);
        s.absorb(&elems);
        (s.squeeze_one(), elems)
    }
}

/// The fold of instances of the CyclePair circuit as another circuit checks it.
#[derive(Debug, Clone, Copy)]
pub struct NIFSFullGadgetCyclePair {}

impl NIFSFullGadgetCyclePair {
    /// The fold of a running instance and one that is not relaxed.
    pub fn fold_committed_instance(
        r: &Fq,
        cm_t: &Grumpkin,
        ci1: &CyclePairCommittedInstanceVar,
        ci2: &CyclePairCommittedInstanceVar,
    ) -> (ci3: CyclePairCommittedInstanceVar)
        ensures
            ci3.value@ == ci1.value@.folded(*r, ci2.value@, *cm_t),
    {
        CyclePairCommittedInstanceVar { value: fold_pair_instances(r, cm_t, &ci1.value, &ci2.value) }
    }

    /// Holds `ci3` to the fold of the other two. Public values are compared as far as
    /// both have them.
    pub fn verify(
        r: &Fq,
        cm_t: &Grumpkin,
        ci1: &CyclePairCommittedInstanceVar,
        ci2: &CyclePairCommittedInstanceVar,
        ci3: &CyclePairCommittedInstanceVar,
    ) -> (res: Result<(), Error>)
        ensures
            outcome(res) == ({
                let ci = ci1.value@.folded(*r, ci2.value@, *cm_t);
                if ci.cm_e == ci3.value.cm_e && ci.u == ci3.value.u && ci.cm_w == ci3.value.cm_w
                    && agree_on_common(ci.x, ci3.value.x@) {
                    Ok(())
                } else {
                    Err(ErrorView::NotSatisfied)
                }
            }),
    {
        let ci = NIFSFullGadgetCyclePair::fold_committed_instance(r, cm_t, ci1, ci2);
        if ci.value.cm_e != ci3.value.cm_e || !ci.value.u.same(&ci3.value.u) || ci.value.cm_w != ci3.value.cm_w {
            return Err(Error::NotSatisfied);
        }
        let mut i: usize = 0;
        while i < ci.value.x.len() && i < ci3.value.x.len()
            invariant
                i <= ci.value.x@.len(),
                i <= ci3.value.x@.len(),
                forall|k: int| 0 <= k < i ==> ci.value.x@[k] == ci3.value.x@[k],
                ci.value@ == ci1.value@.folded(*r, ci2.value@, *cm_t),
            decreases ci.value.x.len() - i,
        {
            if !ci.value.x[i].same(&ci3.value.x[i]) {
                return Err(Error::NotSatisfied);
            }
            i = i + 1;
        }
        Ok(())
    }
}

/// Whether two lists have the same elements at the places that both have.
pub open spec fn agree_on_common<F>(a: Seq<F>, b: Seq<F>) -> bool {
    forall|k: int| 0 <= k < a.len() && k < b.len() ==> a[k] == b[k]
}

/// The challenge of a fold of instances of the CyclePair circuit.
#[derive(Debug, Clone, Copy)]
pub struct CyclePairChallengeGadget {}

impl CyclePairChallengeGadget {
    /// The bits of the challenge: the parameters' digest, the running and the
    /// incoming instance and the coordinates of the cross term's commitment are
    /// absorbed.
    pub fn get_challenge_native(
        transcript: &mut Sponge,
        pp_hash: &Fr,
        running: &CommittedInstance,
        incoming: &CommittedInstance,
        cm_t: &Grumpkin,
    ) -> (r: Vec<bool>)
        requires
            old(transcript).wf(),
        ensures
            r@ == pair_transcript(
                old(transcript)@,
                *pp_hash,
                running@.absorbed(),
                incoming@.absorbed(),
                *cm_t,
            ).output_bits(N_BITS_RO as nat),
            r@.len() == N_BITS_RO,
            final(transcript)@ == pair_transcript(
                old(transcript)@,
                *pp_hash,
                running@.absorbed(),
                incoming@.absorbed(),
                *cm_t,
            ).squeezed(SpongeView::elements_for_bits(N_BITS_RO as nat)),
    {
        let running_elems = running.to_native_sponge_field_elements();
        let incoming_elems = incoming.to_native_sponge_field_elements();
        pair_challenge(transcript, pp_hash, &running_elems, &incoming_elems, cm_t)
    }

    /// The bits of the challenge as a circuit asks for them: the running instance's
    /// elements are given.
    pub fn get_challenge_gadget(
        transcript: &mut Sponge,
        pp_hash: &Fr,
        running: &Vec<Fr>,
        incoming: &CyclePairCommittedInstanceVar,
        cm_t: &Grumpkin,
    ) -> (r: Vec<bool>)
        requires
            old(transcript).wf(),
        ensures
            r@ == pair_transcript(
                old(transcript)@,
                *pp_hash,
                running@,
                incoming.value@.absorbed(),
                *cm_t,
            ).output_bits(N_BITS_RO as nat),
            r@.len() == N_BITS_RO,
            final(transcript)@ == pair_transcript(
                old(transcript)@,
                *pp_hash,
                running@,
                incoming.value@.absorbed(),
                *cm_t,
            ).squeezed(SpongeView::elements_for_bits(N_BITS_RO as nat)),
    {
        let incoming_elems = incoming.to_native_sponge_field_elements();
        pair_challenge(transcript, pp_hash, running, &incoming_elems, cm_t)
    }
}

/// Folds a CyclePair circuit into the running witness. The circuit's public values
/// have to be the expected ones; its synthesis gives the assignment.
pub fn fold_cyclepair_circuit<CS: CommitmentScheme<Fq, Grumpkin>>(
    ctx: &PairContext<CS>,
    transcript: &mut Sponge,
    pp_hash: &Fr,
    witness: &Witness,
    instance: &CommittedInstance,
    expected_x: &Vec<Fq>,
    circuit: &CyclePairCircuit,
    assignment: &PairAssignment,
) -> (r: Result<PairFold, Error>)
    requires
        old(transcript).wf(),
        ctx.r1cs.wf(),
        ctx.r1cs.l == CP_IO_LEN,
        (PairState { witness: witness@, instance: instance@, transcript: old(transcript)@ }).wf(ctx.r1cs),
        circuit.x@.len() == CP_IO_LEN,
        assignment.w@.len() == witness.w@.len(),
    ensures
        ({
            let s = PairState { witness: witness@, instance: instance@, transcript: old(transcript)@ };
            &&& fold_outcome(r) == (if circuit.x@ != expected_x@ {
                Err::<PairFoldView, ErrorView>(ErrorView::NotEqual)
            } else {
                ctx.fold_spec(*pp_hash, s, circuit.x@, assignment@)
            })
            &&& r matches Ok(f) ==> {
                &&& final(transcript)@ == ctx.after(*pp_hash, s, f@).transcript
                &&& ctx.after(*pp_hash, s, f@).wf(ctx.r1cs)
                &&& f@.witness.w.len() == witness.w@.len()
            }
            &&& r is Err ==> final(transcript)@ == old(transcript)@
        }),
{
    if !same_elements(&circuit.x, expected_x) {
        return Err(Error::NotEqual);
    }
    ctx.fold_circuit(transcript, pp_hash, witness, instance, &circuit.x, assignment)
}

} // verus!
