//! What a fold of two instances and of two witnesses is, in integers and points.
use vstd::prelude::*;
use crate::curve::g1_plus;
use crate::curve::g1_times;
use crate::curve::grumpkin_plus;
use crate::curve::grumpkin_times;
use crate::curve::Grumpkin;
use crate::curve::G1;
use crate::field::lemma_op_values;
use crate::field::lemma_val_injective;
use crate::field::FieldModel;
use crate::field_fq::Fq;
use crate::field_fr::Fr;
use crate::instance::InstanceView;
use crate::instance::WitnessFoldPotView;
use crate::nova::CommittedInstanceView;
use crate::nova::WitnessView;
use crate::r1cs::folded;
use crate::system_laws::law_fold_is_entrywise;
use crate::system_laws::lemma_affine;

verus! {

/// Whether `c` is `a` plus `r` times `b`, modulo the field's modulus.
pub open spec fn is_sum<F: FieldModel>(c: F, a: F, r: F, b: F) -> bool {
    c.val() == (a.val() + r.val() * b.val()) % F::modulus()
}

/// Whether `c` is `a` plus `r` times `b`, entry by entry.
pub open spec fn are_sums<F: FieldModel>(c: Seq<F>, a: Seq<F>, r: F, b: Seq<F>) -> bool {
    &&& c.len() == a.len()
    &&& forall|i: int| 0 <= i < c.len() ==> is_sum(#[trigger] c[i], a[i], r, b[i])
}

/// Whether `u` is the fold of a running and an incoming instance with the challenge `r`
/// and the commitment `cm_t` to the cross term.
pub open spec fn is_instance_fold(u: InstanceView, run: InstanceView, r: Fr, inc: InstanceView, cm_t: G1) -> bool {
    &&& is_sum(u.u, run.u, r, inc.u)
    &&& are_sums(u.x, run.x, r, inc.x)
    &&& u.cm_w == g1_plus(run.cm_w, g1_times(inc.cm_w, r))
    &&& u.cm_e == g1_plus(g1_plus(run.cm_e, g1_times(inc.cm_e, r)), g1_times(cm_t, r))
    &&& u.cm_f == g1_plus(run.cm_f, g1_times(inc.cm_f, r))
}

/// Whether `w` is the fold of a running and an incoming witness with the challenge `r`
/// and the cross term `t`.
pub open spec fn is_witness_fold(
    w: WitnessFoldPotView,
    run: WitnessFoldPotView,
    r: Fr,
    inc: WitnessFoldPotView,
    t: Seq<Fr>,
) -> bool {
    &&& are_sums(w.w, run.w, r, inc.w)
    &&& are_sums(w.e, run.e, r, t)
    &&& is_sum(w.r_w, run.r_w, r, inc.r_w)
    &&& is_sum(w.r_f, run.r_f, r, inc.r_f)
    &&& w.r_e == run.r_e
    &&& w.start_f == run.start_f
    &&& w.size_f == run.size_f
}

/// Whether `u` is the fold of a running instance and one that is not relaxed, on the second
/// curve.
pub open spec fn is_pair_instance_fold(
    u: CommittedInstanceView,
    run: CommittedInstanceView,
    r: Fq,
    inc: CommittedInstanceView,
    cm_t: Grumpkin,
) -> bool {
    &&& u.u.val() == (run.u.val() + r.val()) % Fq::modulus()
    &&& are_sums(u.x, run.x, r, inc.x)
    &&& u.cm_w == grumpkin_plus(run.cm_w, grumpkin_times(inc.cm_w, r))
    &&& u.cm_e == grumpkin_plus(grumpkin_times(cm_t, r), run.cm_e)
}

/// Whether `w` is the fold of a running witness and one that is not relaxed, on the second
/// curve.
pub open spec fn is_pair_witness_fold(w: WitnessView, run: WitnessView, r: Fq, inc: WitnessView, t: Seq<Fq>) -> bool {
    &&& are_sums(w.w, run.w, r, inc.w)
    &&& are_sums(w.e, run.e, r, t)
    &&& is_sum(w.r_w, run.r_w, r, inc.r_w)
    &&& w.r_e == run.r_e
}

/// The fold of two vectors has the sums for its entries, and nothing else has.
pub proof fn law_vector_fold<F: FieldModel>(c: Seq<F>, a: Seq<F>, r: F, b: Seq<F>)
    requires
        a.len() == b.len(),
    ensures
        c == folded(a, r, b) <==> are_sums(c, a, r, b),
{
    law_fold_is_entrywise(a, r, b);
    let f = folded(a, r, b);
    if are_sums(c, a, r, b) {
        assert forall|i: int| 0 <= i < c.len() implies c[i] == f[i] by {
            assert(is_sum(c[i], a[i], r, b[i]));
            lemma_val_injective(c[i], f[i]);
        }
        assert(c =~= f);
    }
}

proof fn lemma_sum<F: FieldModel>(c: F, a: F, r: F, b: F)
    ensures
        c == crate::field::f_add(a, crate::field::f_mul(r, b)) <==> is_sum(c, a, r, b),
{
    lemma_affine(a, r, b);
    if is_sum(c, a, r, b) {
        lemma_val_injective(c, crate::field::f_add(a, crate::field::f_mul(r, b)));
    }
}

/// The fold of two instances adds the incoming one's values and commitments, times the
/// challenge, to the running one's.
pub proof fn law_instance_fold(u: InstanceView, run: InstanceView, r: Fr, inc: InstanceView, cm_t: G1)
    requires
        run.x.len() == inc.x.len(),
    ensures
        u == run.folded(r, inc, cm_t) <==> is_instance_fold(u, run, r, inc, cm_t),
{
    law_vector_fold(u.x, run.x, r, inc.x);
    lemma_sum(u.u, run.u, r, inc.u);
    let f = run.folded(r, inc, cm_t);
    if is_instance_fold(u, run, r, inc, cm_t) {
        assert(u =~= f);
    }
}

/// The public values of a fold of two instances are those of the fold, and its commitments
/// are left out.
pub proof fn law_public_fold(u: InstanceView, run: InstanceView, r: Fr, inc: InstanceView)
    requires
        run.x.len() == inc.x.len(),
    ensures
        u == run.folded_public(r, inc) <==> {
            &&& is_sum(u.u, run.u, r, inc.u)
            &&& are_sums(u.x, run.x, r, inc.x)
            &&& u.cm_w is Infinity && u.cm_e is Infinity && u.cm_f is Infinity
        },
{
    law_vector_fold(u.x, run.x, r, inc.x);
    lemma_sum(u.u, run.u, r, inc.u);
}

/// The fold of two witnesses adds the incoming one's values and the cross term, times the
/// challenge, to the running one's.
pub proof fn law_witness_fold(
    w: WitnessFoldPotView,
    run: WitnessFoldPotView,
    r: Fr,
    inc: WitnessFoldPotView,
    t: Seq<Fr>,
)
    requires
        run.w.len() == inc.w.len(),
        run.e.len() == t.len(),
    ensures
        w == run.folded(r, inc, t) <==> is_witness_fold(w, run, r, inc, t),
{
    law_vector_fold(w.w, run.w, r, inc.w);
    law_vector_fold(w.e, run.e, r, t);
    lemma_sum(w.r_w, run.r_w, r, inc.r_w);
    lemma_sum(w.r_f, run.r_f, r, inc.r_f);
}

/// The same for the instances of the second curve, of which the incoming one is not relaxed.
pub proof fn law_pair_instance_fold(
    u: CommittedInstanceView,
    run: CommittedInstanceView,
    r: Fq,
    inc: CommittedInstanceView,
    cm_t: Grumpkin,
)
    requires
        run.x.len() == inc.x.len(),
    ensures
        u == run.folded(r, inc, cm_t) <==> is_pair_instance_fold(u, run, r, inc, cm_t),
{
    law_vector_fold(u.x, run.x, r, inc.x);
    lemma_op_values(run.u, r);
    if u.u.val() == (run.u.val() + r.val()) % Fq::modulus() {
        lemma_val_injective(u.u, crate::field::f_add(run.u, r));
    }
}

/// The same for the witnesses of the second curve.
pub proof fn law_pair_witness_fold(w: WitnessView, run: WitnessView, r: Fq, inc: WitnessView, t: Seq<Fq>)
    requires
        run.w.len() == inc.w.len(),
        run.e.len() == t.len(),
    ensures
        w == run.folded(r, inc, t) <==> is_pair_witness_fold(w, run, r, inc, t),
{
    law_vector_fold(w.w, run.w, r, inc.w);
    law_vector_fold(w.e, run.e, r, t);
    lemma_sum(w.r_w, run.r_w, r, inc.r_w);
}

} // verus!
