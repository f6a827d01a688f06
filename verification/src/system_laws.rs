//! What satisfaction of a constraint system means in integers, and what verifiers of
//! computations owe to it.
use vstd::prelude::*;
use crate::error::ErrorView;
use crate::field::f_add;
use crate::field::f_mul;
use crate::field::f_one;
use crate::field::f_sub;
use crate::field::f_zero;
use crate::field::lemma_op_values;
use crate::field::lemma_units;
use crate::field::Field;
use crate::field::FieldModel;
use crate::field_fr::Fr;
use crate::foldpot::VerifierParamsFoldPot;
use crate::foldpot_super::relaxed_checks;
use crate::foldpot_super::SuperProofView;
use crate::foldpot_super::VerifierParamsFoldPotSuper;
use crate::instance::strict_check;
use crate::instance::InstanceView;
use crate::instance::WitnessFoldPotView;
use crate::nova::CommittedInstanceView;
use crate::nova::WitnessView;
use crate::r1cs::folded;
use crate::r1cs::lemma_congruent_equal;
use crate::r1cs::lemma_congruent_ops;
use crate::r1cs::row_dot;
use crate::r1cs::R1CS;
use crate::sponge::SpongeView;
use crate::vecs::repeated;

verus! {

/// The sum of a sparse row's coefficients, each times the entry of its column, in
/// integers.
pub open spec fn row_sum<F: FieldModel>(row: Seq<(F, usize)>, z: Seq<F>) -> int
    decreases row.len(),
{
    if row.len() == 0 {
        0
    } else {
        row[0].0.val() * z[row[0].1 as int].val() + row_sum(row.drop_first(), z)
    }
}

/// The sum may be taken from the last entry on.
proof fn lemma_row_sum_back<F: FieldModel>(row: Seq<(F, usize)>, z: Seq<F>)
    requires
        row.len() > 0,
    ensures
        row_sum(row, z) == row_sum(row.drop_last(), z) + row.last().0.val() * z[row.last().1 as int].val(),
    decreases row.len(),
{
    reveal_with_fuel(row_sum, 2);
    if row.len() > 1 {
        lemma_row_sum_back(row.drop_first(), z);
        assert(row.drop_last().drop_first() =~= row.drop_first().drop_last());
    } else {
        assert(row.drop_first() =~= Seq::empty());
        assert(row.drop_last() =~= Seq::empty());
    }
}

/// The product of a sparse row and a vector is their sum of products modulo the field's
/// modulus.
pub proof fn law_row_dot_is_sum<F: FieldModel>(row: Seq<(F, usize)>, z: Seq<F>)
    ensures
        row_dot(row, z).val() == row_sum(row, z) % (F::modulus() as int),
    decreases row.len(),
{
    F::lemma_modulus();
    lemma_units::<F>();
    let m = F::modulus() as int;
    if row.len() == 0 {
        vstd::arithmetic::div_mod::lemma_small_mod(0, F::modulus());
    } else {
        law_row_dot_is_sum(row.drop_last(), z);
        lemma_row_sum_back(row, z);
        let (d, c, x) = (row_dot(row.drop_last(), z), row.last().0, z[row.last().1 as int]);
        let s = row_sum(row.drop_last(), z);
        vstd::arithmetic::div_mod::lemma_mod_twice(s, m);
        lemma_congruent_ops(c, c.val() as int, x, x.val() as int);
        lemma_congruent_ops(d, s, f_mul(c, x), (c.val() * x.val()) as int);
        lemma_op_values(d, f_mul(c, x));
        vstd::arithmetic::div_mod::lemma_small_mod(row_dot(row, z).val(), F::modulus());
    }
}

/// Whether `z` begins with `u`, and goes on with the entries of `x` and those of `w`.
pub open spec fn made_of<F>(z: Seq<F>, u: F, x: Seq<F>, w: Seq<F>) -> bool {
    &&& z.len() == 1 + x.len() + w.len()
    &&& z[0] == u
    &&& forall|j: int| 0 <= j < x.len() ==> z[1 + j] == #[trigger] x[j]
    &&& forall|j: int| 0 <= j < w.len() ==> z[1 + x.len() + j] == #[trigger] w[j]
}

/// Whether a witness with its public values satisfies the system relaxed by `u` and `e`:
/// in each row, the product of what `A` and `B` give is `u` times what `C` gives, and the
/// row's error, modulo the field's modulus.
pub open spec fn satisfies<F: Field>(r1cs: R1CS<F>, u: F, x: Seq<F>, w: Seq<F>, e: Seq<F>) -> bool {
    &&& 1 + x.len() + w.len() == r1cs.a.n_cols
    &&& e.len() == r1cs.a.n_rows
    &&& forall|z: Seq<F>, i: int|
        #![trigger made_of(z, u, x, w), e[i]]
        made_of(z, u, x, w) && 0 <= i < e.len() ==> (row_sum(r1cs.a.coeffs@[i]@, z) * row_sum(
            r1cs.b.coeffs@[i]@,
            z,
        ) - u.val() * row_sum(r1cs.c.coeffs@[i]@, z) - e[i].val()) % (F::modulus() as int) == 0
}

/// Two integers are congruent where their difference is a multiple of the modulus.
proof fn lemma_difference(a: int, b: int, m: int)
    requires
        m > 0,
    ensures
        a % m == b % m <==> (a - b) % m == 0,
{
    vstd::arithmetic::div_mod::lemma_mod_equivalence(a, b, m);
}

proof fn lemma_row<F: Field>(r1cs: R1CS<F>, i: int, e: Seq<F>, u: F, z: Seq<F>)
    requires
        r1cs.wf(),
        0 <= i < r1cs.a.n_rows,
        e.len() == r1cs.a.n_rows,
    ensures
        r1cs.relaxed_at(i, e, u, z) <==> (row_sum(r1cs.a.coeffs@[i]@, z) * row_sum(r1cs.b.coeffs@[i]@, z) - u.val()
            * row_sum(r1cs.c.coeffs@[i]@, z) - e[i].val()) % (F::modulus() as int) == 0,
{
    F::lemma_modulus();
    let m = F::modulus() as int;
    let (ra, rb, rc) = (r1cs.a.coeffs@[i]@, r1cs.b.coeffs@[i]@, r1cs.c.coeffs@[i]@);
    law_row_dot_is_sum(ra, z);
    law_row_dot_is_sum(rb, z);
    law_row_dot_is_sum(rc, z);
    let (a, b, c) = (row_dot(ra, z), row_dot(rb, z), row_dot(rc, z));
    assert(r1cs.a.times(z)[i] == a && r1cs.b.times(z)[i] == b && r1cs.c.times(z)[i] == c);
    let (sa, sb, sc) = (row_sum(ra, z), row_sum(rb, z), row_sum(rc, z));
    vstd::arithmetic::div_mod::lemma_mod_twice(sa, m);
    vstd::arithmetic::div_mod::lemma_mod_twice(sb, m);
    vstd::arithmetic::div_mod::lemma_mod_twice(sc, m);
    let (uv, ev) = (u.val() as int, e[i].val() as int);
    lemma_congruent_ops(a, sa, b, sb);
    lemma_congruent_ops(u, uv, c, sc);
    lemma_congruent_ops(f_mul(u, c), uv * sc, e[i], ev);
    let left = f_mul(a, b);
    let right = f_add(f_mul(u, c), e[i]);
    lemma_op_values(a, b);
    lemma_op_values(f_mul(u, c), e[i]);
    lemma_difference(sa * sb, uv * sc + ev, m);
    if (sa * sb) % m == (uv * sc + ev) % m {
        lemma_congruent_equal(left, right, sa * sb);
    }
}

/// The check of a relaxed witness succeeds exactly where the witness satisfies the system.
pub proof fn law_check_is_satisfaction<F: Field>(r1cs: R1CS<F>, u: F, x: Seq<F>, w: Seq<F>, e: Seq<F>)
    requires
        r1cs.wf(),
    ensures
        r1cs.check_spec(e, u, R1CS::assignment(u, x, w)) is Ok <==> satisfies(r1cs, u, x, w, e),
        r1cs.check_spec(e, u, R1CS::assignment(u, x, w)) == Err::<(), ErrorView>(ErrorView::NotSatisfied) <==> {
            &&& 1 + x.len() + w.len() == r1cs.a.n_cols
            &&& e.len() == r1cs.a.n_rows
            &&& !satisfies(r1cs, u, x, w, e)
        },
{
    let z = R1CS::assignment(u, x, w);
    assert(made_of(z, u, x, w));
    if z.len() == r1cs.a.n_cols && e.len() == r1cs.a.n_rows {
        if r1cs.relaxed(e, u, z) {
            assert forall|y: Seq<F>, i: int| #![trigger made_of(y, u, x, w), e[i]] made_of(y, u, x, w) && 0 <= i < e.len()
                implies (row_sum(r1cs.a.coeffs@[i]@, y) * row_sum(r1cs.b.coeffs@[i]@, y) - u.val() * row_sum(
                r1cs.c.coeffs@[i]@,
                y,
            ) - e[i].val()) % (F::modulus() as int) == 0 by {
                assert(y =~= z) by {
                    assert forall|j: int| 0 <= j < z.len() implies y[j] == z[j] by {
                        if 1 <= j < 1 + x.len() {
                            assert(y[1 + (j - 1)] == x[j - 1]);
                            assert(z[1 + (j - 1)] == x[j - 1]);
                        } else if j >= 1 + x.len() {
                            assert(y[1 + x.len() + (j - 1 - x.len())] == w[j - 1 - x.len()]);
                            assert(z[1 + x.len() + (j - 1 - x.len())] == w[j - 1 - x.len()]);
                        }
                    }
                }
                assert(r1cs.relaxed_at(i, e, u, z));
                lemma_row(r1cs, i, e, u, z);
            }
        } else if satisfies(r1cs, u, x, w, e) {
            assert forall|i: int| 0 <= i < r1cs.a.n_rows implies #[trigger] r1cs.relaxed_at(i, e, u, z) by {
                let x_i = e[i];
                lemma_row(r1cs, i, e, u, z);
            }
        }
    }
}

/// Whether a witness satisfies the system without error: each row's product of what `A`
/// and `B` give is what `C` gives.
pub open spec fn satisfies_strictly<F: Field>(r1cs: R1CS<F>, x: Seq<F>, w: Seq<F>) -> bool {
    forall|one: F, e: Seq<F>|
        #![trigger satisfies(r1cs, one, x, w, e)]
        one.val() == 1 && e.len() == r1cs.a.n_rows && (forall|i: int| 0 <= i < e.len() ==> (#[trigger] e[i]).val() == 0)
            ==> satisfies(r1cs, one, x, w, e)
}

/// The check of a witness that is not relaxed succeeds exactly where the witness
/// satisfies the system without error; what the instance says of `u` and of the error has
/// no part in it.
pub proof fn law_strict_check_is_satisfaction(r1cs: R1CS<Fr>, w: WitnessFoldPotView, u: InstanceView)
    requires
        r1cs.wf(),
    ensures
        strict_check(r1cs, w, u) is Ok <==> satisfies_strictly(r1cs, u.x, w.w),
{
    let zeros = repeated(f_zero::<Fr>(), r1cs.a.n_rows as nat);
    lemma_units::<Fr>();
    law_check_is_satisfaction(r1cs, f_one::<Fr>(), u.x, w.w, zeros);
    if satisfies(r1cs, f_one::<Fr>(), u.x, w.w, zeros) {
        assert forall|one: Fr, e: Seq<Fr>|
            #![trigger satisfies(r1cs, one, u.x, w.w, e)]
            one.val() == 1 && e.len() == r1cs.a.n_rows && (forall|i: int|
                0 <= i < e.len() ==> (#[trigger] e[i]).val() == 0) implies satisfies(r1cs, one, u.x, w.w, e) by {
            crate::field::lemma_val_injective(one, f_one::<Fr>());
            assert forall|i: int| 0 <= i < e.len() implies e[i] == zeros[i] by {
                crate::field::lemma_val_injective(e[i], zeros[i]);
            }
            assert(e =~= zeros);
        }
    }
}

/// What acceptance of a computation means. A computation of no steps is accepted exactly
/// where its states agree. One of at least one step is accepted exactly where the
/// incoming instance holds the two digests, is not relaxed, and its witness satisfies the
/// step circuit's system; the running witness satisfies that system relaxed as the running
/// instance says; and the CycleFold witness satisfies its circuit's system relaxed as its
/// instance says.
pub proof fn law_accepted_is_satisfied(
    vp: VerifierParamsFoldPot,
    z_0: Seq<Fr>,
    z_i: Seq<Fr>,
    num_steps: Fr,
    run_u: InstanceView,
    run_w: WitnessFoldPotView,
    u_i: InstanceView,
    w_i: WitnessFoldPotView,
    cf_u: CommittedInstanceView,
    cf_w: WitnessView,
)
    requires
        vp.wf(),
    ensures
        vp.verify_spec(z_0, z_i, num_steps, run_u, run_w, u_i, w_i, cf_u, cf_w) is Ok <==> if num_steps.val() == 0 {
            z_0 == z_i
        } else {
            let sponge = SpongeView::fresh(vp.poseidon_config@);
            &&& u_i.x.len() == 2
            &&& run_u.x.len() == 2
            &&& u_i.x[0] == run_u.hash(sponge, vp.pp_hash, num_steps, z_0, z_i)
            &&& u_i.x[1] == cf_u.hash_cyclefold(sponge, vp.pp_hash)
            &&& u_i.cm_e is Infinity
            &&& u_i.u.val() == 1
            &&& satisfies_strictly(vp.r1cs, u_i.x, w_i.w)
            &&& satisfies(vp.r1cs, run_u.u, run_u.x, run_w.w, run_w.e)
            &&& satisfies(vp.cf_r1cs, cf_u.u, cf_u.x, cf_w.w, cf_w.e)
        },
{
    lemma_units::<Fr>();
    if num_steps.val() == 0 {
        crate::field::lemma_val_injective(num_steps, f_zero::<Fr>());
    }
    if u_i.u.val() == 1 {
        crate::field::lemma_val_injective(u_i.u, f_one::<Fr>());
    }
    law_strict_check_is_satisfaction(vp.r1cs, w_i, u_i);
    law_check_is_satisfaction(vp.r1cs, run_u.u, run_u.x, run_w.w, run_w.e);
    law_check_is_satisfaction(vp.cf_r1cs, cf_u.u, cf_u.x, cf_w.w, cf_w.e);
}

proof fn lemma_running_checks(
    vps: Seq<VerifierParamsFoldPot>,
    wits: Seq<WitnessFoldPotView>,
    insts: Seq<InstanceView>,
    n: nat,
)
    requires
        forall|k: int| 0 <= k < n ==> (#[trigger] vps[k]).wf(),
    ensures
        relaxed_checks(vps, wits, insts, n) is Ok <==> forall|k: int|
            #![trigger insts[k]]
            0 <= k < n ==> satisfies(vps[k].r1cs, insts[k].u, insts[k].x, wits[k].w, wits[k].e),
    decreases n,
{
    if n > 0 {
        let k = n - 1;
        lemma_running_checks(vps, wits, insts, k as nat);
        let (inst, vp) = (insts[k], vps[k]);
        law_check_is_satisfaction(vp.r1cs, inst.u, inst.x, wits[k].w, wits[k].e);
    }
}

/// What acceptance of a computation with several step circuits means. One of at least one
/// step is accepted exactly where the incoming instance holds the digests of the running
/// instances and of the CycleFold instance, is not relaxed, and its witness satisfies the
/// system of the circuit that it is of; each running witness satisfies its own circuit's
/// system, relaxed as its instance says; the CycleFold witness satisfies its circuit's
/// system, and where pairings are folded, so does the CyclePair witness, whose instance's
/// digest the incoming instance holds too.
pub proof fn law_accepted_is_satisfied_super(
    vp: VerifierParamsFoldPotSuper,
    z_0: Seq<Fr>,
    z_i: Seq<Fr>,
    num_steps: Fr,
    p: SuperProofView,
)
    requires
        vp.wf(),
        vp.fits(p),
    ensures
        vp.verify_spec(z_0, z_i, num_steps, p) is Ok <==> if num_steps.val() == 0 {
            z_0 == z_i
        } else {
            let sponge = SpongeView::fresh(vp.vec_vp@[0].poseidon_config@);
            let hash = vp.pp_hash_spec();
            let j = p.run_u.pc_i.val() as int;
            let x_len: nat = if p.run_u.x_2 is Some {
                3
            } else {
                2
            };
            &&& p.u_i.x.len() == x_len
            &&& p.run_u.insts[j].x.len() == x_len
            &&& p.u_i.x[0] == p.run_u.hash(sponge, hash, num_steps, p.run_u.pc_i, z_0, z_i)
            &&& p.u_i.x[1] == p.cf_u.hash_cyclefold(sponge, hash)
            &&& p.u_i.cm_e is Infinity
            &&& p.u_i.u.val() == 1
            &&& satisfies_strictly(vp.vec_vp@[j].r1cs, p.u_i.x, p.w_i.w)
            &&& forall|k: int|
                #![trigger p.run_u.insts[k]]
                0 <= k < p.run_u.insts.len() ==> satisfies(
                    vp.vec_vp@[k].r1cs,
                    p.run_u.insts[k].u,
                    p.run_u.insts[k].x,
                    p.run_w[k].w,
                    p.run_w[k].e,
                )
            &&& satisfies(vp.vec_vp@[0].cf_r1cs, p.cf_u.u, p.cf_u.x, p.cf_w.w, p.cf_w.e)
            &&& p.cp matches Some(cp) ==> {
                &&& p.u_i.x[2] == cp.0.hash_cyclefold(sponge, hash)
                &&& satisfies(vp.cp_r1cs->0, cp.0.u, cp.0.x, cp.1.w, cp.1.e)
            }
        },
{
    lemma_units::<Fr>();
    if num_steps.val() == 0 {
        crate::field::lemma_val_injective(num_steps, f_zero::<Fr>());
    }
    if p.u_i.u.val() == 1 {
        crate::field::lemma_val_injective(p.u_i.u, f_one::<Fr>());
    }
    let j = p.run_u.pc_i.val() as int;
    assert(vp.vec_vp@[j].wf());
    assert(vp.vec_vp@[0].wf());
    law_strict_check_is_satisfaction(vp.vec_vp@[j].r1cs, p.w_i, p.u_i);
    lemma_running_checks(vp.vec_vp@, p.run_w, p.run_u.insts, p.run_u.insts.len());
    law_check_is_satisfaction(vp.vec_vp@[0].cf_r1cs, p.cf_u.u, p.cf_u.x, p.cf_w.w, p.cf_w.e);
    if p.cp is Some {
        let cp = p.cp->0;
        law_check_is_satisfaction(vp.cp_r1cs->0, cp.0.u, cp.0.x, cp.1.w, cp.1.e);
    }
}

/// The fold of two vectors, entry by entry in integers.
pub proof fn law_fold_is_entrywise<F: FieldModel>(a: Seq<F>, r: F, b: Seq<F>)
    requires
        a.len() == b.len(),
    ensures
        folded(a, r, b).len() == a.len(),
        forall|i: int|
            0 <= i < a.len() ==> (#[trigger] folded(a, r, b)[i]).val() == (a[i].val() + r.val() * b[i].val())
                % F::modulus(),
{
    let m = F::modulus() as int;
    assert forall|i: int| 0 <= i < a.len() implies (#[trigger] folded(a, r, b)[i]).val() == (a[i].val() + r.val()
        * b[i].val()) % F::modulus() by {
        lemma_affine(a[i], r, b[i]);
    }
}

/// The integer of `a + r * b`.
pub proof fn lemma_affine<F: FieldModel>(a: F, r: F, b: F)
    ensures
        f_add(a, f_mul(r, b)).val() == (a.val() + r.val() * b.val()) % F::modulus(),
{
    F::lemma_modulus();
    let m = F::modulus() as int;
    lemma_congruent_ops(r, r.val() as int, b, b.val() as int);
    lemma_congruent_ops(a, a.val() as int, f_mul(r, b), (r.val() * b.val()) as int);
    lemma_op_values(a, f_mul(r, b));
    vstd::arithmetic::div_mod::lemma_small_mod(f_add(a, f_mul(r, b)).val(), F::modulus());
}

/// The cross term of two witnesses in integers: in each row, what `A` gives of the one
/// times what `B` gives of the other, both ways, less `u` of the one times what `C` gives
/// of the other, both ways.
pub proof fn law_cross_term_is_mixed<F: Field>(r1cs: R1CS<F>, u1: F, z1: Seq<F>, u2: F, z2: Seq<F>, i: int)
    requires
        r1cs.wf(),
        0 <= i < r1cs.a.n_rows,
    ensures
        r1cs.cross_term(u1, z1, u2, z2).len() == r1cs.a.n_rows,
        ({
            let (a, b, c) = (r1cs.a.coeffs@[i]@, r1cs.b.coeffs@[i]@, r1cs.c.coeffs@[i]@);
            r1cs.cross_term(u1, z1, u2, z2)[i].val() == (row_sum(a, z1) * row_sum(b, z2) + row_sum(a, z2) * row_sum(b, z1)
                - u1.val() * row_sum(c, z2) - u2.val() * row_sum(c, z1)) % (F::modulus() as int)
        }),
{
    F::lemma_modulus();
    let m = F::modulus() as int;
    let (ra, rb, rc) = (r1cs.a.coeffs@[i]@, r1cs.b.coeffs@[i]@, r1cs.c.coeffs@[i]@);
    law_row_dot_is_sum(ra, z1);
    law_row_dot_is_sum(rb, z1);
    law_row_dot_is_sum(rc, z1);
    law_row_dot_is_sum(ra, z2);
    law_row_dot_is_sum(rb, z2);
    law_row_dot_is_sum(rc, z2);
    let (a1, b1, c1) = (row_dot(ra, z1), row_dot(rb, z1), row_dot(rc, z1));
    let (a2, b2, c2) = (row_dot(ra, z2), row_dot(rb, z2), row_dot(rc, z2));
    let (sa1, sb1, sc1) = (row_sum(ra, z1), row_sum(rb, z1), row_sum(rc, z1));
    let (sa2, sb2, sc2) = (row_sum(ra, z2), row_sum(rb, z2), row_sum(rc, z2));
    vstd::arithmetic::div_mod::lemma_mod_twice(sa1, m);
    vstd::arithmetic::div_mod::lemma_mod_twice(sb1, m);
    vstd::arithmetic::div_mod::lemma_mod_twice(sc1, m);
    vstd::arithmetic::div_mod::lemma_mod_twice(sa2, m);
    vstd::arithmetic::div_mod::lemma_mod_twice(sb2, m);
    vstd::arithmetic::div_mod::lemma_mod_twice(sc2, m);
    let (v1, v2) = (u1.val() as int, u2.val() as int);
    let (p, q, s, t) = (f_mul(a1, b2), f_mul(a2, b1), f_mul(u1, c2), f_mul(u2, c1));
    lemma_congruent_ops(a1, sa1, b2, sb2);
    lemma_congruent_ops(a2, sa2, b1, sb1);
    lemma_congruent_ops(u1, v1, c2, sc2);
    lemma_congruent_ops(u2, v2, c1, sc1);
    lemma_congruent_ops(p, sa1 * sb2, q, sa2 * sb1);
    lemma_congruent_ops(f_add(p, q), sa1 * sb2 + sa2 * sb1, s, v1 * sc2);
    lemma_congruent_ops(f_sub(f_add(p, q), s), sa1 * sb2 + sa2 * sb1 - v1 * sc2, t, v2 * sc1);
    let e = f_sub(f_sub(f_add(p, q), s), t);
    lemma_op_values(f_sub(f_add(p, q), s), t);
    vstd::arithmetic::div_mod::lemma_small_mod(e.val(), F::modulus());
    assert(r1cs.cross_term(u1, z1, u2, z2)[i] == e);
}

/// What is refused before any witness is looked at, by both verifiers: no step and another
/// state than the first; or else an incoming instance that does not have the digests of the
/// running and of the CycleFold instance for its first two public values, or that is relaxed.
pub proof fn law_refused_before_witnesses(
    vp: VerifierParamsFoldPot,
    vps: VerifierParamsFoldPotSuper,
    z_0: Seq<Fr>,
    z_i: Seq<Fr>,
    num_steps: Fr,
    run_u: InstanceView,
    run_w: WitnessFoldPotView,
    u_i: InstanceView,
    w_i: WitnessFoldPotView,
    cf_u: CommittedInstanceView,
    cf_w: WitnessView,
    p: SuperProofView,
)
    ensures
        ({
            let sponge = SpongeView::fresh(vp.poseidon_config@);
            ||| num_steps.val() == 0 && z_0 != z_i
            ||| num_steps.val() != 0 && (u_i.x.len() != 2 || run_u.x.len() != 2)
            ||| num_steps.val() != 0 && u_i.x[0] != run_u.hash(sponge, vp.pp_hash, num_steps, z_0, z_i)
            ||| num_steps.val() != 0 && u_i.x[1] != cf_u.hash_cyclefold(sponge, vp.pp_hash)
            ||| num_steps.val() != 0 && (u_i.cm_e is Point || u_i.u.val() != 1)
        }) ==> vp.verify_spec(z_0, z_i, num_steps, run_u, run_w, u_i, w_i, cf_u, cf_w) == Err::<(), ErrorView>(
            ErrorView::IVCVerificationFail,
        ),
        ({
            let sponge = SpongeView::fresh(vps.vec_vp@[0].poseidon_config@);
            let hash = vps.pp_hash_spec();
            ||| num_steps.val() == 0 && z_0 != z_i
            ||| num_steps.val() != 0 && p.u_i.x[0] != p.run_u.hash(
                sponge,
                hash,
                num_steps,
                p.run_u.pc_i,
                z_0,
                z_i,
            )
            ||| num_steps.val() != 0 && p.u_i.x[1] != p.cf_u.hash_cyclefold(sponge, hash)
            ||| num_steps.val() != 0 && (p.u_i.cm_e is Point || p.u_i.u.val() != 1)
        }) ==> vps.verify_spec(z_0, z_i, num_steps, p) == Err::<(), ErrorView>(ErrorView::IVCVerificationFail),
{
    lemma_units::<Fr>();
    if num_steps.val() == 0 {
        crate::field::lemma_val_injective(num_steps, f_zero::<Fr>());
    }
}

} // verus!
