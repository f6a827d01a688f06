//! Relaxed rank-1 constraint systems.
use vstd::prelude::*;
use crate::error::outcome;
use crate::error::Error;
use crate::error::ErrorView;
use crate::field::canonical;
use crate::field::f_add;
use crate::field::f_mul;
use crate::field::f_sub;
use crate::field::f_zero;
use crate::field::Field;
use crate::field::FieldModel;
use crate::field::lemma_op_values;
use crate::field::lemma_units;
use crate::field::lemma_val_injective;
use crate::field_fq::Fq;
use crate::field_fr::Fr;
use crate::vecs::repeated;

verus! {

/// A matrix by its non-zero entries: for each row, the coefficients with their
/// columns.
#[derive(Debug)]
pub struct SparseMatrix<F: Field> {
    pub n_rows: usize,
    pub n_cols: usize,
    pub coeffs: Vec<Vec<(F, usize)>>,
}

/// A constraint system: the number of public values and the three matrices.
#[derive(Debug)]
pub struct R1CS<F: Field> {
    pub l: usize,
    pub a: SparseMatrix<F>,
    pub b: SparseMatrix<F>,
    pub c: SparseMatrix<F>,
}

/// The product of a sparse row and a vector.
pub open spec fn row_dot<F: FieldModel>(row: Seq<(F, usize)>, z: Seq<F>) -> F
    decreases row.len(),
{
    if row.len() == 0 {
        f_zero::<F>()
    } else {
        f_add(row_dot(row.drop_last(), z), f_mul(row.last().0, z[row.last().1 as int]))
    }
}

impl<F: Field> SparseMatrix<F> {
    /// Whether there is a list of entries for each row and every column is in
    /// range.
    pub open spec fn wf(&self) -> bool {
        &&& self.coeffs@.len() == self.n_rows
        &&& forall|i: int, k: int|
            0 <= i < self.n_rows && 0 <= k < self.coeffs@[i]@.len() ==> (#[trigger] self.coeffs@[i]@[k]).1
                < self.n_cols
    }

    /// The product of the matrix and a vector.
    pub open spec fn times(&self, z: Seq<F>) -> Seq<F> {
        Seq::new(self.n_rows as nat, |i: int| row_dot(self.coeffs@[i]@, z))
    }

    /// The product of the matrix and a vector.
    pub fn mul_vector(&self, z: &Vec<F>) -> (r: Vec<F>)
        requires
            self.wf(),
            z@.len() == self.n_cols,
        ensures
            r@ == self.times(z@),
    {
        let mut r: Vec<F> = Vec::new();
        let mut i: usize = 0;
        while i < self.n_rows
            invariant
                i <= self.n_rows,
                self.wf(),
                z@.len() == self.n_cols,
                r@ == self.times(z@).take(i as int),
            decreases self.n_rows - i,
        {
            let row = &self.coeffs[i];
            let mut acc: F = F::zero();
            let mut k: usize = 0;
            assert(row@.take(0) =~= Seq::empty());
            while k < row.len()
                invariant
                    k <= row@.len(),
                    i < self.n_rows,
                    self.wf(),
                    row@ == self.coeffs@[i as int]@,
                    z@.len() == self.n_cols,
                    acc == row_dot(row@.take(k as int), z@),
                decreases row.len() - k,
            {
                let entry = row[k];
                assert(self.coeffs@[i as int]@[k as int].1 < self.n_cols);
                let term = entry.0.times(&z[entry.1]);
                acc = acc.plus(&term);
                assert(row@.take(k + 1).drop_last() =~= row@.take(k as int));
                k = k + 1;
            }
            assert(row@.take(k as int) =~= row@);
            r.push(acc);
            assert(r@ =~= self.times(z@).take(i + 1));
            i = i + 1;
        }
        assert(self.times(z@).take(i as int) =~= self.times(z@));
        r
    }
}

impl<F: Field> R1CS<F> {
    /// Whether the three matrices have one shape.
    pub open spec fn wf(&self) -> bool {
        &&& self.a.wf()
        &&& self.b.wf()
        &&& self.c.wf()
        &&& self.a.n_rows == self.b.n_rows == self.c.n_rows
        &&& self.a.n_cols == self.b.n_cols == self.c.n_cols
        &&& self.l < self.a.n_cols
    }

    /// Whether `z` satisfies `Az * Bz = u * Cz + E`, entry by entry.
    pub open spec fn relaxed(&self, e: Seq<F>, u: F, z: Seq<F>) -> bool {
        forall|i: int| 0 <= i < self.a.n_rows ==> #[trigger] self.relaxed_at(i, e, u, z)
    }

    /// The relation of the `i`-th row.
    pub open spec fn relaxed_at(&self, i: int, e: Seq<F>, u: F, z: Seq<F>) -> bool {
        f_mul(self.a.times(z)[i], self.b.times(z)[i]) == f_add(f_mul(u, self.c.times(z)[i]), e[i])
    }

    /// What the check of a relaxed witness returns.
    pub open spec fn check_spec(&self, e: Seq<F>, u: F, z: Seq<F>) -> Result<(), ErrorView> {
        if z.len() != self.a.n_cols {
            Err(ErrorView::NotExpectedLength(z.len() as usize, self.a.n_cols))
        } else if e.len() != self.a.n_rows {
            Err(ErrorView::NotExpectedLength(e.len() as usize, self.a.n_rows))
        } else if self.relaxed(e, u, z) {
            Ok(())
        } else {
            Err(ErrorView::NotSatisfied)
        }
    }

    /// Checks that `z` satisfies `Az * Bz = u * Cz + E`.
    pub fn check_relaxed(&self, e: &Vec<F>, u: &F, z: &Vec<F>) -> (r: Result<(), Error>)
        requires
            self.wf(),
        ensures
            outcome(r) == self.check_spec(e@, *u, z@),
    {
        if z.len() != self.a.n_cols {
            return Err(Error::NotExpectedLength(z.len(), self.a.n_cols));
        }
        if e.len() != self.a.n_rows {
            return Err(Error::NotExpectedLength(e.len(), self.a.n_rows));
        }
        let az = self.a.mul_vector(z);
        let bz = self.b.mul_vector(z);
        let cz = self.c.mul_vector(z);
        let mut i: usize = 0;
        while i < self.a.n_rows
            invariant
                i <= self.a.n_rows,
                self.wf(),
                az@ == self.a.times(z@),
                bz@ == self.b.times(z@),
                cz@ == self.c.times(z@),
                z@.len() == self.a.n_cols,
                e@.len() == self.a.n_rows,
                forall|k: int| 0 <= k < i ==> #[trigger] self.relaxed_at(k, e@, *u, z@),
            decreases self.a.n_rows - i,
        {
            let left = az[i].times(&bz[i]);
            let right = u.times(&cz[i]).plus(&e[i]);
            if !left.same(&right) {
                assert(!self.relaxed_at(i as int, e@, *u, z@));
                return Err(Error::NotSatisfied);
            }
            assert(self.relaxed_at(i as int, e@, *u, z@));
            i = i + 1;
        }
        Ok(())
    }

    /// The vector that a witness and its public values stand for.
    pub open spec fn assignment(u: F, x: Seq<F>, w: Seq<F>) -> Seq<F> {
        seq![u] + x + w
    }

    /// The vector that a witness and its public values stand for.
    pub fn assemble(u: &F, x: &Vec<F>, w: &Vec<F>) -> (r: Vec<F>)
        ensures
            r@ == R1CS::assignment(*u, x@, w@),
    {
        let mut r: Vec<F> = Vec::new();
        r.push(*u);
        crate::vecs::push_all(&mut r, x);
        crate::vecs::push_all(&mut r, w);
        assert(r@ =~= R1CS::assignment(*u, x@, w@));
        r
    }
}

/// The entry-wise sum of `a` and `r` times `b`, as long as the shorter of the two.
pub open spec fn folded<F: FieldModel>(a: Seq<F>, r: F, b: Seq<F>) -> Seq<F> {
    Seq::new(
        if a.len() <= b.len() {
            a.len()
        } else {
            b.len()
        },
        |i: int| f_add(a[i], f_mul(r, b[i])),
    )
}

/// The entry-wise sum of `a` and `r` times `b`, as long as the shorter of the two.
pub fn fold_vectors<F: Field>(a: &Vec<F>, r: &F, b: &Vec<F>) -> (s: Vec<F>)
    ensures
        s@ == folded(a@, *r, b@),
{
    let mut s: Vec<F> = Vec::new();
    let mut i: usize = 0;
    while i < a.len() && i < b.len()
        invariant
            i <= a@.len(),
            i <= b@.len(),
            s@ == folded(a@, *r, b@).take(i as int),
        decreases a.len() - i,
    {
        s.push(a[i].plus(&r.times(&b[i])));
        assert(s@ =~= folded(a@, *r, b@).take(i + 1));
        i = i + 1;
    }
    assert(folded(a@, *r, b@).take(i as int) =~= folded(a@, *r, b@));
    s
}

impl<F: Field> R1CS<F> {
    /// The cross term of two relaxed witnesses:
    /// `Az1 * Bz2 + Az2 * Bz1 - u1 * Cz2 - u2 * Cz1`.
    pub open spec fn cross_term(&self, u1: F, z1: Seq<F>, u2: F, z2: Seq<F>) -> Seq<F> {
        Seq::new(
            self.a.n_rows as nat,
            |i: int|
                f_sub(
                    f_sub(
                        f_add(
                            f_mul(self.a.times(z1)[i], self.b.times(z2)[i]),
                            f_mul(self.a.times(z2)[i], self.b.times(z1)[i]),
                        ),
                        f_mul(u1, self.c.times(z2)[i]),
                    ),
                    f_mul(u2, self.c.times(z1)[i]),
                ),
        )
    }

    /// The cross term of two relaxed witnesses.
    pub fn compute_cross_term(&self, u1: &F, z1: &Vec<F>, u2: &F, z2: &Vec<F>) -> (t: Vec<F>)
        requires
            self.wf(),
            z1@.len() == self.a.n_cols,
            z2@.len() == self.a.n_cols,
        ensures
            t@ == self.cross_term(*u1, z1@, *u2, z2@),
    {
        let az1 = self.a.mul_vector(z1);
        let bz1 = self.b.mul_vector(z1);
        let cz1 = self.c.mul_vector(z1);
        let az2 = self.a.mul_vector(z2);
        let bz2 = self.b.mul_vector(z2);
        let cz2 = self.c.mul_vector(z2);
        let mut t: Vec<F> = Vec::new();
        let mut i: usize = 0;
        while i < self.a.n_rows
            invariant
                i <= self.a.n_rows,
                self.wf(),
                az1@ == self.a.times(z1@),
                bz1@ == self.b.times(z1@),
                cz1@ == self.c.times(z1@),
                az2@ == self.a.times(z2@),
                bz2@ == self.b.times(z2@),
                cz2@ == self.c.times(z2@),
                t@ == self.cross_term(*u1, z1@, *u2, z2@).take(i as int),
            decreases self.a.n_rows - i,
        {
            let mixed = az1[i].times(&bz2[i]).plus(&az2[i].times(&bz1[i]));
            let entry = mixed.minus(&u1.times(&cz2[i])).minus(&u2.times(&cz1[i]));
            t.push(entry);
            assert(t@ =~= self.cross_term(*u1, z1@, *u2, z2@).take(i + 1));
            i = i + 1;
        }
        assert(self.cross_term(*u1, z1@, *u2, z2@).take(i as int) =~= self.cross_term(*u1, z1@, *u2, z2@));
        t
    }
}

/// The cross term does not depend on the order of the two witnesses.
pub proof fn lemma_cross_term_symmetric<F: Field>(r1cs: R1CS<F>, u1: F, z1: Seq<F>, u2: F, z2: Seq<F>)
    ensures
        r1cs.cross_term(u1, z1, u2, z2) == r1cs.cross_term(u2, z2, u1, z1),
{
    let (t1, t2) = (r1cs.cross_term(u1, z1, u2, z2), r1cs.cross_term(u2, z2, u1, z1));
    assert forall|i: int| 0 <= i < t1.len() implies t1[i] == t2[i] by {
        let p = f_mul(r1cs.a.times(z1)[i], r1cs.b.times(z2)[i]);
        let q = f_mul(r1cs.a.times(z2)[i], r1cs.b.times(z1)[i]);
        let (s, t) = (f_mul(u1, r1cs.c.times(z2)[i]), f_mul(u2, r1cs.c.times(z1)[i]));
        let (pv, qv, sv, tv) = (p.val() as int, q.val() as int, s.val() as int, t.val() as int);
        lemma_congruent_ops(p, pv, q, qv);
        lemma_congruent_ops(q, qv, p, pv);
        lemma_congruent_ops(f_add(p, q), pv + qv, s, sv);
        lemma_congruent_ops(f_add(q, p), qv + pv, t, tv);
        lemma_congruent_ops(f_sub(f_add(p, q), s), pv + qv - sv, t, tv);
        lemma_congruent_ops(f_sub(f_add(q, p), t), qv + pv - tv, s, sv);
        lemma_op_values(f_sub(f_add(p, q), s), t);
        lemma_op_values(f_sub(f_add(q, p), t), s);
        lemma_congruent_equal(t1[i], t2[i], pv + qv - sv - tv);
    }
    assert(t1 =~= t2);
}

/// Whether the element and the integer are the same modulo the field's modulus.
pub open spec fn congruent<F: FieldModel>(x: F, n: int) -> bool {
    x.val() % F::modulus() == n % (F::modulus() as int)
}

pub proof fn lemma_congruent_ops<F: FieldModel>(x: F, n: int, y: F, k: int)
    requires
        congruent(x, n),
        congruent(y, k),
    ensures
        congruent(f_add(x, y), n + k),
        congruent(f_sub(x, y), n - k),
        congruent(f_mul(x, y), n * k),
{
    F::lemma_modulus();
    let m = F::modulus() as int;
    let (xv, yv) = (x.val() as int, y.val() as int);
    lemma_op_values(x, y);
    vstd::arithmetic::div_mod::lemma_add_mod_noop(n, k, m);
    vstd::arithmetic::div_mod::lemma_sub_mod_noop(n, k, m);
    vstd::arithmetic::div_mod::lemma_mul_mod_noop(n, k, m);
    vstd::arithmetic::div_mod::lemma_add_mod_noop(xv, yv, m);
    vstd::arithmetic::div_mod::lemma_sub_mod_noop(xv, yv, m);
    vstd::arithmetic::div_mod::lemma_mul_mod_noop(xv, yv, m);
    vstd::arithmetic::div_mod::lemma_mod_twice(xv + yv, m);
    vstd::arithmetic::div_mod::lemma_mod_twice(xv - yv, m);
    vstd::arithmetic::div_mod::lemma_mod_twice(xv * yv, m);
}

/// Two results of field operations that are congruent to one integer are equal.
pub proof fn lemma_congruent_equal<F: FieldModel>(x: F, y: F, n: int)
    requires
        canonical(x),
        canonical(y),
        congruent(x, n),
        congruent(y, n),
    ensures
        x == y,
{
    vstd::arithmetic::div_mod::lemma_small_mod(x.val(), F::modulus());
    vstd::arithmetic::div_mod::lemma_small_mod(y.val(), F::modulus());
    lemma_val_injective(x, y);
}

/// The product of a row and a folded vector is the fold of the two products.
proof fn lemma_row_dot_linear<F: FieldModel>(row: Seq<(F, usize)>, z1: Seq<F>, r: F, z2: Seq<F>)
    requires
        z1.len() == z2.len(),
        forall|k: int| 0 <= k < row.len() ==> (#[trigger] row[k]).1 < z1.len(),
    ensures
        row_dot(row, folded(z1, r, z2)) == f_add(row_dot(row, z1), f_mul(r, row_dot(row, z2))),
    decreases row.len(),
{
    let m = F::modulus() as int;
    F::lemma_modulus();
    lemma_units::<F>();
    if row.len() == 0 {
        vstd::arithmetic::div_mod::lemma_small_mod(0, F::modulus());
        lemma_op_values(r, f_zero::<F>());
        lemma_op_values(f_zero::<F>(), f_mul(r, f_zero::<F>()));
        assert(r.val() * 0 == 0) by (nonlinear_arith);
        lemma_val_injective(f_zero::<F>(), f_add(f_zero::<F>(), f_mul(r, f_zero::<F>())));
    } else {
        let short = row.drop_last();
        assert forall|k: int| 0 <= k < short.len() implies (#[trigger] short[k]).1 < z1.len() by {
            assert(short[k] == row[k]);
        }
        lemma_row_dot_linear(short, z1, r, z2);
        let c = row.last().0;
        let j = row.last().1 as int;
        assert(row[row.len() - 1].1 < z1.len());
        let (s1, s2) = (row_dot(short, z1), row_dot(short, z2));
        let (x1, x2) = (z1[j], z2[j]);
        let (s1v, s2v) = (s1.val() as int, s2.val() as int);
        let (x1v, x2v) = (x1.val() as int, x2.val() as int);
        let (cv, rv) = (c.val() as int, r.val() as int);
        // left: (s1 + r s2) + c (x1 + r x2)
        let left = f_add(f_add(s1, f_mul(r, s2)), f_mul(c, f_add(x1, f_mul(r, x2))));
        let right = f_add(f_add(s1, f_mul(c, x1)), f_mul(r, f_add(s2, f_mul(c, x2))));
        lemma_congruent_ops(r, rv, s2, s2v);
        lemma_congruent_ops(s1, s1v, f_mul(r, s2), rv * s2v);
        lemma_congruent_ops(r, rv, x2, x2v);
        lemma_congruent_ops(x1, x1v, f_mul(r, x2), rv * x2v);
        lemma_congruent_ops(c, cv, f_add(x1, f_mul(r, x2)), x1v + rv * x2v);
        lemma_congruent_ops(
            f_add(s1, f_mul(r, s2)),
            s1v + rv * s2v,
            f_mul(c, f_add(x1, f_mul(r, x2))),
            cv * (x1v + rv * x2v),
        );
        lemma_congruent_ops(c, cv, x1, x1v);
        lemma_congruent_ops(s1, s1v, f_mul(c, x1), cv * x1v);
        lemma_congruent_ops(c, cv, x2, x2v);
        lemma_congruent_ops(s2, s2v, f_mul(c, x2), cv * x2v);
        lemma_congruent_ops(r, rv, f_add(s2, f_mul(c, x2)), s2v + cv * x2v);
        lemma_congruent_ops(
            f_add(s1, f_mul(c, x1)),
            s1v + cv * x1v,
            f_mul(r, f_add(s2, f_mul(c, x2))),
            rv * (s2v + cv * x2v),
        );
        assert((s1v + rv * s2v) + cv * (x1v + rv * x2v) == (s1v + cv * x1v) + rv * (s2v + cv * x2v))
            by (nonlinear_arith);
        lemma_op_values(f_add(s1, f_mul(r, s2)), f_mul(c, f_add(x1, f_mul(r, x2))));
        lemma_op_values(f_add(s1, f_mul(c, x1)), f_mul(r, f_add(s2, f_mul(c, x2))));
        lemma_congruent_equal(left, right, (s1v + rv * s2v) + cv * (x1v + rv * x2v));
    }
}

/// Folding keeps satisfaction. Where `z1` satisfies the system relaxed by `u1` and
/// `E1`, and `z2` satisfies it relaxed by `u2` alone, the folded vector
/// `z1 + r * z2` satisfies it relaxed by `u1 + r * u2` and `E1 + r * T`, `T` being
/// the cross term.
pub proof fn law_folding_keeps_satisfaction<F: Field>(
    r1cs: R1CS<F>,
    e1: Seq<F>,
    u1: F,
    z1: Seq<F>,
    u2: F,
    z2: Seq<F>,
    r: F,
)
    requires
        r1cs.wf(),
        z1.len() == r1cs.a.n_cols,
        z2.len() == r1cs.a.n_cols,
        e1.len() == r1cs.a.n_rows,
        r1cs.relaxed(e1, u1, z1),
        r1cs.relaxed(repeated(f_zero::<F>(), r1cs.a.n_rows as nat), u2, z2),
    ensures
        r1cs.relaxed(
            folded(e1, r, r1cs.cross_term(u1, z1, u2, z2)),
            f_add(u1, f_mul(r, u2)),
            folded(z1, r, z2),
        ),
{
    let t = r1cs.cross_term(u1, z1, u2, z2);
    let e = folded(e1, r, t);
    let u = f_add(u1, f_mul(r, u2));
    let z = folded(z1, r, z2);
    assert forall|i: int| 0 <= i < r1cs.a.n_rows implies #[trigger] r1cs.relaxed_at(i, e, u, z) by {
        assert forall|k: int| 0 <= k < r1cs.a.coeffs@[i]@.len() implies (#[trigger] r1cs.a.coeffs@[i]@[k]).1
            < z1.len() by {}
        assert forall|k: int| 0 <= k < r1cs.b.coeffs@[i]@.len() implies (#[trigger] r1cs.b.coeffs@[i]@[k]).1
            < z1.len() by {}
        assert forall|k: int| 0 <= k < r1cs.c.coeffs@[i]@.len() implies (#[trigger] r1cs.c.coeffs@[i]@[k]).1
            < z1.len() by {}
        lemma_row_dot_linear(r1cs.a.coeffs@[i]@, z1, r, z2);
        lemma_row_dot_linear(r1cs.b.coeffs@[i]@, z1, r, z2);
        lemma_row_dot_linear(r1cs.c.coeffs@[i]@, z1, r, z2);
        assert(r1cs.relaxed_at(i, e1, u1, z1));
        assert(r1cs.relaxed_at(i, repeated(f_zero::<F>(), r1cs.a.n_rows as nat), u2, z2));
        lemma_fold_row(
            r1cs.a.times(z1)[i],
            r1cs.b.times(z1)[i],
            r1cs.c.times(z1)[i],
            u1,
            e1[i],
            r1cs.a.times(z2)[i],
            r1cs.b.times(z2)[i],
            r1cs.c.times(z2)[i],
            u2,
            r,
        );
    }
}

proof fn lemma_expand(x1: int, x2: int, y1: int, y2: int, r: int)
    ensures
        (x1 + r * x2) * (y1 + r * y2) == x1 * y1 + r * (x1 * y2 + x2 * y1) + (r * r) * (x2 * y2),
{
    assert((x1 + r * x2) * (y1 + r * y2) == x1 * y1 + x1 * (r * y2) + (r * x2) * y1 + (r * x2) * (r * y2))
        by (nonlinear_arith);
    assert(x1 * (r * y2) == r * (x1 * y2)) by (nonlinear_arith);
    assert((r * x2) * y1 == r * (x2 * y1)) by (nonlinear_arith);
    assert((r * x2) * (r * y2) == (r * r) * (x2 * y2)) by (nonlinear_arith);
    assert(r * (x1 * y2) + r * (x2 * y1) == r * (x1 * y2 + x2 * y1)) by (nonlinear_arith);
}

/// The identity behind the fold of one row.
proof fn lemma_fold_row<F: FieldModel>(a1: F, b1: F, c1: F, u1: F, e1: F, a2: F, b2: F, c2: F, u2: F, r: F)
    requires
        f_mul(a1, b1) == f_add(f_mul(u1, c1), e1),
        f_mul(a2, b2) == f_add(f_mul(u2, c2), f_zero::<F>()),
    ensures
        f_mul(f_add(a1, f_mul(r, a2)), f_add(b1, f_mul(r, b2))) == f_add(
            f_mul(f_add(u1, f_mul(r, u2)), f_add(c1, f_mul(r, c2))),
            f_add(
                e1,
                f_mul(
                    r,
                    f_sub(
                        f_sub(f_add(f_mul(a1, b2), f_mul(a2, b1)), f_mul(u1, c2)),
                        f_mul(u2, c1),
                    ),
                ),
            ),
        ),
{
    F::lemma_modulus();
    lemma_units::<F>();
    let m = F::modulus() as int;
    let (a1v, b1v, c1v, u1v, e1v) = (
        a1.val() as int,
        b1.val() as int,
        c1.val() as int,
        u1.val() as int,
        e1.val() as int,
    );
    let (a2v, b2v, c2v, u2v, rv) = (
        a2.val() as int,
        b2.val() as int,
        c2.val() as int,
        u2.val() as int,
        r.val() as int,
    );
    // the left side
    lemma_congruent_ops(r, rv, a2, a2v);
    lemma_congruent_ops(a1, a1v, f_mul(r, a2), rv * a2v);
    lemma_congruent_ops(r, rv, b2, b2v);
    lemma_congruent_ops(b1, b1v, f_mul(r, b2), rv * b2v);
    lemma_congruent_ops(f_add(a1, f_mul(r, a2)), a1v + rv * a2v, f_add(b1, f_mul(r, b2)), b1v + rv * b2v);
    lemma_op_values(f_add(a1, f_mul(r, a2)), f_add(b1, f_mul(r, b2)));
    let p = (a1v + rv * a2v) * (b1v + rv * b2v);
    // the right side
    lemma_congruent_ops(r, rv, u2, u2v);
    lemma_congruent_ops(u1, u1v, f_mul(r, u2), rv * u2v);
    lemma_congruent_ops(r, rv, c2, c2v);
    lemma_congruent_ops(c1, c1v, f_mul(r, c2), rv * c2v);
    lemma_congruent_ops(f_add(u1, f_mul(r, u2)), u1v + rv * u2v, f_add(c1, f_mul(r, c2)), c1v + rv * c2v);
    lemma_congruent_ops(a1, a1v, b2, b2v);
    lemma_congruent_ops(a2, a2v, b1, b1v);
    lemma_congruent_ops(f_mul(a1, b2), a1v * b2v, f_mul(a2, b1), a2v * b1v);
    lemma_congruent_ops(u1, u1v, c2, c2v);
    lemma_congruent_ops(u2, u2v, c1, c1v);
    let mixed = f_add(f_mul(a1, b2), f_mul(a2, b1));
    lemma_congruent_ops(mixed, a1v * b2v + a2v * b1v, f_mul(u1, c2), u1v * c2v);
    let part = f_sub(mixed, f_mul(u1, c2));
    lemma_congruent_ops(part, a1v * b2v + a2v * b1v - u1v * c2v, f_mul(u2, c1), u2v * c1v);
    let t = f_sub(part, f_mul(u2, c1));
    let tv = a1v * b2v + a2v * b1v - u1v * c2v - u2v * c1v;
    lemma_congruent_ops(r, rv, t, tv);
    lemma_congruent_ops(e1, e1v, f_mul(r, t), rv * tv);
    let uc = f_mul(f_add(u1, f_mul(r, u2)), f_add(c1, f_mul(r, c2)));
    let ucv = (u1v + rv * u2v) * (c1v + rv * c2v);
    lemma_congruent_ops(uc, ucv, f_add(e1, f_mul(r, t)), e1v + rv * tv);
    lemma_op_values(uc, f_add(e1, f_mul(r, t)));
    let q = ucv + (e1v + rv * tv);
    // the two differ by multiples of the two given relations
    lemma_congruent_ops(a1, a1v, b1, b1v);
    lemma_congruent_ops(u1, u1v, c1, c1v);
    lemma_congruent_ops(f_mul(u1, c1), u1v * c1v, e1, e1v);
    lemma_congruent_ops(a2, a2v, b2, b2v);
    lemma_congruent_ops(u2, u2v, c2, c2v);
    lemma_congruent_ops(f_mul(u2, c2), u2v * c2v, f_zero::<F>(), 0);
    let d1 = a1v * b1v - (u1v * c1v + e1v);
    let d2 = a2v * b2v - u2v * c2v;
    assert((a1v * b1v) % m == (u1v * c1v + e1v) % m);
    assert((a2v * b2v) % m == (u2v * c2v) % m);
    vstd::arithmetic::div_mod::lemma_mod_equivalence(a1v * b1v, u1v * c1v + e1v, m);
    vstd::arithmetic::div_mod::lemma_mod_equivalence(a2v * b2v, u2v * c2v, m);
    lemma_expand(a1v, a2v, b1v, b2v, rv);
    lemma_expand(u1v, u2v, c1v, c2v, rv);
    assert(rv * (a1v * b2v + a2v * b1v - u1v * c2v - u2v * c1v) == rv * (a1v * b2v + a2v * b1v) - rv * (u1v * c2v
        + u2v * c1v)) by (nonlinear_arith);
    assert((rv * rv) * d2 == (rv * rv) * (a2v * b2v) - (rv * rv) * (u2v * c2v)) by (nonlinear_arith)
        requires
            d2 == a2v * b2v - u2v * c2v,
    ;
    assert(p - q == d1 + (rv * rv) * d2);
    vstd::arithmetic::div_mod::lemma_mul_mod_noop_right(rv * rv, d2, m);
    assert((rv * rv) * 0 == 0) by (nonlinear_arith);
    vstd::arithmetic::div_mod::lemma_add_mod_noop(d1, (rv * rv) * d2, m);
    vstd::arithmetic::div_mod::lemma_small_mod(0, F::modulus());
    vstd::arithmetic::div_mod::lemma_mod_equivalence(p, q, m);
    lemma_congruent_equal(
        f_mul(f_add(a1, f_mul(r, a2)), f_add(b1, f_mul(r, b2))),
        f_add(uc, f_add(e1, f_mul(r, t))),
        p,
    );
}

/// The check that a witness satisfies a relaxed constraint system.
#[derive(Debug, Clone, Copy)]
pub struct RelaxedR1CSGadget {}

impl RelaxedR1CSGadget {
    /// Checks `Az * Bz = u * Cz + E` over the scalar field.
    pub fn check_native(r1cs: &R1CS<Fr>, e: &Vec<Fr>, u: &Fr, z: &Vec<Fr>) -> (r: Result<(), Error>)
        requires
            r1cs.wf(),
        ensures
            outcome(r) == r1cs.check_spec(e@, *u, z@),
    {
        r1cs.check_relaxed(e, u, z)
    }

    /// Checks `Az * Bz = u * Cz + E` over the base field.
    pub fn check_nonnative(r1cs: &R1CS<Fq>, e: &Vec<Fq>, u: &Fq, z: &Vec<Fq>) -> (r: Result<(), Error>)
        requires
            r1cs.wf(),
        ensures
            outcome(r) == r1cs.check_spec(e@, *u, z@),
    {
        r1cs.check_relaxed(e, u, z)
    }
}

} // verus!
