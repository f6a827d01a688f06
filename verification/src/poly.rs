//! Evaluation of polynomials that are given by their coefficients.
use vstd::prelude::*;
use crate::error::Error;
use crate::error::ErrorView;
use crate::field::f_add;
use crate::field::f_mul;
use crate::field::f_one;
use crate::field::f_zero;
use crate::field::Field;
use crate::field::FieldModel;
use crate::field::lemma_add_comm;
use crate::field::lemma_add_zero;
use crate::field::lemma_mul_comm;
use crate::field::lemma_mul_one;
use crate::field::lemma_mul_zero;
use crate::field::lemma_op_values;
use crate::field::lemma_units;
use crate::field_fr::Fr;
use crate::vecs::repeated;

verus! {

/// The value at `x` of the polynomial with the coefficients `v`, lowest first.
pub open spec fn poly_eval(v: Seq<Fr>, x: Fr) -> Fr
    decreases v.len(),
{
    if v.len() == 0 {
        f_zero::<Fr>()
    } else {
        f_add(v[0], f_mul(x, poly_eval(v.drop_first(), x)))
    }
}

/// What the first `n` rounds of the evaluation give: each multiplies by `x` and adds
/// the next coefficient, highest first, and every 1024th, from the first on,
/// multiplies by `one` too.
pub open spec fn eval_rounds(v: Seq<Fr>, x: Fr, one: Fr, n: nat) -> Fr
    decreases n,
{
    if n == 0 {
        f_zero::<Fr>()
    } else {
        let e = f_add(f_mul(eval_rounds(v, x, one, (n - 1) as nat), x), v[v.len() - n]);
        if (n - 1) % 1024 == 0 {
            f_mul(e, one)
        } else {
            e
        }
    }
}

/// Where `one` is one, the rounds evaluate the polynomial.
proof fn lemma_rounds(v: Seq<Fr>, x: Fr, n: nat)
    requires
        n <= v.len(),
    ensures
        eval_rounds(v, x, f_one::<Fr>(), n) == poly_eval(v.skip(v.len() - n), x),
    decreases n,
{
    if n == 0 {
        assert(v.skip(v.len() as int) =~= Seq::empty());
    } else {
        lemma_rounds(v, x, (n - 1) as nat);
        let s = v.skip(v.len() - n);
        assert(s.drop_first() =~= v.skip(v.len() - (n - 1)));
        let rest = poly_eval(s.drop_first(), x);
        lemma_mul_comm(rest, x);
        lemma_add_comm(f_mul(x, rest), v[v.len() - n]);
        let e = f_add(f_mul(rest, x), v[v.len() - n]);
        lemma_op_values(f_mul(rest, x), v[v.len() - n]);
        lemma_mul_one(e);
    }
}

/// Evaluates the polynomial with the coefficients `v`, lowest first, at `point`, as a
/// circuit does it: a chain of additions is cut every 1024 rounds by a multiplication
/// with `one`.
pub fn evaluate_gadget(v: &Vec<Fr>, point: &Fr, one: &Fr) -> (r: Fr)
    ensures
        r == eval_rounds(v@, *point, *one, v@.len()),
        *one == f_one::<Fr>() ==> r == poly_eval(v@, *point),
{
    let mut eval: Fr = Fr::zero();
    let mut i: usize = 0;
    let n = v.len();
    while i < n
        invariant
            i <= n,
            n == v@.len(),
            eval == eval_rounds(v@, *point, *one, i as nat),
        decreases n - i,
    {
        eval = eval.times(point).plus(&v[n - 1 - i]);
        if i % 1024 == 0 {
            eval = eval.times(one);
        }
        i = i + 1;
    }
    proof {
        lemma_rounds(v@, *point, v@.len());
        assert(v@.skip(0) =~= v@);
    }
    eval
}

/// The smallest power of two of the form `p * 2^k` that is at least `n`.
pub open spec fn doubled_to(p: nat, n: nat) -> nat
    decreases 2 * n - p,
{
    if p >= n || p == 0 {
        p
    } else {
        doubled_to(2 * p, n)
    }
}

/// The smallest power of two that is at least `n`.
pub open spec fn next_power(n: nat) -> nat {
    doubled_to(1, n)
}

/// The vector with zeros behind it up to the next power of two.
pub open spec fn padded(v: Seq<Fr>) -> Seq<Fr> {
    v + repeated(f_zero::<Fr>(), (next_power(v.len()) - v.len()) as nat)
}

/// Evaluates the polynomial with the coefficients `v` at `point`, as a circuit does
/// it, where the length is a power of two.
pub fn evaluate_padded_gadget(v: &Vec<Fr>, point: &Fr, one: &Fr) -> (r: Result<Fr, Error>)
    requires
        v@.len() <= usize::MAX / 2,
    ensures
        r is Ok <==> v@.len() == next_power(v@.len()),
        r matches Ok(e) ==> e == eval_rounds(v@, *point, *one, v@.len()) && (*one == f_one::<Fr>() ==> e
            == poly_eval(v@, *point)),
        r matches Err(e) ==> e@ == ErrorView::NotSatisfied,
{
    let n = v.len();
    let mut p: usize = 1;
    while p < n
        invariant
            0 < p,
            n == v@.len(),
            n <= usize::MAX / 2,
            doubled_to(p as nat, n as nat) == next_power(n as nat),
        decreases 2 * n - p,
    {
        p = 2 * p;
    }
    if p != n {
        return Err(Error::NotSatisfied);
    }
    Ok(evaluate_gadget(v, point, one))
}

/// The polynomial with coefficients zero is zero everywhere.
proof fn lemma_zero_rounds(n: nat, x: Fr)
    ensures
        poly_eval(repeated(f_zero::<Fr>(), n), x) == f_zero::<Fr>(),
    decreases n,
{
    if n > 0 {
        let z = repeated(f_zero::<Fr>(), n);
        assert(z.drop_first() =~= repeated(f_zero::<Fr>(), (n - 1) as nat));
        lemma_zero_rounds((n - 1) as nat, x);
        lemma_mul_zero(x);
        lemma_units::<Fr>();
        lemma_add_zero(f_zero::<Fr>());
    }
}

/// Zeros behind the coefficients leave the value of the polynomial as it is.
pub proof fn law_padding_keeps_value(v: Seq<Fr>, n: nat, x: Fr)
    ensures
        poly_eval(v + repeated(f_zero::<Fr>(), n), x) == poly_eval(v, x),
    decreases v.len(),
{
    let w = v + repeated(f_zero::<Fr>(), n);
    if v.len() == 0 {
        assert(w =~= repeated(f_zero::<Fr>(), n));
        lemma_zero_rounds(n, x);
    } else {
        assert(w.drop_first() =~= v.drop_first() + repeated(f_zero::<Fr>(), n));
        law_padding_keeps_value(v.drop_first(), n, x);
    }
}

} // verus!
