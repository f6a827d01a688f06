//! Prime fields: the arithmetic interface shared by the two fields of the curve
//! cycle, its mathematical model and the ring laws.
use vstd::prelude::*;
use vstd::arithmetic::div_mod::lemma_mod_bound;
use vstd::arithmetic::div_mod::lemma_small_mod;

verus! {

/// The mathematical model of a prime field's elements: each stands for an
/// integer below the modulus.
pub trait FieldModel: Sized + Copy {
    /// The field's modulus.
    spec fn modulus() -> nat;

    /// The integer that stands for the element.
    spec fn val(self) -> nat;

    /// The element that stands for `n`, an integer below `2^256`.
    spec fn of(n: nat) -> Self;

    proof fn lemma_modulus()
        ensures
            1 < Self::modulus() < 0x1_0000_0000_0000_0000_0000_0000_0000_0000_0000_0000_0000_0000_0000_0000_0000_0000nat,
    ;

    /// Below the modulus, `of` has `val` for its inverse.
    proof fn lemma_val_of(n: nat)
        requires
            n < Self::modulus(),
        ensures
            Self::of(n).val() == n,
    ;

    /// An element is determined by its integer.
    proof fn lemma_of_val(self)
        ensures
            Self::of(self.val()) == self,
    ;
}

/// Whether the element is held by an integer below the modulus.
pub open spec fn canonical<F: FieldModel>(a: F) -> bool {
    a.val() < F::modulus()
}

pub open spec fn f_zero<F: FieldModel>() -> F {
    F::of(0)
}

pub open spec fn f_one<F: FieldModel>() -> F {
    F::of(1)
}

/// Sum in the field.
pub open spec fn f_add<F: FieldModel>(a: F, b: F) -> F {
    F::of(((a.val() + b.val()) % F::modulus()) as nat)
}

/// Difference in the field.
pub open spec fn f_sub<F: FieldModel>(a: F, b: F) -> F {
    F::of(((a.val() - b.val()) % (F::modulus() as int)) as nat)
}

/// Product in the field.
pub open spec fn f_mul<F: FieldModel>(a: F, b: F) -> F {
    F::of(((a.val() * b.val()) % F::modulus()) as nat)
}

/// `a` to the power `n`.
pub open spec fn f_pow<F: FieldModel>(a: F, n: nat) -> F
    decreases n,
{
    if n == 0 {
        f_one::<F>()
    } else {
        f_mul(f_pow(a, (n - 1) as nat), a)
    }
}

/// The operations of a prime field.
pub trait Field: FieldModel {
    fn zero() -> (r: Self)
        ensures
            r == f_zero::<Self>(),
    ;

    fn one() -> (r: Self)
        ensures
            r == f_one::<Self>(),
    ;

    fn plus(&self, other: &Self) -> (r: Self)
        ensures
            r == f_add(*self, *other),
    ;

    fn minus(&self, other: &Self) -> (r: Self)
        ensures
            r == f_sub(*self, *other),
    ;

    fn times(&self, other: &Self) -> (r: Self)
        ensures
            r == f_mul(*self, *other),
    ;

    fn same(&self, other: &Self) -> (b: bool)
        ensures
            b == (*self == *other),
    ;
}

proof fn lemma_mod_small(n: int, m: int)
    requires
        m > 0,
    ensures
        0 <= n % m < m,
{
    lemma_mod_bound(n, m);
}

/// What the integers of sums, differences and products are.
pub proof fn lemma_op_values<F: FieldModel>(a: F, b: F)
    ensures
        f_add(a, b).val() == (a.val() + b.val()) % F::modulus(),
        f_sub(a, b).val() == (a.val() - b.val()) % (F::modulus() as int),
        f_mul(a, b).val() == (a.val() * b.val()) % F::modulus(),
        canonical(f_add(a, b)),
        canonical(f_sub(a, b)),
        canonical(f_mul(a, b)),
{
    F::lemma_modulus();
    let m = F::modulus() as int;
    lemma_mod_small((a.val() + b.val()) as int, m);
    lemma_mod_small(a.val() - b.val(), m);
    lemma_mod_small((a.val() * b.val()) as int, m);
    F::lemma_val_of(((a.val() + b.val()) % F::modulus()) as nat);
    F::lemma_val_of(((a.val() - b.val()) % m) as nat);
    F::lemma_val_of(((a.val() * b.val()) % F::modulus()) as nat);
}

/// Two elements with one integer are one element.
pub proof fn lemma_val_injective<F: FieldModel>(a: F, b: F)
    requires
        a.val() == b.val(),
    ensures
        a == b,
{
    a.lemma_of_val();
    b.lemma_of_val();
}

/// Zero and one are the integers 0 and 1.
pub proof fn lemma_units<F: FieldModel>()
    ensures
        f_zero::<F>().val() == 0,
        f_one::<F>().val() == 1,
        canonical(f_zero::<F>()),
        canonical(f_one::<F>()),
        f_zero::<F>() != f_one::<F>(),
{
    F::lemma_modulus();
    F::lemma_val_of(0);
    F::lemma_val_of(1);
}

/// Addition does not depend on the order of its arguments.
pub proof fn lemma_add_comm<F: FieldModel>(a: F, b: F)
    ensures
        f_add(a, b) == f_add(b, a),
{
}

/// Multiplication does not depend on the order of its arguments.
pub proof fn lemma_mul_comm<F: FieldModel>(a: F, b: F)
    ensures
        f_mul(a, b) == f_mul(b, a),
{
    assert(a.val() * b.val() == b.val() * a.val()) by (nonlinear_arith);
}

/// Zero is neutral for addition.
pub proof fn lemma_add_zero<F: FieldModel>(a: F)
    requires
        canonical(a),
    ensures
        f_add(a, f_zero::<F>()) == a,
        f_add(f_zero::<F>(), a) == a,
{
    lemma_units::<F>();
    lemma_small_mod(a.val(), F::modulus());
    a.lemma_of_val();
}

/// One is neutral for multiplication.
pub proof fn lemma_mul_one<F: FieldModel>(a: F)
    requires
        canonical(a),
    ensures
        f_mul(a, f_one::<F>()) == a,
        f_mul(f_one::<F>(), a) == a,
{
    lemma_units::<F>();
    lemma_small_mod(a.val(), F::modulus());
    a.lemma_of_val();
    assert(a.val() * 1 == a.val()) by (nonlinear_arith);
    assert(1 * a.val() == a.val()) by (nonlinear_arith);
}

/// Zero annihilates.
pub proof fn lemma_mul_zero<F: FieldModel>(a: F)
    ensures
        f_mul(a, f_zero::<F>()) == f_zero::<F>(),
        f_mul(f_zero::<F>(), a) == f_zero::<F>(),
{
    F::lemma_modulus();
    lemma_units::<F>();
    assert(a.val() * 0 == 0) by (nonlinear_arith);
    assert(0 * a.val() == 0) by (nonlinear_arith);
    lemma_small_mod(0, F::modulus());
}

} // verus!
