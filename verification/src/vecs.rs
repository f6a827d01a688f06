//! Copying, joining and comparing vectors.
use vstd::prelude::*;
use crate::field::Field;

verus! {

/// The contents of a list of vectors.
pub open spec fn rows<T>(v: Seq<Vec<T>>) -> Seq<Seq<T>> {
    v.map_values(|r: Vec<T>| r@)
}

/// The rows of a list behind each other.
pub open spec fn joined<T>(v: Seq<Seq<T>>) -> Seq<T>
    decreases v.len(),
{
    if v.len() == 0 {
        Seq::empty()
    } else {
        joined(v.drop_last()) + v.last()
    }
}

/// `n` times the element `x`.
pub open spec fn repeated<T>(x: T, n: nat) -> Seq<T> {
    Seq::new(n, |i: int| x)
}

/// Appends the elements of `src` to `dst`.
pub fn push_all<T: Copy>(dst: &mut Vec<T>, src: &Vec<T>)
    ensures
        final(dst)@ == old(dst)@ + src@,
{
    let mut i: usize = 0;
    while i < src.len()
        invariant
            i <= src@.len(),
            dst@ == old(dst)@ + src@.take(i as int),
        decreases src.len() - i,
    {
        dst.push(src[i]);
        assert(src@.take(i + 1) =~= src@.take(i as int).push(src@[i as int]));
        i = i + 1;
    }
    assert(src@.take(i as int) =~= src@);
}

/// A copy of the elements from `from` up to `to`.
pub fn copy_range<T: Copy>(v: &Vec<T>, from: usize, to: usize) -> (r: Vec<T>)
    requires
        from <= to <= v@.len(),
    ensures
        r@ == v@.subrange(from as int, to as int),
{
    let mut r: Vec<T> = Vec::new();
    let mut i: usize = from;
    while i < to
        invariant
            from <= i <= to <= v@.len(),
            r@ == v@.subrange(from as int, i as int),
        decreases to - i,
    {
        r.push(v[i]);
        assert(v@.subrange(from as int, i + 1) =~= v@.subrange(from as int, i as int).push(v@[i as int]));
        i = i + 1;
    }
    r
}

/// A copy of a vector.
pub fn copy_of<T: Copy>(v: &Vec<T>) -> (r: Vec<T>)
    ensures
        r@ == v@,
{
    let r = copy_range(v, 0, v.len());
    assert(v@.subrange(0, v@.len() as int) =~= v@);
    r
}

/// Copies of the rows of a list.
pub fn copy_rows<T: Copy>(v: &Vec<Vec<T>>) -> (r: Vec<Vec<T>>)
    ensures
        rows(r@) == rows(v@),
{
    let mut r: Vec<Vec<T>> = Vec::new();
    let mut i: usize = 0;
    while i < v.len()
        invariant
            i <= v@.len(),
            rows(r@) == rows(v@).take(i as int),
        decreases v.len() - i,
    {
        let ghost before = r@;
        r.push(copy_of(&v[i]));
        assert(rows(r@) =~= rows(before).push(rows(v@)[i as int]));
        assert(rows(v@).take(i + 1) =~= rows(v@).take(i as int).push(rows(v@)[i as int]));
        i = i + 1;
    }
    assert(rows(v@).take(i as int) =~= rows(v@));
    r
}

/// A vector of `n` times `x`.
pub fn filled<T: Copy>(x: T, n: usize) -> (r: Vec<T>)
    ensures
        r@ == repeated(x, n as nat),
{
    let mut r: Vec<T> = Vec::new();
    let mut i: usize = 0;
    assert(r@ =~= repeated(x, 0));
    while i < n
        invariant
            i <= n,
            r@ == repeated(x, i as nat),
        decreases n - i,
    {
        r.push(x);
        assert(r@ =~= repeated(x, (i + 1) as nat));
        i = i + 1;
    }
    r
}

/// Whether two vectors of field elements are the same.
pub fn same_elements<F: Field>(a: &Vec<F>, b: &Vec<F>) -> (r: bool)
    ensures
        r == (a@ == b@),
{
    if a.len() != b.len() {
        return false;
    }
    let mut i: usize = 0;
    while i < a.len()
        invariant
            i <= a@.len(),
            a@.len() == b@.len(),
            forall|k: int| 0 <= k < i ==> a@[k] == b@[k],
        decreases a.len() - i,
    {
        if !a[i].same(&b[i]) {
            return false;
        }
        i = i + 1;
    }
    assert(a@ =~= b@);
    true
}

/// The elements of `v` in reverse order.
pub fn reversed<T: Copy>(v: &Vec<T>) -> (r: Vec<T>)
    ensures
        r@ == v@.reverse(),
{
    let mut r: Vec<T> = Vec::new();
    let mut i: usize = v.len();
    while i > 0
        invariant
            i <= v@.len(),
            r@ == v@.skip(i as int).reverse(),
        decreases i,
    {
        i = i - 1;
        r.push(v[i]);
        assert(r@ =~= v@.skip(i as int).reverse());
    }
    assert(v@.skip(0) =~= v@);
    r
}

/// The rows of a list behind each other.
pub fn join_rows<T: Copy>(v: &Vec<Vec<T>>) -> (r: Vec<T>)
    ensures
        r@ == joined(rows(v@)),
{
    let mut r: Vec<T> = Vec::new();
    let mut i: usize = 0;
    assert(rows(v@).take(0) =~= Seq::empty());
    while i < v.len()
        invariant
            i <= v@.len(),
            r@ == joined(rows(v@).take(i as int)),
        decreases v.len() - i,
    {
        push_all(&mut r, &v[i]);
        assert(rows(v@).take(i + 1).drop_last() =~= rows(v@).take(i as int));
        i = i + 1;
    }
    assert(rows(v@).take(i as int) =~= rows(v@));
    r
}

} // verus!
