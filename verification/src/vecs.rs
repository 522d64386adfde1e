//! Moving the elements out of vectors in order.
use vstd::prelude::*;

verus! {

/// Reverses a vector.
pub fn reversed<X>(v: Vec<X>) -> (r: Vec<X>)
    ensures
        r@.len() == v@.len(),
        forall|i: int| 0 <= i < v@.len() ==> r@[i] == v@[v@.len() - 1 - i],
{
    let ghost initial = v@;
    let mut v = v;
    let mut r: Vec<X> = Vec::new();
    while v.len() > 0
        invariant
            v@.len() + r@.len() == initial.len(),
            v@ == initial.take(v@.len() as int),
            forall|i: int| 0 <= i < r@.len() ==> r@[i] == initial[initial.len() - 1 - i],
        decreases v@.len(),
    {
        let x = v.pop().unwrap();
        r.push(x);
    }
    r
}

/// Pairs up the elements of two vectors, up to the length of the shorter
/// one.
pub fn zipped<X, U>(a: Vec<X>, b: Vec<U>) -> (r: Vec<(X, U)>)
    ensures
        r@.len() == if a@.len() <= b@.len() {
            a@.len()
        } else {
            b@.len()
        },
        forall|i: int| 0 <= i < r@.len() ==> r@[i] == (a@[i], b@[i]),
{
    let ghost a0 = a@;
    let ghost b0 = b@;
    let mut ra = reversed(a);
    let mut rb = reversed(b);
    let mut r: Vec<(X, U)> = Vec::new();
    while ra.len() > 0 && rb.len() > 0
        invariant
            ra@.len() + r@.len() == a0.len(),
            rb@.len() + r@.len() == b0.len(),
            forall|i: int| 0 <= i < ra@.len() ==> ra@[i] == a0[a0.len() - 1 - i],
            forall|i: int| 0 <= i < rb@.len() ==> rb@[i] == b0[b0.len() - 1 - i],
            forall|i: int| 0 <= i < r@.len() ==> r@[i] == (a0[i], b0[i]),
        decreases ra@.len(),
    {
        let x = ra.pop().unwrap();
        let y = rb.pop().unwrap();
        r.push((x, y));
    }
    r
}

} // verus!
