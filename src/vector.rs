//! Elementwise operations on state vectors, and their meaning as sequences.
use vstd::prelude::*;

use crate::scalar::{Real, Scalar};

verus! {

/// `x + a·k`, entry by entry.
pub open spec fn shifted<S: Scalar>(x: Seq<S>, k: Seq<S>, a: S::Real) -> Seq<S> {
    Seq::new(x.len(), |i: int| x[i].spec_add(k[i].spec_mul_real(a)))
}

/// `x ⊙ d`, the entrywise product.
pub open spec fn scaled<S: Scalar>(x: Seq<S>, d: Seq<S>) -> Seq<S> {
    Seq::new(x.len(), |i: int| x[i].spec_mul(d[i]))
}

/// `(y - b) / a`, entry by entry.
pub open spec fn difference_quotient<S: Scalar>(y: Seq<S>, b: Seq<S>, a: S::Real) -> Seq<S> {
    Seq::new(y.len(), |i: int| y[i].spec_sub(b[i]).spec_div_real(a))
}

/// The sum of the squared moduli of the first `n` entries, added from the left.
pub open spec fn sum_abs_sqr<S: Scalar>(x: Seq<S>, n: nat) -> S::Real
    decreases n,
{
    if n == 0 {
        S::Real::spec_from_usize(0)
    } else {
        sum_abs_sqr(x, (n - 1) as nat).spec_plus(x[n - 1].spec_abs_sqr())
    }
}

/// The Euclidean norm.
pub open spec fn norm_l2<S: Scalar>(x: Seq<S>) -> S::Real {
    sum_abs_sqr(x, x.len()).spec_sqrt()
}

/// `n` copies of zero.
pub open spec fn zeros<S: Scalar>(n: nat) -> Seq<S> {
    Seq::new(n, |i: int| S::spec_zero())
}

/// A vector of `n` zeros.
pub fn zeros_vec<S: Scalar>(n: usize) -> (r: Vec<S>)
    ensures
        r@ == zeros::<S>(n as nat),
{
    let mut r: Vec<S> = Vec::with_capacity(n);
    let z = S::zero();
    let mut i: usize = 0;
    while i < n
        invariant
            i <= n,
            z == S::spec_zero(),
            r@ == zeros::<S>(i as nat),
        decreases n - i,
    {
        r.push(z);
        i = i + 1;
        assert(r@ =~= zeros::<S>(i as nat));
    }
    r
}

/// A copy of `src`.
pub fn duplicate<S: Scalar>(src: &Vec<S>) -> (r: Vec<S>)
    ensures
        r@ == src@,
{
    let n = src.len();
    let mut r: Vec<S> = Vec::with_capacity(n);
    let mut i: usize = 0;
    while i < n
        invariant
            n == src@.len(),
            i <= n,
            r@ == src@.subrange(0, i as int),
        decreases n - i,
    {
        r.push(src[i]);
        i = i + 1;
        assert(r@ =~= src@.subrange(0, i as int));
    }
    assert(r@ =~= src@);
    r
}

/// Copies `src` into `dst`, whose length it already has.
pub fn copy_into<S: Scalar>(dst: &mut Vec<S>, src: &Vec<S>)
    requires
        old(dst)@.len() == src@.len(),
    ensures
        final(dst)@ == src@,
{
    let n = src.len();
    let mut i: usize = 0;
    while i < n
        invariant
            n == src@.len(),
            dst@.len() == n,
            i <= n,
            forall|j: int| 0 <= j < i ==> dst@[j] == src@[j],
        decreases n - i,
    {
        dst.set(i, src[i]);
        i = i + 1;
    }
    assert(dst@ =~= src@);
}

/// Overwrites `k` with `x + a·k`.
pub fn shift_into<S: Scalar>(k: &mut Vec<S>, x: &Vec<S>, a: S::Real)
    requires
        old(k)@.len() == x@.len(),
    ensures
        final(k)@ == shifted(x@, old(k)@, a),
{
    let n = x.len();
    let mut i: usize = 0;
    while i < n
        invariant
            n == x@.len(),
            k@.len() == n,
            i <= n,
            forall|j: int| 0 <= j < i ==> k@[j] == x@[j].spec_add(old(k)@[j].spec_mul_real(a)),
            forall|j: int| i <= j < n ==> k@[j] == old(k)@[j],
        decreases n - i,
    {
        let v = x[i].add(k[i].mul_real(a));
        k.set(i, v);
        i = i + 1;
    }
    assert(k@ =~= shifted(x@, old(k)@, a));
}

/// Multiplies `x` entry by entry with `d`.
pub fn scale_into<S: Scalar>(x: &mut Vec<S>, d: &Vec<S>)
    requires
        old(x)@.len() == d@.len(),
    ensures
        final(x)@ == scaled(old(x)@, d@),
{
    let n = d.len();
    let mut i: usize = 0;
    while i < n
        invariant
            n == d@.len(),
            x@.len() == n,
            i <= n,
            forall|j: int| 0 <= j < i ==> x@[j] == old(x)@[j].spec_mul(d@[j]),
            forall|j: int| i <= j < n ==> x@[j] == old(x)@[j],
        decreases n - i,
    {
        let v = x[i].mul(d[i]);
        x.set(i, v);
        i = i + 1;
    }
    assert(x@ =~= scaled(old(x)@, d@));
}

/// The Euclidean norm of `x`.
pub fn norm<S: Scalar>(x: &Vec<S>) -> (r: S::Real)
    ensures
        r == norm_l2(x@),
{
    let n = x.len();
    let mut acc = S::Real::from_usize(0);
    let mut i: usize = 0;
    while i < n
        invariant
            n == x@.len(),
            i <= n,
            acc == sum_abs_sqr(x@, i as nat),
        decreases n - i,
    {
        acc = acc.plus(x[i].abs_sqr());
        i = i + 1;
    }
    acc.sqrt()
}

/// `a + b`, entry by entry.
pub open spec fn sum<S: Scalar>(a: Seq<S>, b: Seq<S>) -> Seq<S> {
    Seq::new(a.len(), |i: int| a[i].spec_add(b[i]))
}

/// Adds `a·k` to `acc`.
pub fn add_scaled<S: Scalar>(acc: &mut Vec<S>, k: &Vec<S>, a: S::Real)
    requires
        old(acc)@.len() == k@.len(),
    ensures
        final(acc)@ == shifted(old(acc)@, k@, a),
{
    let n = k.len();
    let mut i: usize = 0;
    while i < n
        invariant
            n == k@.len(),
            acc@.len() == n,
            i <= n,
            forall|j: int| 0 <= j < i ==> acc@[j] == old(acc)@[j].spec_add(k@[j].spec_mul_real(a)),
            forall|j: int| i <= j < n ==> acc@[j] == old(acc)@[j],
        decreases n - i,
    {
        let v = acc[i].add(k[i].mul_real(a));
        acc.set(i, v);
        i = i + 1;
    }
    assert(acc@ =~= shifted(old(acc)@, k@, a));
}

/// Adds `a·(k + l)` to `acc`.
pub fn add_scaled_sum<S: Scalar>(acc: &mut Vec<S>, k: &Vec<S>, l: &Vec<S>, a: S::Real)
    requires
        old(acc)@.len() == k@.len(),
        l@.len() == k@.len(),
    ensures
        final(acc)@ == shifted(old(acc)@, sum(k@, l@), a),
{
    let n = k.len();
    let mut i: usize = 0;
    while i < n
        invariant
            n == k@.len(),
            n == l@.len(),
            acc@.len() == n,
            i <= n,
            forall|j: int|
                0 <= j < i ==> acc@[j] == old(acc)@[j].spec_add(k@[j].spec_add(l@[j]).spec_mul_real(a)),
            forall|j: int| i <= j < n ==> acc@[j] == old(acc)@[j],
        decreases n - i,
    {
        let v = acc[i].add(k[i].add(l[i]).mul_real(a));
        acc.set(i, v);
        i = i + 1;
    }
    assert(acc@ =~= shifted(old(acc)@, sum(k@, l@), a));
}

} // verus!
