//! Low-dimensional chaotic systems, written for any scalar type.
use vstd::prelude::*;

use crate::scalar::Scalar;
use crate::traits::{Explicit, ModelSpec, SemiImplicit};
use crate::vector::duplicate;

verus! {

/// The Lorenz three-variable system:
/// `dx/dt = p(y - x)`, `dy/dt = x(r - z) - y`, `dz/dt = xy - bz`.
/// `(p, r, b) = (10, 28, 8/3)` are the classical parameters.
#[derive(Clone, Copy, Debug)]
pub struct Lorenz63<S: Scalar> {
    pub p: S,
    pub r: S,
    pub b: S,
}

impl<S: Scalar> Lorenz63<S> {
    pub fn new(p: S, r: S, b: S) -> (m: Self)
        ensures
            m.p == p,
            m.r == r,
            m.b == b,
    {
        Lorenz63 { p, r, b }
    }
}

impl<S: Scalar> ModelSpec for Lorenz63<S> {
    type Scalar = S;

    open spec fn spec_size(&self) -> nat {
        3
    }

    fn model_size(&self) -> (n: usize) {
        3
    }
}

impl<S: Scalar> Explicit for Lorenz63<S> {
    open spec fn spec_rhs(&self, v: Seq<S>) -> Seq<S> {
        seq![
            self.p.spec_mul(v[1].spec_sub(v[0])),
            v[0].spec_mul(self.r.spec_sub(v[2])).spec_sub(v[1]),
            v[0].spec_mul(v[1]).spec_sub(self.b.spec_mul(v[2])),
        ]
    }

    fn rhs(&mut self, v: &mut Vec<S>) {
        let x = v[0];
        let y = v[1];
        let z = v[2];
        v.set(0, self.p.mul(y.sub(x)));
        v.set(1, x.mul(self.r.sub(z)).sub(y));
        v.set(2, x.mul(y).sub(self.b.mul(z)));
        assert(v@ =~= self.spec_rhs(old(v)@));
    }
}

impl<S: Scalar> SemiImplicit for Lorenz63<S> {
    /// The nonlinear part, beside the diagonal `(-p, -1, -b)`.
    open spec fn spec_nlin(&self, v: Seq<S>) -> Seq<S> {
        seq![
            self.p.spec_mul(v[1]),
            v[0].spec_mul(self.r.spec_sub(v[2])),
            v[0].spec_mul(v[1]),
        ]
    }

    open spec fn spec_diag(&self) -> Seq<S> {
        seq![self.p.spec_neg(), S::spec_one().spec_neg(), self.b.spec_neg()]
    }

    fn nlin(&mut self, v: &mut Vec<S>) {
        let x = v[0];
        let y = v[1];
        let z = v[2];
        v.set(0, self.p.mul(y));
        v.set(1, x.mul(self.r.sub(z)));
        v.set(2, x.mul(y));
        assert(v@ =~= self.spec_nlin(old(v)@));
    }

    fn diag(&self) -> (d: Vec<S>) {
        let d = vec![self.p.neg(), S::one().neg(), self.b.neg()];
        assert(d@ =~= self.spec_diag());
        d
    }
}

/// The Roessler system:
/// `dx/dt = -y - z`, `dy/dt = x + ay`, `dz/dt = b + xz - cz`.
/// `(a, b, c) = (0.2, 0.2, 5.7)` are the classical parameters.
#[derive(Clone, Copy, Debug)]
pub struct Roessler<S: Scalar> {
    pub a: S,
    pub b: S,
    pub c: S,
}

impl<S: Scalar> Roessler<S> {
    pub fn new(a: S, b: S, c: S) -> (m: Self)
        ensures
            m.a == a,
            m.b == b,
            m.c == c,
    {
        Roessler { a, b, c }
    }
}

impl<S: Scalar> ModelSpec for Roessler<S> {
    type Scalar = S;

    open spec fn spec_size(&self) -> nat {
        3
    }

    fn model_size(&self) -> (n: usize) {
        3
    }
}

impl<S: Scalar> Explicit for Roessler<S> {
    open spec fn spec_rhs(&self, v: Seq<S>) -> Seq<S> {
        seq![
            v[1].spec_neg().spec_sub(v[2]),
            v[0].spec_add(self.a.spec_mul(v[1])),
            self.b.spec_add(v[0].spec_mul(v[2])).spec_sub(self.c.spec_mul(v[2])),
        ]
    }

    fn rhs(&mut self, v: &mut Vec<S>) {
        let x = v[0];
        let y = v[1];
        let z = v[2];
        v.set(0, y.neg().sub(z));
        v.set(1, x.add(self.a.mul(y)));
        v.set(2, self.b.add(x.mul(z)).sub(self.c.mul(z)));
        assert(v@ =~= self.spec_rhs(old(v)@));
    }
}

/// The Lorenz-96 system on a ring of `n` sites:
/// `dx_i/dt = (x_{i+1} - x_{i-2})·x_{i-1} - x_i + f`.
/// `(f, n) = (8, 40)` are the usual parameters.
#[derive(Clone, Copy, Debug)]
pub struct Lorenz96<S: Scalar> {
    pub f: S,
    pub n: usize,
}

/// The site `k` steps after `i` on a ring of `n` sites (before it, for a negative `k`).
pub open spec fn ring(i: int, k: int, n: int) -> int {
    (i + k) % n
}

proof fn lemma_ring(i: int, k: int, n: int)
    requires
        0 <= i < n,
        -n <= k <= n,
    ensures
        ring(i, k, n) == if i + k < 0 {
            i + k + n
        } else if i + k < n {
            i + k
        } else {
            i + k - n
        },
{
    if i + k < 0 {
        vstd::arithmetic::div_mod::lemma_mod_add_multiples_vanish(i + k, n);
        vstd::arithmetic::div_mod::lemma_small_mod((i + k + n) as nat, n as nat);
    } else if i + k < n {
        vstd::arithmetic::div_mod::lemma_small_mod((i + k) as nat, n as nat);
    } else {
        vstd::arithmetic::div_mod::lemma_mod_sub_multiples_vanish(i + k, n);
        vstd::arithmetic::div_mod::lemma_small_mod((i + k - n) as nat, n as nat);
    }
}

impl<S: Scalar> Lorenz96<S> {
    pub fn new(f: S, n: usize) -> (m: Self)
        ensures
            m.f == f,
            m.n == n,
    {
        Lorenz96 { f, n }
    }
}

impl<S: Scalar> ModelSpec for Lorenz96<S> {
    type Scalar = S;

    open spec fn spec_size(&self) -> nat {
        self.n as nat
    }

    fn model_size(&self) -> (n: usize) {
        self.n
    }
}

impl<S: Scalar> Explicit for Lorenz96<S> {
    open spec fn spec_rhs(&self, v: Seq<S>) -> Seq<S> {
        let n = v.len() as int;
        Seq::new(
            v.len(),
            |i: int|
                v[ring(i, 1, n)].spec_sub(v[ring(i, -2, n)]).spec_mul(v[ring(i, -1, n)]).spec_sub(
                    v[i],
                ).spec_add(self.f),
        )
    }

    fn rhs(&mut self, v: &mut Vec<S>) {
        let n = v.len();
        let v0 = duplicate(v);
        let mut i: usize = 0;
        while i < n
            invariant
                n == v@.len(),
                v0@ == old(v)@,
                v0@.len() == n,
                i <= n,
                forall|j: int| 0 <= j < i ==> v@[j] == self.spec_rhs(v0@)[j],
            decreases n - i,
        {
            let p1 = if i + 1 < n {
                i + 1
            } else {
                0
            };
            let m1 = if i >= 1 {
                i - 1
            } else {
                n - 1
            };
            let m2 = if i >= 2 {
                i - 2
            } else if n >= 2 - i {
                n - (2 - i)
            } else {
                0
            };
            proof {
                lemma_ring(i as int, 1, n as int);
                lemma_ring(i as int, -1, n as int);
                if n >= 2 {
                    lemma_ring(i as int, -2, n as int);
                } else {
                    assert((-2int) % 1int == 0int);
                }
            }
            let val = v0[p1].sub(v0[m2]).mul(v0[m1]).sub(v0[i]).add(self.f);
            v.set(i, val);
            i = i + 1;
        }
        assert(v@ =~= self.spec_rhs(old(v)@));
    }
}

} // verus!
