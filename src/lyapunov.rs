//! Lyapunov analysis: numerical tangent maps, successive QR bookkeeping, exponents and covariant
//! vectors.
use vstd::prelude::*;

use crate::scalar::{Real, Scalar};
use crate::traits::{ModelSpec, TimeEvolution, TimeStep};
use crate::vector::{difference_quotient, duplicate, norm, norm_l2, shift_into, shifted};

verus! {

/// The state one step of `t` after `x`.
pub open spec fn image<T: TimeEvolution>(t: T, x: Seq<T::Scalar>) -> Seq<T::Scalar> {
    t.spec_flow(t.spec_dt(), x)
}

/// The finite-difference image of the direction `v` under the tangent map of `t` at `x`:
/// with `n = alpha / max(|v|, alpha)`, it is `(Φ(x + n·v) - Φ(x)) / n`.
pub open spec fn jvp<T: TimeEvolution>(
    t: T,
    x: Seq<T::Scalar>,
    alpha: <T::Scalar as Scalar>::Real,
    v: Seq<T::Scalar>,
) -> Seq<T::Scalar> {
    let n = alpha.spec_divide(norm_l2(v).spec_max(alpha));
    difference_quotient(image(t, shifted(x, v, n)), image(t, x), n)
}

/// Overwrites `dx` with its finite-difference image under the tangent map of `teo` at `x`,
/// where `fx` is the image of `x`.
fn jvp_in_place<T: TimeEvolution>(
    teo: &mut T,
    x: &Vec<T::Scalar>,
    fx: &Vec<T::Scalar>,
    alpha: <T::Scalar as Scalar>::Real,
    dx: &mut Vec<T::Scalar>,
)
    requires
        old(teo).inv(),
        x@.len() == old(teo).spec_size(),
        old(dx)@.len() == x@.len(),
        fx@ == image(*old(teo), x@),
        fx@.len() == x@.len(),
    ensures
        final(teo).inv(),
        final(dx)@ == jvp(*old(teo), x@, alpha, old(dx)@),
        final(dx)@.len() == old(dx)@.len(),
        final(teo).spec_size() == old(teo).spec_size(),
        final(teo).spec_dt() == old(teo).spec_dt(),
        forall|t: <T::Scalar as Scalar>::Real, y: Seq<T::Scalar>| #[trigger]
            final(teo).spec_flow(t, y) == old(teo).spec_flow(t, y),
{
    let ghost v = dx@;
    let dx_nrm = norm(dx).max(alpha);
    let n = alpha.divide(dx_nrm);
    shift_into(dx, x, n);
    teo.iterate(dx);
    let len = dx.len();
    let mut i: usize = 0;
    while i < len
        invariant
            len == dx@.len(),
            len == fx@.len(),
            i <= len,
            forall|j: int|
                0 <= j < i ==> dx@[j] == image(*old(teo), shifted(x@, v, n))[j].spec_sub(
                    fx@[j],
                ).spec_div_real(n),
            forall|j: int| i <= j < len ==> dx@[j] == image(*old(teo), shifted(x@, v, n))[j],
        decreases len - i,
    {
        let d = dx[i].sub(fx[i]).div_real(n);
        dx.set(i, d);
        i = i + 1;
    }
    assert(dx@ =~= jvp(*old(teo), x@, alpha, v));
}

/// The tangent map of a time-evolution operator at a point, approximated by finite differences.
pub struct Jacobian<'jac, T: TimeEvolution> {
    f: &'jac mut T,
    x: Vec<T::Scalar>,
    fx: Vec<T::Scalar>,
    alpha: <T::Scalar as Scalar>::Real,
}

impl<'jac, T: TimeEvolution> Jacobian<'jac, T> {
    /// The operator whose tangent map is approximated.
    pub closed spec fn spec_teo(&self) -> T {
        *self.f
    }

    /// The base point.
    pub closed spec fn spec_point(&self) -> Seq<T::Scalar> {
        self.x@
    }

    /// The size of the perturbations.
    pub closed spec fn spec_alpha(&self) -> <T::Scalar as Scalar>::Real {
        self.alpha
    }

    /// The image of the direction `v`.
    pub open spec fn spec_apply(&self, v: Seq<T::Scalar>) -> Seq<T::Scalar> {
        jvp(self.spec_teo(), self.spec_point(), self.spec_alpha(), v)
    }

    pub closed spec fn inv(&self) -> bool {
        &&& self.f.inv()
        &&& self.x@.len() == self.f.spec_size()
        &&& self.fx@ == image(*self.f, self.x@)
        &&& self.fx@.len() == self.x@.len()
    }

    /// Sets up the tangent map of `f` at `x`, with perturbations of size `alpha`; computes the
    /// image of `x` once.
    pub fn new(f: &'jac mut T, x: Vec<T::Scalar>, alpha: <T::Scalar as Scalar>::Real) -> (r: Self)
        requires
            old(f).inv(),
            x@.len() == old(f).spec_size(),
        ensures
            r.inv(),
            r.spec_point() == x@,
            r.spec_alpha() == alpha,
            r.spec_teo().spec_size() == old(f).spec_size(),
            r.spec_teo().spec_dt() == old(f).spec_dt(),
            forall|t: <T::Scalar as Scalar>::Real, y: Seq<T::Scalar>| #[trigger]
                r.spec_teo().spec_flow(t, y) == old(f).spec_flow(t, y),
    {
        let mut fx = duplicate(&x);
        f.iterate(&mut fx);
        Jacobian { f, x, fx, alpha }
    }

    /// Overwrites `dx` with its image under the tangent map.
    pub fn apply_inplace(&mut self, dx: &mut Vec<T::Scalar>)
        requires
            old(self).inv(),
            old(dx)@.len() == old(self).spec_point().len(),
        ensures
            final(self).inv(),
            final(dx)@ == old(self).spec_apply(old(dx)@),
            final(dx)@.len() == old(dx)@.len(),
            final(self).spec_point() == old(self).spec_point(),
            final(self).spec_alpha() == old(self).spec_alpha(),
            forall|v: Seq<T::Scalar>| #[trigger]
                final(self).spec_apply(v) == old(self).spec_apply(v),
            final(self).spec_teo().spec_dt() == old(self).spec_teo().spec_dt(),
            final(self).spec_teo().spec_size() == old(self).spec_teo().spec_size(),
            forall|t: <T::Scalar as Scalar>::Real, y: Seq<T::Scalar>| #[trigger]
                final(self).spec_teo().spec_flow(t, y) == old(self).spec_teo().spec_flow(t, y),
    {
        jvp_in_place(self.f, &self.x, &self.fx, self.alpha, dx);
    }

    /// The image of `dx` under the tangent map.
    pub fn apply(&mut self, dx: Vec<T::Scalar>) -> (r: Vec<T::Scalar>)
        requires
            old(self).inv(),
            dx@.len() == old(self).spec_point().len(),
        ensures
            final(self).inv(),
            r@ == old(self).spec_apply(dx@),
            r@.len() == dx@.len(),
            final(self).spec_point() == old(self).spec_point(),
            final(self).spec_alpha() == old(self).spec_alpha(),
            forall|v: Seq<T::Scalar>| #[trigger]
                final(self).spec_apply(v) == old(self).spec_apply(v),
            final(self).spec_teo().spec_dt() == old(self).spec_teo().spec_dt(),
            final(self).spec_teo().spec_size() == old(self).spec_teo().spec_size(),
            forall|t: <T::Scalar as Scalar>::Real, y: Seq<T::Scalar>| #[trigger]
                final(self).spec_teo().spec_flow(t, y) == old(self).spec_teo().spec_flow(t, y),
    {
        let mut dx = dx;
        self.apply_inplace(&mut dx);
        dx
    }

    /// Overwrites each column of `a` with its image under the tangent map, one column after
    /// the other.
    pub fn apply_multi_inplace(&mut self, a: &mut Vec<Vec<T::Scalar>>)
        requires
            old(self).inv(),
            forall|j: int| 0 <= j < old(a)@.len() ==> (#[trigger] old(a)@[j])@.len() == old(self).spec_point().len(),
        ensures
            final(self).inv(),
            final(a)@.len() == old(a)@.len(),
            forall|j: int| 0 <= j < old(a)@.len() ==> (#[trigger] final(a)@[j])@ == old(self).spec_apply(old(a)@[j]@),
            forall|j: int| 0 <= j < old(a)@.len() ==> (#[trigger] final(a)@[j])@.len() == old(a)@[j]@.len(),
            final(self).spec_point() == old(self).spec_point(),
            final(self).spec_alpha() == old(self).spec_alpha(),
            forall|v: Seq<T::Scalar>| #[trigger]
                final(self).spec_apply(v) == old(self).spec_apply(v),
            final(self).spec_teo().spec_dt() == old(self).spec_teo().spec_dt(),
            final(self).spec_teo().spec_size() == old(self).spec_teo().spec_size(),
            forall|t: <T::Scalar as Scalar>::Real, y: Seq<T::Scalar>| #[trigger]
                final(self).spec_teo().spec_flow(t, y) == old(self).spec_teo().spec_flow(t, y),
    {
        let m = a.len();
        let mut j: usize = 0;
        while j < m
            invariant
                m == a@.len(),
                m == old(a)@.len(),
                j <= m,
                self.inv(),
                self.spec_point() == old(self).spec_point(),
                self.spec_alpha() == old(self).spec_alpha(),
                forall|v: Seq<T::Scalar>| #[trigger] self.spec_apply(v) == old(self).spec_apply(v),
                forall|k: int| 0 <= k < j ==> (#[trigger] a@[k])@ == old(self).spec_apply(old(a)@[k]@),
                forall|k: int| 0 <= k < j ==> (#[trigger] a@[k])@.len() == old(a)@[k]@.len(),
                forall|k: int| j <= k < m ==> #[trigger] a@[k] == old(a)@[k],
                self.spec_teo().spec_dt() == old(self).spec_teo().spec_dt(),
                self.spec_teo().spec_size() == old(self).spec_teo().spec_size(),
                forall|t: <T::Scalar as Scalar>::Real, y: Seq<T::Scalar>| #[trigger]
                    self.spec_teo().spec_flow(t, y) == old(self).spec_teo().spec_flow(t, y),
                forall|k: int| 0 <= k < m ==> (#[trigger] old(a)@[k])@.len() == old(self).spec_point().len(),
            decreases m - j,
        {
            let mut col = duplicate(&a[j]);
            self.apply_inplace(&mut col);
            a.set(j, col);
            j = j + 1;
        }
    }

    /// The images of the columns of `a` under the tangent map.
    pub fn apply_multi(&mut self, a: Vec<Vec<T::Scalar>>) -> (r: Vec<Vec<T::Scalar>>)
        requires
            old(self).inv(),
            forall|j: int| 0 <= j < a@.len() ==> (#[trigger] a@[j])@.len() == old(self).spec_point().len(),
        ensures
            final(self).inv(),
            r@.len() == a@.len(),
            forall|j: int| 0 <= j < a@.len() ==> (#[trigger] r@[j])@ == old(self).spec_apply(a@[j]@),
            forall|j: int| 0 <= j < a@.len() ==> (#[trigger] r@[j])@.len() == a@[j]@.len(),
            final(self).spec_point() == old(self).spec_point(),
            final(self).spec_alpha() == old(self).spec_alpha(),
            forall|v: Seq<T::Scalar>| #[trigger]
                final(self).spec_apply(v) == old(self).spec_apply(v),
            final(self).spec_teo().spec_dt() == old(self).spec_teo().spec_dt(),
            final(self).spec_teo().spec_size() == old(self).spec_teo().spec_size(),
            forall|t: <T::Scalar as Scalar>::Real, y: Seq<T::Scalar>| #[trigger]
                final(self).spec_teo().spec_flow(t, y) == old(self).spec_teo().spec_flow(t, y),
    {
        let mut a = a;
        self.apply_multi_inplace(&mut a);
        a
    }
}

/// Schemes that can be linearized around a point.
pub trait LinearApprox: TimeEvolution {
    /// The tangent map at `x`, with perturbations of size `alpha`.
    fn lin_approx<'jac>(&'jac mut self, x: Vec<Self::Scalar>, alpha: <Self::Scalar as Scalar>::Real) -> (r:
        Jacobian<'jac, Self>)
        requires
            old(self).inv(),
            x@.len() == old(self).spec_size(),
        ensures
            r.inv(),
            r.spec_point() == x@,
            r.spec_alpha() == alpha,
            r.spec_teo().spec_size() == old(self).spec_size(),
            r.spec_teo().spec_dt() == old(self).spec_dt(),
            forall|t: <Self::Scalar as Scalar>::Real, y: Seq<Self::Scalar>| #[trigger]
                r.spec_teo().spec_flow(t, y) == old(self).spec_flow(t, y),
    ;
}

impl<T: TimeEvolution> LinearApprox for T {
    fn lin_approx<'jac>(&'jac mut self, x: Vec<T::Scalar>, alpha: <T::Scalar as Scalar>::Real) -> (r:
        Jacobian<'jac, T>) {
        Jacobian::new(self, x, alpha)
    }
}

/// The `n × n` identity, as a list of columns.
pub open spec fn eye<S: Scalar>(n: nat) -> Seq<Seq<S>> {
    Seq::new(n, |j: int| Seq::new(n, |i: int| if i == j { S::spec_one() } else { S::spec_zero() }))
}

/// The columns of a matrix, as sequences.
pub open spec fn columns<S>(a: Seq<Vec<S>>) -> Seq<Seq<S>> {
    Seq::new(a.len(), |j: int| a[j]@)
}

/// `a` has `n` columns of `n` entries.
pub open spec fn is_square<S>(a: Seq<Vec<S>>, n: nat) -> bool {
    &&& a.len() == n
    &&& forall|j: int| 0 <= j < n ==> (#[trigger] a[j])@.len() == n
}

fn identity<S: Scalar>(n: usize) -> (r: Vec<Vec<S>>)
    ensures
        columns(r@) == eye::<S>(n as nat),
        is_square(r@, n as nat),
{
    let mut r: Vec<Vec<S>> = Vec::with_capacity(n);
    let mut j: usize = 0;
    while j < n
        invariant
            j <= n,
            r@.len() == j,
            forall|k: int| 0 <= k < j ==> (#[trigger] r@[k])@ == eye::<S>(n as nat)[k],
        decreases n - j,
    {
        let mut col: Vec<S> = Vec::with_capacity(n);
        let mut i: usize = 0;
        while i < n
            invariant
                i <= n,
                j < n,
                col@ == eye::<S>(n as nat)[j as int].subrange(0, i as int),
            decreases n - i,
        {
            if i == j {
                col.push(S::one());
            } else {
                col.push(S::zero());
            }
            i = i + 1;
            assert(col@ =~= eye::<S>(n as nat)[j as int].subrange(0, i as int));
        }
        assert(col@ =~= eye::<S>(n as nat)[j as int]);
        r.push(col);
        j = j + 1;
    }
    assert(columns(r@) =~= eye::<S>(n as nat));
    r
}

/// The images of the columns of `q` under the tangent map of `teo` at `x`.
fn tangent_images<T: TimeEvolution>(
    teo: &mut T,
    x: &Vec<T::Scalar>,
    alpha: <T::Scalar as Scalar>::Real,
    q: &Vec<Vec<T::Scalar>>,
) -> (w: Vec<Vec<T::Scalar>>)
    requires
        old(teo).inv(),
        x@.len() == old(teo).spec_size(),
        forall|j: int| 0 <= j < q@.len() ==> (#[trigger] q@[j])@.len() == x@.len(),
    ensures
        final(teo).inv(),
        w@.len() == q@.len(),
        forall|j: int| 0 <= j < q@.len() ==> (#[trigger] w@[j])@ == jvp(*old(teo), x@, alpha, q@[j]@),
        forall|j: int| 0 <= j < q@.len() ==> (#[trigger] w@[j])@.len() == x@.len(),
        final(teo).spec_size() == old(teo).spec_size(),
        final(teo).spec_dt() == old(teo).spec_dt(),
        forall|t: <T::Scalar as Scalar>::Real, y: Seq<T::Scalar>| #[trigger]
            final(teo).spec_flow(t, y) == old(teo).spec_flow(t, y),
{
    let mut fx = duplicate(x);
    teo.iterate(&mut fx);
    let m = q.len();
    let mut w: Vec<Vec<T::Scalar>> = Vec::with_capacity(m);
    let mut j: usize = 0;
    while j < m
        invariant
            m == q@.len(),
            j <= m,
            w@.len() == j,
            teo.inv(),
            x@.len() == teo.spec_size(),
            fx@ == image(*old(teo), x@),
            fx@.len() == x@.len(),
            teo.spec_size() == old(teo).spec_size(),
            teo.spec_dt() == old(teo).spec_dt(),
            forall|t: <T::Scalar as Scalar>::Real, y: Seq<T::Scalar>| #[trigger]
                teo.spec_flow(t, y) == old(teo).spec_flow(t, y),
            forall|k: int| 0 <= k < m ==> (#[trigger] q@[k])@.len() == x@.len(),
            forall|k: int| 0 <= k < j ==> (#[trigger] w@[k])@ == jvp(*old(teo), x@, alpha, q@[k]@),
            forall|k: int| 0 <= k < j ==> (#[trigger] w@[k])@.len() == x@.len(),
        decreases m - j,
    {
        let mut col = duplicate(&q[j]);
        let ghost t0 = *teo;
        jvp_in_place(teo, x, &fx, alpha, &mut col);
        assert(jvp(t0, x@, alpha, q@[j as int]@) == jvp(*old(teo), x@, alpha, q@[j as int]@)) by {
            let v = q@[j as int]@;
            let n = alpha.spec_divide(norm_l2(v).spec_max(alpha));
            assert(image(t0, shifted(x@, v, n)) == image(*old(teo), shifted(x@, v, n)));
            assert(image(t0, x@) == image(*old(teo), x@));
        }
        w.push(col);
        j = j + 1;
    }
    w
}

/// `Q` with each column `j` multiplied by the phase of `R_jj`.
pub open spec fn canonical_q<S: Scalar>(q: Seq<Seq<S>>, r: Seq<Seq<S>>) -> Seq<Seq<S>> {
    Seq::new(q.len(), |j: int| Seq::new(q[j].len(), |i: int| q[j][i].spec_mul(r[j][j].spec_phase())))
}

/// `R` with each row `i` multiplied by the conjugate phase of `R_ii`.
pub open spec fn canonical_r<S: Scalar>(r: Seq<Seq<S>>) -> Seq<Seq<S>> {
    Seq::new(
        r.len(),
        |j: int| Seq::new(r[j].len(), |i: int| r[i][i].spec_phase().spec_conj().spec_mul(r[j][i])),
    )
}

/// Brings a QR decomposition `W = Q·R` of `n × n` matrices (by columns) to the canonical form
/// in which `R` has a positive real diagonal: column `j` of `Q` is multiplied by the phase `p_j`
/// of `R_jj` and row `j` of `R` by its conjugate, which leaves the product unchanged.
pub fn canonical_qr<S: Scalar>(q: &mut Vec<Vec<S>>, r: &mut Vec<Vec<S>>, n: usize)
    requires
        is_square(old(q)@, n as nat),
        is_square(old(r)@, n as nat),
    ensures
        columns(final(q)@) == canonical_q(columns(old(q)@), columns(old(r)@)),
        columns(final(r)@) == canonical_r(columns(old(r)@)),
        is_square(final(q)@, n as nat),
        is_square(final(r)@, n as nat),
{
    let mut p: Vec<S> = Vec::with_capacity(n);
    let mut k: usize = 0;
    while k < n
        invariant
            is_square(r@, n as nat),
            k <= n,
            p@.len() == k,
            forall|m: int| 0 <= m < k ==> #[trigger] p@[m] == r@[m]@[m].spec_phase(),
        decreases n - k,
    {
        p.push(r[k][k].phase());
        k = k + 1;
    }
    let ghost q0 = columns(q@);
    let ghost r0 = columns(r@);
    let mut j: usize = 0;
    while j < n
        invariant
            j <= n,
            is_square(q@, n as nat),
            is_square(r@, n as nat),
            p@.len() == n,
            q0.len() == n,
            r0.len() == n,
            forall|m: int| 0 <= m < n ==> #[trigger] p@[m] == r0[m][m].spec_phase(),
            forall|m: int| 0 <= m < n ==> (#[trigger] q0[m]).len() == n,
            forall|m: int| 0 <= m < n ==> (#[trigger] r0[m]).len() == n,
            forall|m: int| 0 <= m < j ==> (#[trigger] q@[m])@ == canonical_q(q0, r0)[m],
            forall|m: int| j <= m < n ==> (#[trigger] q@[m])@ == q0[m],
            forall|m: int| 0 <= m < j ==> (#[trigger] r@[m])@ == canonical_r(r0)[m],
            forall|m: int| j <= m < n ==> (#[trigger] r@[m])@ == r0[m],
        decreases n - j,
    {
        let mut qc = duplicate(&q[j]);
        let mut rc = duplicate(&r[j]);
        let mut i: usize = 0;
        while i < n
            invariant
                i <= n,
                j < n,
                p@.len() == n,
                qc@.len() == n,
                rc@.len() == n,
                q0.len() == n,
                r0.len() == n,
                q0[j as int].len() == n,
                r0[j as int].len() == n,
                forall|m: int| 0 <= m < n ==> #[trigger] p@[m] == r0[m][m].spec_phase(),
                forall|m: int| 0 <= m < i ==> qc@[m] == canonical_q(q0, r0)[j as int][m],
                forall|m: int| i <= m < n ==> qc@[m] == q0[j as int][m],
                forall|m: int| 0 <= m < i ==> rc@[m] == canonical_r(r0)[j as int][m],
                forall|m: int| i <= m < n ==> rc@[m] == r0[j as int][m],
            decreases n - i,
        {
            let a = qc[i].mul(p[j]);
            qc.set(i, a);
            let b = p[i].conj().mul(rc[i]);
            rc.set(i, b);
            i = i + 1;
        }
        assert(qc@ =~= canonical_q(q0, r0)[j as int]);
        assert(rc@ =~= canonical_r(r0)[j as int]);
        q.set(j, qc);
        r.set(j, rc);
        j = j + 1;
    }
    assert(columns(q@) =~= canonical_q(q0, r0));
    assert(columns(r@) =~= canonical_r(r0));
}

/// Why a step of a Lyapunov computation was refused.
#[derive(Clone, Copy, Debug, PartialEq, Eq)]
pub enum LyapunovError {
    /// A matrix handed in is not `n` columns of `n` entries.
    Shape,
    /// The tangent map gave an infinite or undefined value: the perturbations are too small
    /// or too large for the precision of the numbers.
    NonFinite,
}

/// Every entry of every column is finite.
pub open spec fn all_finite<S: Scalar>(w: Seq<Seq<S>>) -> bool {
    forall|j: int, i: int| 0 <= j < w.len() && 0 <= i < w[j].len() ==> (#[trigger] w[j][i]).spec_finite()
}

/// Whether every entry of `w` is finite.
fn finite_columns<S: Scalar>(w: &Vec<Vec<S>>) -> (b: bool)
    ensures
        b <==> all_finite(columns(w@)),
{
    let m = w.len();
    let mut j: usize = 0;
    while j < m
        invariant
            m == w@.len(),
            j <= m,
            forall|k: int, i: int| 0 <= k < j && 0 <= i < w@[k]@.len() ==> (#[trigger] w@[k]@[i]).spec_finite(),
        decreases m - j,
    {
        let col = &w[j];
        let len = col.len();
        let mut i: usize = 0;
        while i < len
            invariant
                len == col@.len(),
                col@ == w@[j as int]@,
                i <= len,
                j < m,
                m == w@.len(),
                forall|k: int| 0 <= k < i ==> (#[trigger] col@[k]).spec_finite(),
            decreases len - i,
        {
            if !col[i].is_finite() {
                assert(columns(w@)[j as int][i as int] == col@[i as int]);
                return false;
            }
            i = i + 1;
        }
        j = j + 1;
    }
    assert forall|k: int, i: int| 0 <= k < columns(w@).len() && 0 <= i < columns(w@)[k].len() implies (#[trigger] columns(w@)[k][i]).spec_finite() by {
        assert(columns(w@)[k][i] == w@[k]@[i]);
    }
    true
}

/// Successive QR decompositions along a trajectory (the Benettin method).
///
/// Each step maps the orthonormal basis `Q` at the current point `x` through the tangent map
/// (`tangent`), leaves the QR decomposition `W = Q'·R` of the image to the caller, and then
/// takes `Q'` and moves `x` one step forward (`advance`). Each column of `Q'` then lies in the
/// tangent space at the new `x`, and `R` maps the previous tangent space to the span of `Q'`.
pub struct Series<T: TimeEvolution> {
    teo: T,
    x: Vec<T::Scalar>,
    q: Vec<Vec<T::Scalar>>,
    alpha: <T::Scalar as Scalar>::Real,
}

impl<T: TimeEvolution> Series<T> {
    /// The scheme.
    pub closed spec fn spec_teo(&self) -> T {
        self.teo
    }

    /// The current point of the trajectory.
    pub closed spec fn spec_point(&self) -> Seq<T::Scalar> {
        self.x@
    }

    /// The current basis of the tangent space, by columns.
    pub closed spec fn spec_basis(&self) -> Seq<Seq<T::Scalar>> {
        columns(self.q@)
    }

    /// The size of the perturbations.
    pub closed spec fn spec_alpha(&self) -> <T::Scalar as Scalar>::Real {
        self.alpha
    }

    pub closed spec fn inv(&self) -> bool {
        &&& self.teo.inv()
        &&& self.x@.len() == self.teo.spec_size()
        &&& is_square(self.q@, self.teo.spec_size())
    }

    /// Starts at `x` with the identity as basis.
    pub fn new(teo: T, x: Vec<T::Scalar>, alpha: <T::Scalar as Scalar>::Real) -> (r: Self)
        requires
            teo.inv(),
            x@.len() == teo.spec_size(),
        ensures
            r.inv(),
            r.spec_teo() == teo,
            r.spec_point() == x@,
            r.spec_basis() == eye::<T::Scalar>(x@.len()),
            r.spec_alpha() == alpha,
    {
        let n = teo.model_size();
        let q = identity(n);
        Series { teo, x, q, alpha }
    }

    /// The current point of the trajectory.
    pub fn point(&self) -> (r: Vec<T::Scalar>)
        ensures
            r@ == self.spec_point(),
    {
        duplicate(&self.x)
    }

    /// The images of the basis vectors under the tangent map at the current point. An image
    /// with an entry that is not finite is reported as an error.
    pub fn tangent(&mut self) -> (r: Result<Vec<Vec<T::Scalar>>, LyapunovError>)
        requires
            old(self).inv(),
        ensures
            final(self).inv(),
            r is Ok <==> all_finite(Seq::new(
                old(self).spec_basis().len(),
                |j: int| jvp(old(self).spec_teo(), old(self).spec_point(), old(self).spec_alpha(), old(self).spec_basis()[j]),
            )),
            r is Err ==> r->Err_0 == LyapunovError::NonFinite,
            r is Ok ==> r->Ok_0@.len() == old(self).spec_basis().len(),
            r is Ok ==> forall|j: int| 0 <= j < r->Ok_0@.len() ==> (#[trigger] r->Ok_0@[j])@ == jvp(
                old(self).spec_teo(),
                old(self).spec_point(),
                old(self).spec_alpha(),
                old(self).spec_basis()[j],
            ),
            r is Ok ==> is_square(r->Ok_0@, old(self).spec_point().len()),
            final(self).spec_point() == old(self).spec_point(),
            final(self).spec_basis() == old(self).spec_basis(),
            final(self).spec_alpha() == old(self).spec_alpha(),
            final(self).spec_teo().spec_dt() == old(self).spec_teo().spec_dt(),
            forall|t: <T::Scalar as Scalar>::Real, y: Seq<T::Scalar>| #[trigger]
                final(self).spec_teo().spec_flow(t, y) == old(self).spec_teo().spec_flow(t, y),
    {
        let w = tangent_images(&mut self.teo, &self.x, self.alpha, &self.q);
        let ghost images = Seq::new(
            old(self).spec_basis().len(),
            |j: int| jvp(old(self).spec_teo(), old(self).spec_point(), old(self).spec_alpha(), old(self).spec_basis()[j]),
        );
        assert(columns(w@) =~= images);
        if finite_columns(&w) {
            Ok(w)
        } else {
            Err(LyapunovError::NonFinite)
        }
    }

    /// Takes `q` as the new basis and moves the point one step forward; returns the new point.
    /// A basis that is not `n` columns of `n` entries is refused and nothing changes.
    pub fn advance(&mut self, q: Vec<Vec<T::Scalar>>) -> (r: Result<Vec<T::Scalar>, LyapunovError>)
        requires
            old(self).inv(),
        ensures
            final(self).inv(),
            r is Ok <==> is_square(q@, old(self).spec_point().len()),
            r is Ok ==> final(self).spec_basis() == columns(q@),
            r is Ok ==> final(self).spec_point() == image(old(self).spec_teo(), old(self).spec_point()),
            r is Ok ==> r->Ok_0@ == final(self).spec_point(),
            r is Err ==> *final(self) == *old(self),
            final(self).spec_alpha() == old(self).spec_alpha(),
            final(self).spec_teo().spec_dt() == old(self).spec_teo().spec_dt(),
            forall|t: <T::Scalar as Scalar>::Real, y: Seq<T::Scalar>| #[trigger]
                final(self).spec_teo().spec_flow(t, y) == old(self).spec_teo().spec_flow(t, y),
    {
        let n = self.x.len();
        if q.len() != n {
            return Err(LyapunovError::Shape);
        }
        let mut j: usize = 0;
        while j < n
            invariant
                n == q@.len(),
                n == self.x@.len(),
                *self == *old(self),
                self.inv(),
                j <= n,
                forall|k: int| 0 <= k < j ==> (#[trigger] q@[k])@.len() == n,
            decreases n - j,
        {
            if q[j].len() != n {
                return Err(LyapunovError::Shape);
            }
            j = j + 1;
        }
        self.q = q;
        self.teo.iterate(&mut self.x);
        Ok(duplicate(&self.x))
    }
}

/// The diagonal of a square matrix given by columns.
pub open spec fn diagonal_of<S>(r: Seq<Seq<S>>) -> Seq<S> {
    Seq::new(r.len(), |i: int| r[i][i])
}

/// `Σ ln|d_k[i]| / dur` over the diagonals `d_k`, `lo <= k < hi`, added from the left to zero.
pub open spec fn mean_log_growth<S: Scalar>(diags: Seq<Seq<S>>, i: int, lo: int, hi: int, dur: S::Real) -> S::Real
    decreases hi - lo,
{
    if hi <= lo {
        S::Real::spec_from_usize(0)
    } else {
        mean_log_growth(diags, i, lo, hi - 1, dur).spec_plus(diags[hi - 1][i].spec_abs().spec_ln().spec_divide(dur))
    }
}

/// The number of leading steps that are left out as transient: a tenth of the duration.
pub open spec fn transient(duration: nat) -> nat {
    duration / 10
}

/// The end of the averaging window after `len` steps.
pub open spec fn window_end(len: nat, duration: nat) -> int {
    if len < transient(duration) + duration {
        len as int
    } else {
        (transient(duration) + duration) as int
    }
}

/// The Lyapunov exponents, averaged over the `R` factors of a Lyapunov series as they come.
///
/// The first `duration / 10` factors are left out as transient; over the next `duration`
/// factors, `ln|R_ii|` is averaged by dividing each term by the elapsed time `duration·dt`.
pub struct Exponents<S: Scalar> {
    sum: Vec<S::Real>,
    n: usize,
    to_skip: usize,
    to_take: usize,
    duration: usize,
    dur: S::Real,
    diags: Ghost<Seq<Seq<S>>>,
}

impl<S: Scalar> Exponents<S> {
    /// The diagonals of the factors pushed so far.
    pub closed spec fn spec_diags(&self) -> Seq<Seq<S>> {
        self.diags@
    }

    pub closed spec fn spec_size(&self) -> nat {
        self.n as nat
    }

    pub closed spec fn spec_duration(&self) -> nat {
        self.duration as nat
    }

    /// The elapsed time `duration·dt` of the averaging window.
    pub closed spec fn spec_elapsed(&self) -> S::Real {
        self.dur
    }

    /// The current exponents.
    pub open spec fn spec_value(&self) -> Seq<S::Real> {
        Seq::new(
            self.spec_size(),
            |i: int|
                mean_log_growth(
                    self.spec_diags(),
                    i,
                    transient(self.spec_duration()) as int,
                    window_end(self.spec_diags().len(), self.spec_duration()),
                    self.spec_elapsed(),
                ),
        )
    }

    pub closed spec fn inv(&self) -> bool {
        let len = self.diags@.len();
        let skip = transient(self.duration as nat);
        &&& self.sum@.len() == self.n
        &&& self.to_skip <= skip
        &&& self.to_take <= self.duration
        &&& self.to_skip > 0 ==> len == skip - self.to_skip && self.to_take == self.duration
        &&& self.to_skip == 0 ==> len >= skip && self.to_take == self.duration - (window_end(len, self.duration as nat) - skip)
        &&& forall|i: int| 0 <= i < self.n ==> #[trigger] self.sum@[i] == mean_log_growth(
            self.diags@,
            i,
            skip as int,
            window_end(len, self.duration as nat),
            self.dur,
        )
    }

    /// Prepares the averages for `n` exponents, a time step `dt` and `duration` steps.
    pub fn new(n: usize, dt: S::Real, duration: usize) -> (r: Self)
        ensures
            r.inv(),
            r.spec_size() == n,
            r.spec_duration() == duration,
            r.spec_diags() == Seq::<Seq<S>>::empty(),
            r.spec_elapsed() == dt.spec_times(S::Real::spec_from_usize(duration)),
    {
        let zero = S::Real::from_usize(0);
        let mut sum: Vec<S::Real> = Vec::with_capacity(n);
        let mut i: usize = 0;
        while i < n
            invariant
                i <= n,
                sum@.len() == i,
                zero == S::Real::spec_from_usize(0),
                forall|k: int| 0 <= k < i ==> #[trigger] sum@[k] == zero,
            decreases n - i,
        {
            sum.push(zero);
            i = i + 1;
        }
        let dur = dt.times(S::Real::from_usize(duration));
        Exponents { sum, n, to_skip: duration / 10, to_take: duration, duration, dur, diags: Ghost(Seq::empty()) }
    }

    /// Takes the next `R` factor of the series, an `n × n` matrix given by columns.
    pub fn push(&mut self, r: &Vec<Vec<S>>)
        requires
            old(self).inv(),
            is_square(r@, old(self).spec_size()),
        ensures
            final(self).inv(),
            final(self).spec_diags() == old(self).spec_diags().push(diagonal_of(columns(r@))),
            final(self).spec_size() == old(self).spec_size(),
            final(self).spec_duration() == old(self).spec_duration(),
            final(self).spec_elapsed() == old(self).spec_elapsed(),
    {
        let ghost d = diagonal_of(columns(r@));
        let ghost old_diags = self.diags@;
        let ghost skip = transient(self.duration as nat) as int;
        proof {
            self.diags = Ghost(self.diags@.push(d));
        }
        if self.to_skip > 0 {
            self.to_skip = self.to_skip - 1;
        } else if self.to_take > 0 {
            assert(window_end(old_diags.len(), self.duration as nat) == old_diags.len());
            assert(window_end(self.diags@.len(), self.duration as nat) == old_diags.len() + 1);
            let n = self.n;
            let mut i: usize = 0;
            while i < n
                invariant
                    n == self.n,
                    n == self.sum@.len(),
                    n == r@.len(),
                    forall|j: int| 0 <= j < n ==> (#[trigger] r@[j])@.len() == n,
                    i <= n,
                    self.diags@ == old_diags.push(d),
                    d == diagonal_of(columns(r@)),
                    old_diags.len() >= skip,
                    self.to_take == old(self).to_take,
                    self.to_skip == 0,
                    self.to_take > 0,
                    self.dur == old(self).dur,
                    self.duration == old(self).duration,
                    skip == transient(self.duration as nat),
                    window_end(self.diags@.len(), self.duration as nat) == window_end(old_diags.len(), self.duration as nat) + 1,
                    window_end(old_diags.len(), self.duration as nat) == old_diags.len(),
                    forall|j: int| 0 <= j < i ==> #[trigger] self.sum@[j] == mean_log_growth(
                        self.diags@,
                        j,
                        skip,
                        window_end(self.diags@.len(), self.duration as nat),
                        self.dur,
                    ),
                    forall|j: int| i <= j < n ==> #[trigger] self.sum@[j] == mean_log_growth(
                        old_diags,
                        j,
                        skip,
                        window_end(old_diags.len(), self.duration as nat),
                        self.dur,
                    ),
                decreases n - i,
            {
                proof {
                    lemma_mean_log_growth_prefix(old_diags, d, i as int, skip, old_diags.len() as int, self.dur);
                    assert(self.diags@[old_diags.len() as int][i as int] == r@[i as int]@[i as int]);
                }
                let term = r[i][i].abs().ln().divide(self.dur);
                let v = self.sum[i].plus(term);
                self.sum.set(i, v);
                i = i + 1;
            }
            self.to_take = self.to_take - 1;
        }
        proof {
            if old(self).to_skip > 0 {
                assert forall|i: int| 0 <= i < self.n implies #[trigger] self.sum@[i] == mean_log_growth(
                    self.diags@,
                    i,
                    skip,
                    window_end(self.diags@.len(), self.duration as nat),
                    self.dur,
                ) by {
                    assert(window_end(self.diags@.len(), self.duration as nat) <= skip);
                    assert(window_end(old_diags.len(), self.duration as nat) <= skip);
                }
            } else if old(self).to_take == 0 {
                assert forall|i: int| 0 <= i < self.n implies #[trigger] self.sum@[i] == mean_log_growth(
                    self.diags@,
                    i,
                    skip,
                    window_end(self.diags@.len(), self.duration as nat),
                    self.dur,
                ) by {
                    let hi = window_end(old_diags.len(), self.duration as nat);
                    assert(window_end(self.diags@.len(), self.duration as nat) == hi);
                    lemma_mean_log_growth_prefix(old_diags, d, i, skip, hi, self.dur);
                }
            }
        }
    }

    /// Whether the whole averaging window has been pushed.
    pub fn is_complete(&self) -> (b: bool)
        requires
            self.inv(),
        ensures
            b <==> self.spec_diags().len() >= transient(self.spec_duration()) + self.spec_duration(),
    {
        self.to_skip == 0 && self.to_take == 0
    }

    /// The exponents averaged so far.
    pub fn value(&self) -> (r: Vec<S::Real>)
        requires
            self.inv(),
        ensures
            r@ == self.spec_value(),
    {
        let n = self.n;
        let mut r: Vec<S::Real> = Vec::with_capacity(n);
        let mut i: usize = 0;
        while i < n
            invariant
                n == self.n,
                n == self.sum@.len(),
                i <= n,
                r@ == self.sum@.subrange(0, i as int),
            decreases n - i,
        {
            r.push(self.sum[i]);
            i = i + 1;
            assert(r@ =~= self.sum@.subrange(0, i as int));
        }
        assert(r@ =~= self.spec_value());
        r
    }
}

/// Pushing a diagonal does not change the sums over the diagonals already there.
proof fn lemma_mean_log_growth_prefix<S: Scalar>(
    diags: Seq<Seq<S>>,
    d: Seq<S>,
    i: int,
    lo: int,
    hi: int,
    dur: S::Real,
)
    requires
        0 <= lo,
        hi <= diags.len(),
    ensures
        mean_log_growth(diags.push(d), i, lo, hi, dur) == mean_log_growth(diags, i, lo, hi, dur),
    decreases hi - lo,
{
    if hi > lo {
        lemma_mean_log_growth_prefix(diags, d, i, lo, hi - 1, dur);
        assert(diags.push(d)[hi - 1] == diags[hi - 1]);
    }
}

/// Each column divided by its Euclidean norm.
pub open spec fn normalized<S: Scalar>(a: Seq<Seq<S>>) -> Seq<Seq<S>> {
    Seq::new(a.len(), |j: int| Seq::new(a[j].len(), |i: int| a[j][i].spec_div_real(norm_l2(a[j]))))
}

/// The reciprocal Euclidean norm of each column: the factor by which the step stretches the
/// covariant vector that the column stands for.
pub open spec fn rates<S: Scalar>(a: Seq<Seq<S>>) -> Seq<S::Real> {
    Seq::new(a.len(), |j: int| S::Real::spec_from_usize(1).spec_divide(norm_l2(a[j])))
}

/// `Σ_{k < m} q_k[i]·c[k]`, added from the left to zero.
pub open spec fn combination<S: Scalar>(q: Seq<Seq<S>>, c: Seq<S>, i: int, m: int) -> S
    decreases m,
{
    if m <= 0 {
        S::spec_zero()
    } else {
        combination(q, c, i, m - 1).spec_add(q[m - 1][i].spec_mul(c[m - 1]))
    }
}

/// The product `Q·C` of matrices given by columns, with `n` rows.
pub open spec fn product<S: Scalar>(q: Seq<Seq<S>>, c: Seq<Seq<S>>, n: nat) -> Seq<Seq<S>> {
    Seq::new(c.len(), |j: int| Seq::new(n, |i: int| combination(q, c[j], i, c[j].len() as int)))
}

/// The columns of `a`, each divided by its norm, and the reciprocal norms.
fn normalize_columns<S: Scalar>(a: &Vec<Vec<S>>) -> (r: (Vec<Vec<S>>, Vec<S::Real>))
    ensures
        columns(r.0@) == normalized(columns(a@)),
        r.1@ == rates(columns(a@)),
        r.0@.len() == a@.len(),
        forall|j: int| 0 <= j < a@.len() ==> (#[trigger] r.0@[j])@.len() == a@[j]@.len(),
{
    let m = a.len();
    let one = S::Real::from_usize(1);
    let mut c: Vec<Vec<S>> = Vec::with_capacity(m);
    let mut f: Vec<S::Real> = Vec::with_capacity(m);
    let mut j: usize = 0;
    while j < m
        invariant
            m == a@.len(),
            j <= m,
            c@.len() == j,
            f@.len() == j,
            one == S::Real::spec_from_usize(1),
            forall|k: int| 0 <= k < j ==> (#[trigger] c@[k])@ == normalized(columns(a@))[k],
            forall|k: int| 0 <= k < j ==> #[trigger] f@[k] == rates(columns(a@))[k],
        decreases m - j,
    {
        let col = &a[j];
        let nrm = norm(col);
        let len = col.len();
        let mut u: Vec<S> = Vec::with_capacity(len);
        let mut i: usize = 0;
        while i < len
            invariant
                len == col@.len(),
                i <= len,
                nrm == norm_l2(col@),
                u@ == normalized(columns(a@))[j as int].subrange(0, i as int),
                col@ == a@[j as int]@,
                j < m,
                m == a@.len(),
            decreases len - i,
        {
            u.push(col[i].div_real(nrm));
            i = i + 1;
            assert(u@ =~= normalized(columns(a@))[j as int].subrange(0, i as int));
        }
        assert(u@ =~= normalized(columns(a@))[j as int]);
        c.push(u);
        f.push(one.divide(nrm));
        j = j + 1;
    }
    assert(columns(c@) =~= normalized(columns(a@)));
    assert(f@ =~= rates(columns(a@)));
    (c, f)
}

/// `Q·C` for `n × n` matrices given by columns.
fn multiply<S: Scalar>(q: &Vec<Vec<S>>, c: &Vec<Vec<S>>, n: usize) -> (v: Vec<Vec<S>>)
    requires
        is_square(q@, n as nat),
        is_square(c@, n as nat),
    ensures
        columns(v@) == product(columns(q@), columns(c@), n as nat),
        is_square(v@, n as nat),
{
    let mut v: Vec<Vec<S>> = Vec::with_capacity(n);
    let mut j: usize = 0;
    while j < n
        invariant
            is_square(q@, n as nat),
            is_square(c@, n as nat),
            j <= n,
            v@.len() == j,
            forall|k: int| 0 <= k < j ==> (#[trigger] v@[k])@ == product(columns(q@), columns(c@), n as nat)[k],
        decreases n - j,
    {
        let mut col: Vec<S> = Vec::with_capacity(n);
        let mut i: usize = 0;
        while i < n
            invariant
                is_square(q@, n as nat),
                is_square(c@, n as nat),
                j < n,
                i <= n,
                col@ == product(columns(q@), columns(c@), n as nat)[j as int].subrange(0, i as int),
            decreases n - i,
        {
            let mut acc = S::zero();
            let mut k: usize = 0;
            while k < n
                invariant
                    is_square(q@, n as nat),
                    is_square(c@, n as nat),
                    j < n,
                    i < n,
                    k <= n,
                    acc == combination(columns(q@), c@[j as int]@, i as int, k as int),
                decreases n - k,
            {
                acc = acc.add(q[k][i].mul(c[j][k]));
                k = k + 1;
            }
            col.push(acc);
            i = i + 1;
            assert(col@ =~= product(columns(q@), columns(c@), n as nat)[j as int].subrange(0, i as int));
        }
        assert(col@ =~= product(columns(q@), columns(c@), n as nat)[j as int]);
        v.push(col);
        j = j + 1;
    }
    assert(columns(v@) =~= product(columns(q@), columns(c@), n as nat));
    v
}

/// The backward pass of the two-pass (Ginelli) computation of covariant Lyapunov vectors.
///
/// It runs over the `(x, Q, R)` steps of a Lyapunov series from the last to the first, holding
/// a coefficient matrix `C`, the identity at first. At each step the caller solves the upper
/// triangular system `R·C' = C` for the current `C` (`coefficients`) and hands `C'` with the
/// step's `Q` to `step`, which normalizes the columns of `C'` into the next `C` and returns the
/// covariant vectors `V = Q·C` in state coordinates together with the stretching
/// factors `f_j = 1/|C'_j|`.
pub struct Clv<S: Scalar> {
    c: Vec<Vec<S>>,
    n: usize,
}

impl<S: Scalar> Clv<S> {
    /// The current coefficient matrix, by columns.
    pub closed spec fn spec_coefficients(&self) -> Seq<Seq<S>> {
        columns(self.c@)
    }

    pub closed spec fn spec_size(&self) -> nat {
        self.n as nat
    }

    pub closed spec fn inv(&self) -> bool {
        is_square(self.c@, self.n as nat)
    }

    /// Starts the backward pass in `n` dimensions.
    pub fn new(n: usize) -> (r: Self)
        ensures
            r.inv(),
            r.spec_size() == n,
            r.spec_coefficients() == eye::<S>(n as nat),
    {
        Clv { c: identity(n), n }
    }

    /// The current coefficient matrix `C`, by columns.
    pub fn coefficients(&self) -> (c: Vec<Vec<S>>)
        requires
            self.inv(),
        ensures
            columns(c@) == self.spec_coefficients(),
            is_square(c@, self.spec_size()),
    {
        let n = self.n;
        let mut c: Vec<Vec<S>> = Vec::with_capacity(n);
        let mut j: usize = 0;
        while j < n
            invariant
                n == self.n,
                is_square(self.c@, n as nat),
                j <= n,
                c@.len() == j,
                forall|k: int| 0 <= k < j ==> (#[trigger] c@[k])@ == self.c@[k]@,
            decreases n - j,
        {
            c.push(duplicate(&self.c[j]));
            j = j + 1;
        }
        assert(columns(c@) =~= self.spec_coefficients());
        c
    }

    /// One backward step, given the step's `Q` and the solution `C'` of `R·C' = C`: returns
    /// the covariant vectors `Q·normalized(C')` and the factors `1/|C'_j|`, and keeps
    /// `normalized(C')` as the next coefficient matrix. Matrices that are not `n × n` are
    /// refused and nothing changes.
    pub fn step(&mut self, q: &Vec<Vec<S>>, solved: &Vec<Vec<S>>) -> (r: Result<
        (Vec<Vec<S>>, Vec<S::Real>),
        LyapunovError,
    >)
        requires
            old(self).inv(),
        ensures
            final(self).inv(),
            final(self).spec_size() == old(self).spec_size(),
            r is Ok <==> is_square(q@, old(self).spec_size()) && is_square(solved@, old(self).spec_size()),
            r is Ok ==> final(self).spec_coefficients() == normalized(columns(solved@)),
            r is Ok ==> columns(r->Ok_0.0@) == product(
                columns(q@),
                normalized(columns(solved@)),
                old(self).spec_size(),
            ),
            r is Ok ==> r->Ok_0.1@ == rates(columns(solved@)),
            r is Err ==> *final(self) == *old(self),
    {
        let n = self.n;
        if !square(q, n) || !square(solved, n) {
            return Err(LyapunovError::Shape);
        }
        let (c, f) = normalize_columns(solved);
        let v = multiply(q, &c, n);
        self.c = c;
        Ok((v, f))
    }
}

/// Whether `a` has `n` columns of `n` entries.
fn square<S>(a: &Vec<Vec<S>>, n: usize) -> (b: bool)
    ensures
        b <==> is_square(a@, n as nat),
{
    if a.len() != n {
        return false;
    }
    let mut j: usize = 0;
    while j < n
        invariant
            n == a@.len(),
            j <= n,
            forall|k: int| 0 <= k < j ==> (#[trigger] a@[k])@.len() == n,
        decreases n - j,
    {
        if a[j].len() != n {
            return false;
        }
        j = j + 1;
    }
    true
}

/// The forward pass of the covariant-vector computation for a run of `duration` steps: of the
/// steps of a Lyapunov series pushed in order, it leaves out the first `duration / 10` as
/// transient and keeps the next `duration + duration / 10`; the backward pass then takes the
/// kept steps back from the latest to the earliest.
pub struct ForwardWindow<X> {
    kept: Vec<X>,
    to_skip: usize,
    to_keep: usize,
}

impl<X> ForwardWindow<X> {
    /// The steps kept so far, from the earliest.
    pub closed spec fn spec_kept(&self) -> Seq<X> {
        self.kept@
    }

    /// How many of the next steps are still left out.
    pub closed spec fn spec_to_skip(&self) -> nat {
        self.to_skip as nat
    }

    /// How many steps are still to be kept after those.
    pub closed spec fn spec_to_keep(&self) -> nat {
        self.to_keep as nat
    }

    /// The window for a run of `duration` steps; `None` where the number of kept steps does not
    /// fit in a `usize`.
    pub fn new(duration: usize) -> (r: Option<Self>)
        ensures
            r is Some <==> duration + transient(duration as nat) <= usize::MAX,
            r is Some ==> r->Some_0.spec_kept() == Seq::<X>::empty(),
            r is Some ==> r->Some_0.spec_to_skip() == transient(duration as nat),
            r is Some ==> r->Some_0.spec_to_keep() == duration + transient(duration as nat),
    {
        match duration.checked_add(duration / 10) {
            Some(keep) => Some(ForwardWindow { kept: Vec::new(), to_skip: duration / 10, to_keep: keep }),
            None => None,
        }
    }

    /// Takes the next step of the series: left out while in the transient, kept while the
    /// window is open, dropped after it.
    pub fn push(&mut self, step: X)
        ensures
            old(self).spec_to_skip() > 0 ==> final(self).spec_kept() == old(self).spec_kept()
                && final(self).spec_to_skip() == old(self).spec_to_skip() - 1
                && final(self).spec_to_keep() == old(self).spec_to_keep(),
            old(self).spec_to_skip() == 0 && old(self).spec_to_keep() > 0 ==> final(self).spec_kept()
                == old(self).spec_kept().push(step) && final(self).spec_to_skip() == 0
                && final(self).spec_to_keep() == old(self).spec_to_keep() - 1,
            old(self).spec_to_skip() == 0 && old(self).spec_to_keep() == 0 ==> final(self).spec_kept()
                == old(self).spec_kept() && final(self).spec_to_skip() == 0
                && final(self).spec_to_keep() == 0,
    {
        if self.to_skip > 0 {
            self.to_skip = self.to_skip - 1;
        } else if self.to_keep > 0 {
            self.kept.push(step);
            self.to_keep = self.to_keep - 1;
        }
    }

    /// Whether the whole window has been pushed.
    pub fn is_complete(&self) -> (b: bool)
        ensures
            b <==> self.spec_to_skip() == 0 && self.spec_to_keep() == 0,
    {
        self.to_skip == 0 && self.to_keep == 0
    }

    /// Takes out the latest kept step; `None` once all have been taken.
    pub fn take_latest(&mut self) -> (r: Option<X>)
        ensures
            r is None <==> old(self).spec_kept().len() == 0,
            r is Some ==> r->Some_0 == old(self).spec_kept().last()
                && final(self).spec_kept() == old(self).spec_kept().drop_last(),
            r is None ==> final(self).spec_kept() == old(self).spec_kept(),
            final(self).spec_to_skip() == old(self).spec_to_skip(),
            final(self).spec_to_keep() == old(self).spec_to_keep(),
    {
        let r = self.kept.pop();
        proof {
            if r is Some {
                assert(self.kept@ =~= old(self).spec_kept().drop_last());
            }
        }
        r
    }
}

/// The well-converged middle of the backward pass: `rev` holds its results from the last step
/// to the first; the first `margin` of them are left out, and the rest is put back in forward
/// order.
pub fn retain_central<X>(rev: Vec<X>, margin: usize) -> (r: Vec<X>)
    ensures
        r@.len() == if rev@.len() > margin {
            rev@.len() - margin
        } else {
            0
        },
        forall|i: int| 0 <= i < r@.len() ==> #[trigger] r@[i] == rev@[rev@.len() - 1 - i],
{
    let mut rest = rev;
    let mut r: Vec<X> = Vec::new();
    while rest.len() > margin
        invariant
            rest@ == rev@.subrange(0, rest@.len() as int),
            r@.len() + rest@.len() == rev@.len(),
            rev@.len() > margin ==> rest@.len() >= margin,
            rev@.len() <= margin ==> r@.len() == 0,
            forall|i: int| 0 <= i < r@.len() ==> #[trigger] r@[i] == rev@[rev@.len() - 1 - i],
        decreases rest@.len(),
    {
        let item = rest.pop().unwrap();
        r.push(item);
    }
    r
}

} // verus!
