//! Semi-implicit schemes for stiff equations whose linear part is diagonal.
use vstd::prelude::*;

use crate::explicit::part;
use crate::scalar::{Real, Scalar};
use crate::traits::{
    flow_n, lemma_deterministic, ModelSpec, Scheme, SemiImplicit, TimeEvolution, TimeStep,
    TimeStepError,
};
use crate::vector::{
    add_scaled, add_scaled_sum, copy_into, scale_into, scaled, shift_into, shifted, sum, zeros_vec,
};

verus! {

/// `exp(d·dt)`, entry by entry: the exact propagator of `dx/dt = diag(d)·x` over a time `dt`.
pub open spec fn exp_of<S: Scalar>(d: Seq<S>, dt: S::Real) -> Seq<S> {
    Seq::new(d.len(), |i: int| d[i].spec_mul_real(dt).spec_exp())
}

fn exp_vec<S: Scalar>(d: &Vec<S>, dt: S::Real) -> (r: Vec<S>)
    ensures
        r@ == exp_of(d@, dt),
{
    let n = d.len();
    let mut r: Vec<S> = Vec::with_capacity(n);
    let mut i: usize = 0;
    while i < n
        invariant
            n == d@.len(),
            i <= n,
            r@ == exp_of(d@, dt).subrange(0, i as int),
        decreases n - i,
    {
        r.push(d[i].mul_real(dt).exp());
        i = i + 1;
        assert(r@ =~= exp_of(d@, dt).subrange(0, i as int));
    }
    assert(r@ =~= exp_of(d@, dt));
    r
}

/// The linear equation `dx/dt = diag(d)·x`, solved exactly: each step multiplies by `exp(d·dt)`.
pub struct Diagonal<S: Scalar> {
    exp_diag: Vec<S>,
    diag: Vec<S>,
    dt: S::Real,
}

impl<S: Scalar> Diagonal<S> {
    /// The diagonal `d`.
    pub closed spec fn spec_diag(&self) -> Seq<S> {
        self.diag@
    }

    pub fn new(diag: Vec<S>, dt: S::Real) -> (r: Self)
        ensures
            r.inv(),
            r.spec_diag() == diag@,
            r.spec_dt() == dt,
            r.spec_size() == diag@.len(),
    {
        let exp_diag = exp_vec(&diag, dt);
        Diagonal { exp_diag, diag, dt }
    }

    /// Sets the time step and recomputes the propagator for it.
    fn reset_dt(&mut self, dt: S::Real)
        ensures
            final(self).inv(),
            final(self).spec_diag() == old(self).spec_diag(),
            final(self).spec_dt() == dt,
    {
        self.exp_diag = exp_vec(&self.diag, dt);
        self.dt = dt;
    }
}

/// The exact solver of the linear part of the semi-implicit model `eom`, with the step `dt`.
pub fn diagonal<F: SemiImplicit>(eom: &F, dt: <F::Scalar as Scalar>::Real) -> (r: Diagonal<F::Scalar>)
    ensures
        r.inv(),
        r.spec_diag() == eom.spec_diag(),
        r.spec_dt() == dt,
        r.spec_size() == eom.spec_size(),
{
    Diagonal::new(eom.diag(), dt)
}

impl<S: Scalar> ModelSpec for Diagonal<S> {
    type Scalar = S;

    open spec fn spec_size(&self) -> nat {
        self.spec_diag().len()
    }

    fn model_size(&self) -> (n: usize) {
        self.diag.len()
    }
}

impl<S: Scalar> TimeStep for Diagonal<S> {
    closed spec fn inv(&self) -> bool {
        self.exp_diag@ == exp_of(self.diag@, self.dt)
    }

    closed spec fn spec_dt(&self) -> S::Real {
        self.dt
    }

    fn get_dt(&self) -> (dt: S::Real) {
        self.dt
    }
}

impl<S: Scalar> TimeEvolution for Diagonal<S> {
    open spec fn spec_flow(&self, dt: S::Real, x: Seq<S>) -> Seq<S> {
        scaled(x, exp_of(self.spec_diag(), dt))
    }

    fn iterate(&mut self, x: &mut Vec<S>) {
        scale_into(x, &self.exp_diag);
    }

    open spec fn spec_accepts(&self, dt: S::Real) -> bool {
        dt.spec_positive()
    }

    open spec fn spec_dt_after(&self, dt: S::Real) -> S::Real {
        dt
    }

    open spec fn spec_same_model(&self, o: Self) -> bool {
        self.spec_diag() == o.spec_diag()
    }

    fn set_dt(&mut self, dt: S::Real) -> (r: Result<(), TimeStepError>) {
        if dt.is_positive() {
            self.reset_dt(dt);
            Ok(())
        } else {
            Err(TimeStepError::NotPositive)
        }
    }
}

/// One step of the exponential Runge-Kutta scheme for `dx/dt = A·x + g(x)`, with `L` the exact
/// propagator of `A` over half a step.
pub open spec fn diag_rk4_step<F: SemiImplicit>(
    f: F,
    dt: <F::Scalar as Scalar>::Real,
    x: Seq<F::Scalar>,
) -> Seq<F::Scalar> {
    let e = exp_of(f.spec_diag(), part(dt, 2));
    let lx = scaled(x, e);
    let k1 = f.spec_nlin(x);
    let k2 = f.spec_nlin(scaled(shifted(x, k1, part(dt, 2)), e));
    let k3 = f.spec_nlin(shifted(lx, k2, part(dt, 2)));
    let k4 = f.spec_nlin(scaled(shifted(lx, k3, dt), e));
    shifted(
        scaled(shifted(scaled(shifted(x, k1, part(dt, 6)), e), sum(k2, k3), part(dt, 3)), e),
        k4,
        part(dt, 6),
    )
}

/// The exponential fourth-order Runge-Kutta scheme: the stiff diagonal part is solved exactly,
/// the nonlinear part explicitly.
pub struct DiagRK4<F: SemiImplicit> {
    nlin: F,
    lin: Diagonal<F::Scalar>,
    dt: <F::Scalar as Scalar>::Real,
    x: Vec<F::Scalar>,
    lx: Vec<F::Scalar>,
    k1: Vec<F::Scalar>,
    k2: Vec<F::Scalar>,
    k3: Vec<F::Scalar>,
}

impl<F: SemiImplicit> DiagRK4<F> {
    /// The model that the scheme integrates.
    pub closed spec fn spec_model(&self) -> F {
        self.nlin
    }
}

impl<F: SemiImplicit> ModelSpec for DiagRK4<F> {
    type Scalar = F::Scalar;

    open spec fn spec_size(&self) -> nat {
        self.spec_model().spec_size()
    }

    fn model_size(&self) -> (n: usize) {
        self.nlin.model_size()
    }
}

impl<F: SemiImplicit> TimeStep for DiagRK4<F> {
    closed spec fn inv(&self) -> bool {
        let n = self.nlin.spec_size();
        &&& self.lin.inv()
        &&& self.lin.spec_diag() == self.nlin.spec_diag()
        &&& self.lin.spec_dt() == part(self.dt, 2)
        &&& self.nlin.spec_diag().len() == n
        &&& self.x@.len() == n
        &&& self.lx@.len() == n
        &&& self.k1@.len() == n
        &&& self.k2@.len() == n
        &&& self.k3@.len() == n
    }

    closed spec fn spec_dt(&self) -> <F::Scalar as Scalar>::Real {
        self.dt
    }

    fn get_dt(&self) -> (dt: <F::Scalar as Scalar>::Real) {
        self.dt
    }
}

impl<F: SemiImplicit> TimeEvolution for DiagRK4<F> {
    open spec fn spec_flow(&self, dt: <F::Scalar as Scalar>::Real, x: Seq<F::Scalar>) -> Seq<
        F::Scalar,
    > {
        diag_rk4_step(self.spec_model(), dt, x)
    }

    fn iterate(&mut self, x: &mut Vec<F::Scalar>) {
        let ghost f0 = self.nlin;
        let ghost x0 = x@;
        let dt = self.dt;
        let dt_2 = dt.divide(<F::Scalar as Scalar>::Real::from_usize(2));
        let dt_3 = dt.divide(<F::Scalar as Scalar>::Real::from_usize(3));
        let dt_6 = dt.divide(<F::Scalar as Scalar>::Real::from_usize(6));
        let ghost e = exp_of(f0.spec_diag(), dt_2);
        assert(self.lin.exp_diag@ == e);
        copy_into(&mut self.x, x);
        copy_into(&mut self.lx, x);
        scale_into(&mut self.lx, &self.lin.exp_diag);
        self.nlin.nlin(x);
        copy_into(&mut self.k1, x);
        shift_into(x, &self.x, dt_2);
        scale_into(x, &self.lin.exp_diag);
        self.nlin.nlin(x);
        copy_into(&mut self.k2, x);
        shift_into(x, &self.lx, dt_2);
        self.nlin.nlin(x);
        copy_into(&mut self.k3, x);
        shift_into(x, &self.lx, dt);
        scale_into(x, &self.lin.exp_diag);
        self.nlin.nlin(x);
        add_scaled(&mut self.x, &self.k1, dt_6);
        scale_into(&mut self.x, &self.lin.exp_diag);
        add_scaled_sum(&mut self.x, &self.k2, &self.k3, dt_3);
        scale_into(&mut self.x, &self.lin.exp_diag);
        shift_into(x, &self.x, dt_6);
        assert(x@ == diag_rk4_step(f0, dt, x0));
        assert forall|t: <F::Scalar as Scalar>::Real, y: Seq<F::Scalar>| #[trigger]
            self.spec_flow(t, y) == diag_rk4_step(f0, t, y) by {
            let e = exp_of(f0.spec_diag(), part(t, 2));
            let k1 = f0.spec_nlin(y);
            let k2 = f0.spec_nlin(scaled(shifted(y, k1, part(t, 2)), e));
            let k3 = f0.spec_nlin(shifted(scaled(y, e), k2, part(t, 2)));
            assert(self.nlin.spec_nlin(y) == k1);
            assert(self.nlin.spec_nlin(scaled(shifted(y, k1, part(t, 2)), e)) == k2);
            assert(self.nlin.spec_nlin(shifted(scaled(y, e), k2, part(t, 2))) == k3);
            assert(self.nlin.spec_nlin(scaled(shifted(scaled(y, e), k3, t), e)) == f0.spec_nlin(
                scaled(shifted(scaled(y, e), k3, t), e),
            ));
        }
    }

    open spec fn spec_accepts(&self, dt: <F::Scalar as Scalar>::Real) -> bool {
        dt.spec_positive()
    }

    open spec fn spec_dt_after(&self, dt: <F::Scalar as Scalar>::Real) -> <F::Scalar as Scalar>::Real {
        dt
    }

    open spec fn spec_same_model(&self, o: Self) -> bool {
        self.spec_model() == o.spec_model()
    }

    fn set_dt(&mut self, dt: <F::Scalar as Scalar>::Real) -> (r: Result<(), TimeStepError>) {
        if dt.is_positive() {
            let dt_2 = dt.divide(<F::Scalar as Scalar>::Real::from_usize(2));
            self.lin.reset_dt(dt_2);
            self.dt = dt;
            Ok(())
        } else {
            Err(TimeStepError::NotPositive)
        }
    }
}

impl<F: SemiImplicit> Scheme for DiagRK4<F> {
    type Core = F;

    open spec fn spec_core(&self) -> F {
        self.spec_model()
    }

    fn new(nlin: F, dt: <F::Scalar as Scalar>::Real) -> (r: Self) {
        let lin = diagonal(&nlin, dt.divide(<F::Scalar as Scalar>::Real::from_usize(2)));
        let n = nlin.model_size();
        let x = zeros_vec(n);
        let lx = zeros_vec(n);
        let k1 = zeros_vec(n);
        let k2 = zeros_vec(n);
        let k3 = zeros_vec(n);
        DiagRK4 { nlin, lin, dt, x, lx, k1, k2, k3 }
    }

    fn model(&self) -> (r: &F) {
        &self.nlin
    }
}

/// Two exponential Runge-Kutta schemes with the same model and time step follow the same
/// trajectories.
pub proof fn lemma_diag_rk4_deterministic<F: SemiImplicit>(
    a: DiagRK4<F>,
    b: DiagRK4<F>,
    x: Seq<F::Scalar>,
    n: nat,
)
    requires
        a.spec_model() == b.spec_model(),
        a.spec_dt() == b.spec_dt(),
    ensures
        flow_n(a, x, n) == flow_n(b, x, n),
{
    lemma_deterministic(a, b, x, n);
}

} // verus!
