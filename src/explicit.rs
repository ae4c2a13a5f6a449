//! Explicit schemes: Euler, Heun and the classical fourth-order Runge-Kutta method.
use vstd::prelude::*;

use crate::scalar::{Real, Scalar};
use crate::traits::{
    flow_n, lemma_deterministic, Explicit, ModelSpec, Scheme, TimeEvolution, TimeStep, TimeStepError,
};
use crate::vector::{copy_into, shift_into, shifted, zeros_vec};

verus! {

/// `dt / n`.
pub open spec fn part<R: Real>(dt: R, n: usize) -> R {
    dt.spec_divide(R::spec_from_usize(n))
}

/// One Euler step: `x + dt·f(x)`.
pub open spec fn euler_step<F: Explicit>(f: F, dt: <F::Scalar as Scalar>::Real, x: Seq<F::Scalar>) -> Seq<
    F::Scalar,
> {
    shifted(x, f.spec_rhs(x), dt)
}

/// One Heun step: `x + (f(x) + f(x + dt·f(x)))·dt/2`.
pub open spec fn heun_step<F: Explicit>(f: F, dt: <F::Scalar as Scalar>::Real, x: Seq<F::Scalar>) -> Seq<
    F::Scalar,
> {
    let f1 = f.spec_rhs(x);
    let f2 = f.spec_rhs(shifted(x, f1, dt));
    Seq::new(x.len(), |i: int| x[i].spec_add(f1[i].spec_add(f2[i]).spec_mul_real(part(dt, 2))))
}

/// The weighted sum that ends a Runge-Kutta step: `x + (f1 + 2·(f2 + f3) + f4)·dt/6`.
pub open spec fn rk4_sum<S: Scalar>(
    x: Seq<S>,
    f1: Seq<S>,
    f2: Seq<S>,
    f3: Seq<S>,
    f4: Seq<S>,
    dt: S::Real,
) -> Seq<S> {
    Seq::new(
        x.len(),
        |i: int|
            x[i].spec_add(
                f1[i].spec_add(f2[i].spec_add(f3[i]).spec_mul_real(S::Real::spec_from_usize(2))).spec_add(
                    f4[i],
                ).spec_mul_real(part(dt, 6)),
            ),
    )
}

/// One step of the classical Runge-Kutta method.
pub open spec fn rk4_step<F: Explicit>(f: F, dt: <F::Scalar as Scalar>::Real, x: Seq<F::Scalar>) -> Seq<
    F::Scalar,
> {
    let f1 = f.spec_rhs(x);
    let f2 = f.spec_rhs(shifted(x, f1, part(dt, 2)));
    let f3 = f.spec_rhs(shifted(x, f2, part(dt, 2)));
    let f4 = f.spec_rhs(shifted(x, f3, dt));
    rk4_sum(x, f1, f2, f3, f4, dt)
}

/// The explicit Euler scheme.
pub struct Euler<F: Explicit> {
    f: F,
    dt: <F::Scalar as Scalar>::Real,
    x: Vec<F::Scalar>,
}

impl<F: Explicit> Euler<F> {
    /// The model that the scheme integrates.
    pub closed spec fn spec_model(&self) -> F {
        self.f
    }
}

impl<F: Explicit> ModelSpec for Euler<F> {
    type Scalar = F::Scalar;

    open spec fn spec_size(&self) -> nat {
        self.spec_model().spec_size()
    }

    fn model_size(&self) -> (n: usize) {
        self.f.model_size()
    }
}

impl<F: Explicit> TimeStep for Euler<F> {
    closed spec fn inv(&self) -> bool {
        self.x@.len() == self.f.spec_size()
    }

    closed spec fn spec_dt(&self) -> <F::Scalar as Scalar>::Real {
        self.dt
    }

    fn get_dt(&self) -> (dt: <F::Scalar as Scalar>::Real) {
        self.dt
    }
}

impl<F: Explicit> TimeEvolution for Euler<F> {
    open spec fn spec_flow(&self, dt: <F::Scalar as Scalar>::Real, x: Seq<F::Scalar>) -> Seq<F::Scalar> {
        euler_step(self.spec_model(), dt, x)
    }

    open spec fn spec_accepts(&self, dt: <F::Scalar as Scalar>::Real) -> bool {
        dt.spec_positive()
    }

    open spec fn spec_dt_after(&self, dt: <F::Scalar as Scalar>::Real) -> <F::Scalar as Scalar>::Real {
        dt
    }

    open spec fn spec_same_model(&self, o: Self) -> bool {
        self.spec_model() == o.spec_model()
    }

    fn set_dt(&mut self, dt: <F::Scalar as Scalar>::Real) -> (r: Result<(), TimeStepError>) {
        if dt.is_positive() {
            self.dt = dt;
            Ok(())
        } else {
            Err(TimeStepError::NotPositive)
        }
    }

    fn iterate(&mut self, x: &mut Vec<F::Scalar>) {
        let ghost f0 = self.f;
        copy_into(&mut self.x, x);
        self.f.rhs(x);
        shift_into(x, &self.x, self.dt);
        assert forall|t: <F::Scalar as Scalar>::Real, y: Seq<F::Scalar>| #[trigger] self.spec_flow(t, y) == euler_step(f0, t, y) by {
            assert(self.f.spec_rhs(y) == f0.spec_rhs(y));
        }
    }
}

impl<F: Explicit> Scheme for Euler<F> {
    type Core = F;

    open spec fn spec_core(&self) -> F {
        self.spec_model()
    }

    fn new(f: F, dt: <F::Scalar as Scalar>::Real) -> (r: Self) {
        let n = f.model_size();
        let x = zeros_vec(n);
        Euler { f, dt, x }
    }

    fn model(&self) -> (r: &F) {
        &self.f
    }
}

/// Heun's scheme, the explicit trapezoidal rule.
pub struct Heun<F: Explicit> {
    f: F,
    dt: <F::Scalar as Scalar>::Real,
    x: Vec<F::Scalar>,
    k1: Vec<F::Scalar>,
}

impl<F: Explicit> Heun<F> {
    /// The model that the scheme integrates.
    pub closed spec fn spec_model(&self) -> F {
        self.f
    }
}

impl<F: Explicit> ModelSpec for Heun<F> {
    type Scalar = F::Scalar;

    open spec fn spec_size(&self) -> nat {
        self.spec_model().spec_size()
    }

    fn model_size(&self) -> (n: usize) {
        self.f.model_size()
    }
}

impl<F: Explicit> TimeStep for Heun<F> {
    closed spec fn inv(&self) -> bool {
        &&& self.x@.len() == self.f.spec_size()
        &&& self.k1@.len() == self.f.spec_size()
    }

    closed spec fn spec_dt(&self) -> <F::Scalar as Scalar>::Real {
        self.dt
    }

    fn get_dt(&self) -> (dt: <F::Scalar as Scalar>::Real) {
        self.dt
    }
}

impl<F: Explicit> TimeEvolution for Heun<F> {
    open spec fn spec_flow(&self, dt: <F::Scalar as Scalar>::Real, x: Seq<F::Scalar>) -> Seq<F::Scalar> {
        heun_step(self.spec_model(), dt, x)
    }

    open spec fn spec_accepts(&self, dt: <F::Scalar as Scalar>::Real) -> bool {
        dt.spec_positive()
    }

    open spec fn spec_dt_after(&self, dt: <F::Scalar as Scalar>::Real) -> <F::Scalar as Scalar>::Real {
        dt
    }

    open spec fn spec_same_model(&self, o: Self) -> bool {
        self.spec_model() == o.spec_model()
    }

    fn set_dt(&mut self, dt: <F::Scalar as Scalar>::Real) -> (r: Result<(), TimeStepError>) {
        if dt.is_positive() {
            self.dt = dt;
            Ok(())
        } else {
            Err(TimeStepError::NotPositive)
        }
    }

    fn iterate(&mut self, x: &mut Vec<F::Scalar>) {
        let ghost f0 = self.f;
        let ghost x0 = x@;
        let dt = self.dt;
        let dt_2 = dt.divide(<F::Scalar as Scalar>::Real::from_usize(2));
        copy_into(&mut self.x, x);
        self.f.rhs(x);
        copy_into(&mut self.k1, x);
        shift_into(x, &self.x, dt);
        let ghost y2 = x@;
        self.f.rhs(x);
        let n = x.len();
        let mut i: usize = 0;
        while i < n
            invariant
                n == x@.len(),
                n == x0.len(),
                self.x@ == x0,
                self.k1@ == f0.spec_rhs(x0),
                self.k1@.len() == n,
                y2 == shifted(x0, f0.spec_rhs(x0), dt),
                f0.spec_rhs(y2).len() == n,
                dt_2 == part(dt, 2),
                i <= n,
                forall|y: Seq<F::Scalar>| #[trigger] self.f.spec_rhs(y) == f0.spec_rhs(y),
                forall|j: int|
                    0 <= j < i ==> x@[j] == x0[j].spec_add(
                        f0.spec_rhs(x0)[j].spec_add(f0.spec_rhs(y2)[j]).spec_mul_real(dt_2),
                    ),
                forall|j: int| i <= j < n ==> x@[j] == f0.spec_rhs(y2)[j],
            decreases n - i,
        {
            let v = self.x[i].add(self.k1[i].add(x[i]).mul_real(dt_2));
            x.set(i, v);
            i = i + 1;
        }
        assert(x@ =~= heun_step(f0, dt, x0));
        assert forall|t: <F::Scalar as Scalar>::Real, y: Seq<F::Scalar>| #[trigger] self.spec_flow(t, y) == heun_step(f0, t, y) by {
            assert(self.f.spec_rhs(y) == f0.spec_rhs(y));
            assert(self.f.spec_rhs(shifted(y, f0.spec_rhs(y), t)) == f0.spec_rhs(
                shifted(y, f0.spec_rhs(y), t),
            ));
        }
    }
}

impl<F: Explicit> Scheme for Heun<F> {
    type Core = F;

    open spec fn spec_core(&self) -> F {
        self.spec_model()
    }

    fn new(f: F, dt: <F::Scalar as Scalar>::Real) -> (r: Self) {
        let n = f.model_size();
        let x = zeros_vec(n);
        let k1 = zeros_vec(n);
        Heun { f, dt, x, k1 }
    }

    fn model(&self) -> (r: &F) {
        &self.f
    }
}

/// The classical fourth-order Runge-Kutta scheme.
pub struct RK4<F: Explicit> {
    f: F,
    dt: <F::Scalar as Scalar>::Real,
    x: Vec<F::Scalar>,
    k1: Vec<F::Scalar>,
    k2: Vec<F::Scalar>,
    k3: Vec<F::Scalar>,
}

impl<F: Explicit> RK4<F> {
    /// The model that the scheme integrates.
    pub closed spec fn spec_model(&self) -> F {
        self.f
    }
}

impl<F: Explicit> ModelSpec for RK4<F> {
    type Scalar = F::Scalar;

    open spec fn spec_size(&self) -> nat {
        self.spec_model().spec_size()
    }

    fn model_size(&self) -> (n: usize) {
        self.f.model_size()
    }
}

impl<F: Explicit> TimeStep for RK4<F> {
    closed spec fn inv(&self) -> bool {
        &&& self.x@.len() == self.f.spec_size()
        &&& self.k1@.len() == self.f.spec_size()
        &&& self.k2@.len() == self.f.spec_size()
        &&& self.k3@.len() == self.f.spec_size()
    }

    closed spec fn spec_dt(&self) -> <F::Scalar as Scalar>::Real {
        self.dt
    }

    fn get_dt(&self) -> (dt: <F::Scalar as Scalar>::Real) {
        self.dt
    }
}

impl<F: Explicit> TimeEvolution for RK4<F> {
    open spec fn spec_flow(&self, dt: <F::Scalar as Scalar>::Real, x: Seq<F::Scalar>) -> Seq<F::Scalar> {
        rk4_step(self.spec_model(), dt, x)
    }

    open spec fn spec_accepts(&self, dt: <F::Scalar as Scalar>::Real) -> bool {
        dt.spec_positive()
    }

    open spec fn spec_dt_after(&self, dt: <F::Scalar as Scalar>::Real) -> <F::Scalar as Scalar>::Real {
        dt
    }

    open spec fn spec_same_model(&self, o: Self) -> bool {
        self.spec_model() == o.spec_model()
    }

    fn set_dt(&mut self, dt: <F::Scalar as Scalar>::Real) -> (r: Result<(), TimeStepError>) {
        if dt.is_positive() {
            self.dt = dt;
            Ok(())
        } else {
            Err(TimeStepError::NotPositive)
        }
    }

    fn iterate(&mut self, x: &mut Vec<F::Scalar>) {
        let ghost f0 = self.f;
        let ghost x0 = x@;
        let dt = self.dt;
        let two = <F::Scalar as Scalar>::Real::from_usize(2);
        let dt_2 = dt.divide(two);
        let dt_6 = dt.divide(<F::Scalar as Scalar>::Real::from_usize(6));
        copy_into(&mut self.x, x);
        self.f.rhs(x);
        copy_into(&mut self.k1, x);
        shift_into(x, &self.x, dt_2);
        self.f.rhs(x);
        copy_into(&mut self.k2, x);
        shift_into(x, &self.x, dt_2);
        self.f.rhs(x);
        copy_into(&mut self.k3, x);
        shift_into(x, &self.x, dt);
        let ghost y4 = x@;
        self.f.rhs(x);
        let ghost f1 = f0.spec_rhs(x0);
        let ghost f2 = f0.spec_rhs(shifted(x0, f1, dt_2));
        let ghost f3 = f0.spec_rhs(shifted(x0, f2, dt_2));
        let ghost f4 = f0.spec_rhs(y4);
        assert(self.k1@ == f1);
        assert(self.k2@ == f2);
        assert(self.k3@ == f3);
        let n = x.len();
        let mut i: usize = 0;
        while i < n
            invariant
                n == x@.len(),
                n == x0.len(),
                self.x@ == x0,
                self.k1@ == f1,
                self.k2@ == f2,
                self.k3@ == f3,
                self.k1@.len() == n,
                self.k2@.len() == n,
                self.k3@.len() == n,
                two == <F::Scalar as Scalar>::Real::spec_from_usize(2),
                dt_6 == part(dt, 6),
                i <= n,
                forall|y: Seq<F::Scalar>| #[trigger] self.f.spec_rhs(y) == f0.spec_rhs(y),
                forall|j: int| 0 <= j < i ==> x@[j] == rk4_sum(x0, f1, f2, f3, f4, dt)[j],
                forall|j: int| i <= j < n ==> x@[j] == f4[j],
            decreases n - i,
        {
            let k23 = self.k2[i].add(self.k3[i]).mul_real(two);
            let v = self.x[i].add(self.k1[i].add(k23).add(x[i]).mul_real(dt_6));
            x.set(i, v);
            i = i + 1;
        }
        assert(x@ =~= rk4_step(f0, dt, x0));
        assert forall|t: <F::Scalar as Scalar>::Real, y: Seq<F::Scalar>| #[trigger] self.spec_flow(t, y) == rk4_step(f0, t, y) by {
            let g1 = f0.spec_rhs(y);
            let g2 = f0.spec_rhs(shifted(y, g1, part(t, 2)));
            let g3 = f0.spec_rhs(shifted(y, g2, part(t, 2)));
            assert(self.f.spec_rhs(y) == g1);
            assert(self.f.spec_rhs(shifted(y, g1, part(t, 2))) == g2);
            assert(self.f.spec_rhs(shifted(y, g2, part(t, 2))) == g3);
            assert(self.f.spec_rhs(shifted(y, g3, t)) == f0.spec_rhs(shifted(y, g3, t)));
        }
    }
}

impl<F: Explicit> Scheme for RK4<F> {
    type Core = F;

    open spec fn spec_core(&self) -> F {
        self.spec_model()
    }

    fn new(f: F, dt: <F::Scalar as Scalar>::Real) -> (r: Self) {
        let n = f.model_size();
        let x = zeros_vec(n);
        let k1 = zeros_vec(n);
        let k2 = zeros_vec(n);
        let k3 = zeros_vec(n);
        RK4 { f, dt, x, k1, k2, k3 }
    }

    fn model(&self) -> (r: &F) {
        &self.f
    }
}

/// Two Euler schemes with the same model and time step follow the same trajectories.
pub proof fn lemma_euler_deterministic<F: Explicit>(a: Euler<F>, b: Euler<F>, x: Seq<F::Scalar>, n: nat)
    requires
        a.spec_model() == b.spec_model(),
        a.spec_dt() == b.spec_dt(),
    ensures
        flow_n(a, x, n) == flow_n(b, x, n),
{
    lemma_deterministic(a, b, x, n);
}

/// Two Heun schemes with the same model and time step follow the same trajectories.
pub proof fn lemma_heun_deterministic<F: Explicit>(a: Heun<F>, b: Heun<F>, x: Seq<F::Scalar>, n: nat)
    requires
        a.spec_model() == b.spec_model(),
        a.spec_dt() == b.spec_dt(),
    ensures
        flow_n(a, x, n) == flow_n(b, x, n),
{
    lemma_deterministic(a, b, x, n);
}

/// Two RK4 schemes with the same model and time step follow the same trajectories.
pub proof fn lemma_rk4_deterministic<F: Explicit>(a: RK4<F>, b: RK4<F>, x: Seq<F::Scalar>, n: nat)
    requires
        a.spec_model() == b.spec_model(),
        a.spec_dt() == b.spec_dt(),
    ensures
        flow_n(a, x, n) == flow_n(b, x, n),
{
    lemma_deterministic(a, b, x, n);
}

} // verus!
