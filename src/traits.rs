//! The interfaces between equations of motion and the schemes that integrate them.
use vstd::prelude::*;

use crate::scalar::{Real, Scalar};

verus! {

/// The state space of a model: state vectors of `model_size()` scalars.
pub trait ModelSpec: Sized {
    type Scalar: Scalar;

    /// Number of scalars that describe a state.
    spec fn spec_size(&self) -> nat;

    fn model_size(&self) -> (n: usize)
        ensures
            n == self.spec_size(),
    ;
}

/// An equation of motion `dx/dt = f(x)`, given by its right-hand side `f`.
pub trait Explicit: ModelSpec {
    /// The right-hand side `f(x)`.
    spec fn spec_rhs(&self, x: Seq<Self::Scalar>) -> Seq<Self::Scalar>;

    /// Overwrites `x` with `f(x)`. Takes `&mut self` so that a model may keep scratch memory.
    fn rhs(&mut self, x: &mut Vec<Self::Scalar>)
        requires
            old(x)@.len() == old(self).spec_size(),
        ensures
            final(x)@ == old(self).spec_rhs(old(x)@),
            final(x)@.len() == old(x)@.len(),
            final(self).spec_size() == old(self).spec_size(),
            forall|y: Seq<Self::Scalar>| #[trigger]
                final(self).spec_rhs(y) == old(self).spec_rhs(y),
    ;
}

/// A stiff equation of motion `dx/dt = A·x + g(x)` with a diagonal linear part `A`.
pub trait SemiImplicit: ModelSpec {
    /// The nonlinear part `g(x)`.
    spec fn spec_nlin(&self, x: Seq<Self::Scalar>) -> Seq<Self::Scalar>;

    /// The diagonal entries of `A`.
    spec fn spec_diag(&self) -> Seq<Self::Scalar>;

    /// Overwrites `x` with `g(x)`.
    fn nlin(&mut self, x: &mut Vec<Self::Scalar>)
        requires
            old(x)@.len() == old(self).spec_size(),
        ensures
            final(x)@ == old(self).spec_nlin(old(x)@),
            final(x)@.len() == old(x)@.len(),
            final(self).spec_size() == old(self).spec_size(),
            final(self).spec_diag() == old(self).spec_diag(),
            forall|y: Seq<Self::Scalar>| #[trigger]
                final(self).spec_nlin(y) == old(self).spec_nlin(y),
    ;

    fn diag(&self) -> (d: Vec<Self::Scalar>)
        ensures
            d@ == self.spec_diag(),
            d@.len() == self.spec_size(),
    ;
}

/// A time step was refused: it must be positive.
#[derive(Clone, Copy, Debug, PartialEq, Eq)]
pub enum TimeStepError {
    NotPositive,
}

/// A scheme with a fixed time step.
pub trait TimeStep: ModelSpec {
    /// The scheme's buffers and cached values fit its model and its time step.
    spec fn inv(&self) -> bool;

    spec fn spec_dt(&self) -> <Self::Scalar as Scalar>::Real;

    fn get_dt(&self) -> (dt: <Self::Scalar as Scalar>::Real)
        ensures
            dt == self.spec_dt(),
    ;
}

/// The flow map of a scheme: one step of length `dt`.
pub trait TimeEvolution: TimeStep {
    /// The state one step of length `dt` after `x`.
    spec fn spec_flow(&self, dt: <Self::Scalar as Scalar>::Real, x: Seq<Self::Scalar>) -> Seq<Self::Scalar>;

    /// Advances `x` by one step, in place.
    fn iterate(&mut self, x: &mut Vec<Self::Scalar>)
        requires
            old(self).inv(),
            old(x)@.len() == old(self).spec_size(),
        ensures
            final(self).inv(),
            final(x)@ == old(self).spec_flow(old(self).spec_dt(), old(x)@),
            final(x)@.len() == old(x)@.len(),
            final(self).spec_size() == old(self).spec_size(),
            final(self).spec_dt() == old(self).spec_dt(),
            forall|t: <Self::Scalar as Scalar>::Real, y: Seq<Self::Scalar>| #[trigger]
                final(self).spec_flow(t, y) == old(self).spec_flow(t, y),
            forall|t: <Self::Scalar as Scalar>::Real| #[trigger]
                final(self).spec_accepts(t) == old(self).spec_accepts(t),
            forall|t: <Self::Scalar as Scalar>::Real| #[trigger]
                final(self).spec_dt_after(t) == old(self).spec_dt_after(t),
    ;

    /// Whether `set_dt` takes the step `dt`.
    spec fn spec_accepts(&self, dt: <Self::Scalar as Scalar>::Real) -> bool;

    /// The time step after `set_dt(dt)` has taken `dt`.
    spec fn spec_dt_after(&self, dt: <Self::Scalar as Scalar>::Real) -> <Self::Scalar as Scalar>::Real;

    /// `self` integrates the same model as `o`.
    spec fn spec_same_model(&self, o: Self) -> bool;

    /// Changes the time step. A step that is refused changes nothing.
    fn set_dt(&mut self, dt: <Self::Scalar as Scalar>::Real) -> (r: Result<(), TimeStepError>)
        requires
            old(self).inv(),
        ensures
            r is Ok <==> old(self).spec_accepts(dt),
            r is Ok ==> final(self).spec_dt() == old(self).spec_dt_after(dt),
            r is Err ==> *final(self) == *old(self),
            final(self).spec_same_model(*old(self)),
            final(self).inv(),
            final(self).spec_size() == old(self).spec_size(),
            forall|t: <Self::Scalar as Scalar>::Real, y: Seq<Self::Scalar>| #[trigger]
                final(self).spec_flow(t, y) == old(self).spec_flow(t, y),
            forall|t: <Self::Scalar as Scalar>::Real| #[trigger]
                final(self).spec_accepts(t) == old(self).spec_accepts(t),
            forall|t: <Self::Scalar as Scalar>::Real| #[trigger]
                final(self).spec_dt_after(t) == old(self).spec_dt_after(t),
    ;
}

/// The state `n` steps of length `dt` after `x`.
pub open spec fn flow_n_at<T: TimeEvolution>(
    t: T,
    dt: <T::Scalar as Scalar>::Real,
    x: Seq<T::Scalar>,
    n: nat,
) -> Seq<T::Scalar>
    decreases n,
{
    if n == 0 {
        x
    } else {
        t.spec_flow(dt, flow_n_at(t, dt, x, (n - 1) as nat))
    }
}

/// The state `n` steps after `x`.
pub open spec fn flow_n<T: TimeEvolution>(t: T, x: Seq<T::Scalar>, n: nat) -> Seq<T::Scalar> {
    flow_n_at(t, t.spec_dt(), x, n)
}

/// Integration is deterministic: two schemes with the same flow maps and the same time step
/// take the same initial state to the same state, after any number of steps, whatever else
/// (scratch buffers) they hold.
pub proof fn lemma_deterministic<T: TimeEvolution>(a: T, b: T, x: Seq<T::Scalar>, n: nat)
    requires
        a.spec_dt() == b.spec_dt(),
        forall|t: <T::Scalar as Scalar>::Real, y: Seq<T::Scalar>| #[trigger]
            a.spec_flow(t, y) == b.spec_flow(t, y),
    ensures
        flow_n(a, x, n) == flow_n(b, x, n),
    decreases n,
{
    if n > 0 {
        lemma_deterministic(a, b, x, (n - 1) as nat);
    }
}

/// Advances `x` by `n` steps of `teo`, in place.
pub fn iterate_n<T: TimeEvolution>(teo: &mut T, x: &mut Vec<T::Scalar>, n: usize)
    requires
        old(teo).inv(),
        old(x)@.len() == old(teo).spec_size(),
    ensures
        final(teo).inv(),
        final(x)@ == flow_n(*old(teo), old(x)@, n as nat),
        final(x)@.len() == old(x)@.len(),
        final(teo).spec_size() == old(teo).spec_size(),
        final(teo).spec_dt() == old(teo).spec_dt(),
        forall|t: <T::Scalar as Scalar>::Real, y: Seq<T::Scalar>| #[trigger]
            final(teo).spec_flow(t, y) == old(teo).spec_flow(t, y),
        forall|t: <T::Scalar as Scalar>::Real| #[trigger]
            final(teo).spec_accepts(t) == old(teo).spec_accepts(t),
        forall|t: <T::Scalar as Scalar>::Real| #[trigger]
            final(teo).spec_dt_after(t) == old(teo).spec_dt_after(t),
{
    let mut i: usize = 0;
    while i < n
        invariant
            i <= n,
            teo.inv(),
            x@ == flow_n(*old(teo), old(x)@, i as nat),
            x@.len() == old(x)@.len(),
            x@.len() == teo.spec_size(),
            teo.spec_size() == old(teo).spec_size(),
            teo.spec_dt() == old(teo).spec_dt(),
            forall|t: <T::Scalar as Scalar>::Real, y: Seq<T::Scalar>| #[trigger]
                teo.spec_flow(t, y) == old(teo).spec_flow(t, y),
            forall|t: <T::Scalar as Scalar>::Real| #[trigger]
                teo.spec_accepts(t) == old(teo).spec_accepts(t),
            forall|t: <T::Scalar as Scalar>::Real| #[trigger]
                teo.spec_dt_after(t) == old(teo).spec_dt_after(t),
        decreases n - i,
    {
        teo.iterate(x);
        i = i + 1;
    }
}

/// A scheme built around a model.
pub trait Scheme: TimeEvolution {
    type Core: ModelSpec<Scalar = Self::Scalar>;

    /// The model that the scheme integrates.
    spec fn spec_core(&self) -> Self::Core;

    /// Sets up the scheme and its buffers for the model `f` and the time step `dt`.
    fn new(f: Self::Core, dt: <Self::Scalar as Scalar>::Real) -> (r: Self)
        ensures
            r.inv(),
            r.spec_core() == f,
            r.spec_dt() == dt,
            r.spec_size() == f.spec_size(),
    ;

    fn model(&self) -> (r: &Self::Core)
        ensures
            *r == self.spec_core(),
    ;
}

} // verus!
