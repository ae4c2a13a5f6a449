//! Conveniences around time-evolution operators.
use vstd::prelude::*;

use crate::lyapunov::transient;
use crate::scalar::{Real, Scalar};
use crate::traits::{flow_n, flow_n_at, iterate_n, ModelSpec, TimeEvolution, TimeStep};
use crate::vector::{duplicate, norm, norm_l2};

verus! {

/// The state `step` steps of `teo` after `x0`.
pub fn iterate<T: TimeEvolution>(teo: &mut T, x0: Vec<T::Scalar>, step: usize) -> (r: Vec<T::Scalar>)
    requires
        old(teo).inv(),
        x0@.len() == old(teo).spec_size(),
    ensures
        final(teo).inv(),
        r@ == flow_n(*old(teo), x0@, step as nat),
        r@.len() == x0@.len(),
        final(teo).spec_size() == old(teo).spec_size(),
        final(teo).spec_dt() == old(teo).spec_dt(),
        forall|t: <T::Scalar as Scalar>::Real, y: Seq<T::Scalar>| #[trigger]
            final(teo).spec_flow(t, y) == old(teo).spec_flow(t, y),
        forall|t: <T::Scalar as Scalar>::Real| #[trigger]
            final(teo).spec_accepts(t) == old(teo).spec_accepts(t),
        forall|t: <T::Scalar as Scalar>::Real| #[trigger]
            final(teo).spec_dt_after(t) == old(teo).spec_dt_after(t),
{
    let mut x = x0;
    iterate_n(teo, &mut x, step);
    x
}

/// The number of leading steps of a Lyapunov series that are left out as transient for a
/// run of `duration` steps.
pub fn transient_steps(duration: usize) -> (r: usize)
    ensures
        r == transient(duration as nat),
{
    duration / 10
}

/// The number of steps that the forward pass of the covariant-vector computation keeps for a
/// run of `duration` steps: `duration` and a margin of `duration / 10`; `None` where that
/// does not fit in a `usize`.
pub fn forward_steps(duration: usize) -> (r: Option<usize>)
    ensures
        r is Some <==> duration + transient(duration as nat) <= usize::MAX,
        r is Some ==> r->Some_0 == duration + transient(duration as nat),
{
    duration.checked_add(duration / 10)
}

/// `2^k`.
pub open spec fn rate(k: nat) -> nat
    decreases k,
{
    if k == 0 {
        1
    } else {
        2 * rate((k - 1) as nat)
    }
}

/// The `k`-th time step of an accuracy study: `dt_base / 2^k`.
pub open spec fn scaled_dt<R: Real>(dt_base: R, k: nat) -> R {
    dt_base.spec_divide(R::spec_from_usize(rate(k) as usize))
}

/// `2^k` and `step_base·2^k` fit in a `usize`.
pub open spec fn fits(step_base: usize, k: nat) -> bool {
    &&& rate(k) <= usize::MAX
    &&& step_base * rate(k) <= usize::MAX
}

/// The end state of the `k`-th run of an accuracy study: `step_base·2^k` steps of length
/// `dt_base / 2^k` (as the scheme takes it) from `init`.
pub open spec fn end_state<T: TimeEvolution>(
    teo: T,
    init: Seq<T::Scalar>,
    dt_base: <T::Scalar as Scalar>::Real,
    step_base: usize,
    k: nat,
) -> Seq<T::Scalar> {
    flow_n_at(teo, teo.spec_dt_after(scaled_dt(dt_base, k)), init, (step_base * rate(k)) as nat)
}

/// `a - b`, entry by entry.
pub open spec fn difference<S: Scalar>(a: Seq<S>, b: Seq<S>) -> Seq<S> {
    Seq::new(a.len(), |i: int| a[i].spec_sub(b[i]))
}

/// Why an accuracy study could not run.
#[derive(Clone, Copy, Debug, PartialEq, Eq)]
pub enum AccuracyError {
    /// The number of steps of some run does not fit in a `usize`.
    TooManySteps,
    /// The scheme refused one of the time steps.
    StepRefused,
}

proof fn lemma_same_flows<T: TimeEvolution>(
    a: T,
    b: T,
    dt: <T::Scalar as Scalar>::Real,
    x: Seq<T::Scalar>,
    n: nat,
)
    requires
        forall|t: <T::Scalar as Scalar>::Real, y: Seq<T::Scalar>| #[trigger]
            a.spec_flow(t, y) == b.spec_flow(t, y),
    ensures
        flow_n_at(a, dt, x, n) == flow_n_at(b, dt, x, n),
    decreases n,
{
    if n > 0 {
        lemma_same_flows(a, b, dt, x, (n - 1) as nat);
    }
}

fn difference_vec<S: Scalar>(a: &Vec<S>, b: &Vec<S>) -> (r: Vec<S>)
    requires
        a@.len() == b@.len(),
    ensures
        r@ == difference(a@, b@),
{
    let n = a.len();
    let mut r: Vec<S> = Vec::with_capacity(n);
    let mut i: usize = 0;
    while i < n
        invariant
            n == a@.len(),
            n == b@.len(),
            i <= n,
            r@ == difference(a@, b@).subrange(0, i as int),
        decreases n - i,
    {
        r.push(a[i].sub(b[i]));
        i = i + 1;
        assert(r@ =~= difference(a@, b@).subrange(0, i as int));
    }
    assert(r@ =~= difference(a@, b@));
    r
}

/// An accuracy study: for `k < num_scale`, integrates from `init` with the time step
/// `dt_base / 2^k` for `step_base·2^k` steps (up to the same end time), and gives, for each run
/// but the last, its time step and the distance between its end state and the end state of
/// the next run.
pub fn accuracy<T: TimeEvolution>(
    teo: T,
    init: Vec<T::Scalar>,
    dt_base: <T::Scalar as Scalar>::Real,
    step_base: usize,
    num_scale: u32,
) -> (r: Result<Vec<(<T::Scalar as Scalar>::Real, <T::Scalar as Scalar>::Real)>, AccuracyError>)
    requires
        teo.inv(),
        init@.len() == teo.spec_size(),
    ensures
        r == Err::<Vec<(<T::Scalar as Scalar>::Real, <T::Scalar as Scalar>::Real)>, AccuracyError>(
            AccuracyError::TooManySteps,
        ) <==> exists|k: nat| k < num_scale && !fits(step_base, k),
        r == Err::<Vec<(<T::Scalar as Scalar>::Real, <T::Scalar as Scalar>::Real)>, AccuracyError>(
            AccuracyError::StepRefused,
        ) <==> (forall|k: nat| k < num_scale ==> fits(step_base, k)) && exists|k: nat|
            k < num_scale && !teo.spec_accepts(scaled_dt(dt_base, k)),
        r is Ok ==> r->Ok_0@.len() == if num_scale > 0 {
            num_scale - 1
        } else {
            0
        },
        r is Ok ==> forall|k: int| 0 <= k < r->Ok_0@.len() ==> #[trigger] r->Ok_0@[k] == (
            scaled_dt(dt_base, k as nat),
            norm_l2(
                difference(
                    end_state(teo, init@, dt_base, step_base, (k + 1) as nat),
                    end_state(teo, init@, dt_base, step_base, k as nat),
                ),
            ),
        ),
{
    let mut rates: Vec<usize> = Vec::new();
    let mut steps: Vec<usize> = Vec::new();
    let mut k: u32 = 0;
    let mut current: usize = 1;
    while k < num_scale
        invariant
            k <= num_scale,
            rates@.len() == k,
            steps@.len() == k,
            k < num_scale ==> current == rate(k as nat),
            forall|j: int| 0 <= j < k ==> #[trigger] rates@[j] == rate(j as nat),
            forall|j: int| 0 <= j < k ==> #[trigger] steps@[j] == step_base * rate(j as nat),
            forall|j: nat| j < k ==> fits(step_base, j),
        decreases num_scale - k,
    {
        let t = match step_base.checked_mul(current) {
            Some(t) => t,
            None => {
                assert(!fits(step_base, k as nat));
                return Err(AccuracyError::TooManySteps);
            },
        };
        rates.push(current);
        steps.push(t);
        if k + 1 < num_scale {
            current = match current.checked_mul(2) {
                Some(c) => c,
                None => {
                    assert(!fits(step_base, (k + 1) as nat));
                    return Err(AccuracyError::TooManySteps);
                },
            };
        }
        k = k + 1;
    }
    let n = rates.len();
    let mut scheme = teo;
    let mut ends: Vec<Vec<T::Scalar>> = Vec::new();
    let mut dts: Vec<<T::Scalar as Scalar>::Real> = Vec::new();
    let mut i: usize = 0;
    while i < n
        invariant
            n == num_scale,
            rates@.len() == n,
            steps@.len() == n,
            forall|j: int| 0 <= j < n ==> #[trigger] rates@[j] == rate(j as nat),
            forall|j: int| 0 <= j < n ==> #[trigger] steps@[j] == step_base * rate(j as nat),
            forall|j: nat| j < num_scale ==> fits(step_base, j),
            i <= n,
            scheme.inv(),
            scheme.spec_size() == teo.spec_size(),
            init@.len() == teo.spec_size(),
            forall|t: <T::Scalar as Scalar>::Real, y: Seq<T::Scalar>| #[trigger]
                scheme.spec_flow(t, y) == teo.spec_flow(t, y),
            forall|t: <T::Scalar as Scalar>::Real| #[trigger]
                scheme.spec_accepts(t) == teo.spec_accepts(t),
            forall|t: <T::Scalar as Scalar>::Real| #[trigger]
                scheme.spec_dt_after(t) == teo.spec_dt_after(t),
            ends@.len() == i,
            dts@.len() == i,
            forall|j: int| 0 <= j < i ==> (#[trigger] ends@[j])@ == end_state(teo, init@, dt_base, step_base, j as nat),
            forall|j: int| 0 <= j < i ==> (#[trigger] ends@[j])@.len() == init@.len(),
            forall|j: int| 0 <= j < i ==> #[trigger] dts@[j] == scaled_dt(dt_base, j as nat),
            forall|j: nat| j < i ==> teo.spec_accepts(#[trigger] scaled_dt(dt_base, j)),
        decreases n - i,
    {
        let dt = dt_base.divide(<T::Scalar as Scalar>::Real::from_usize(rates[i]));
        assert(dt == scaled_dt(dt_base, i as nat));
        match scheme.set_dt(dt) {
            Ok(()) => {},
            Err(_) => {
                assert(!teo.spec_accepts(scaled_dt(dt_base, i as nat)));
                return Err(AccuracyError::StepRefused);
            },
        }
        let ghost stepped = scheme;
        assert(stepped.spec_dt() == teo.spec_dt_after(scaled_dt(dt_base, i as nat)));
        let x = iterate(&mut scheme, duplicate(&init), steps[i]);
        proof {
            lemma_same_flows(stepped, teo, stepped.spec_dt(), init@, steps@[i as int] as nat);
            assert(x@ == end_state(teo, init@, dt_base, step_base, i as nat));
        }
        ends.push(x);
        dts.push(dt);
        i = i + 1;
    }
    let mut out: Vec<(<T::Scalar as Scalar>::Real, <T::Scalar as Scalar>::Real)> = Vec::new();
    let mut j: usize = 0;
    while j + 1 < n
        invariant
            n == num_scale,
            ends@.len() == n,
            dts@.len() == n,
            forall|m: int| 0 <= m < n ==> (#[trigger] ends@[m])@ == end_state(teo, init@, dt_base, step_base, m as nat),
            forall|m: int| 0 <= m < n ==> (#[trigger] ends@[m])@.len() == init@.len(),
            forall|m: int| 0 <= m < n ==> #[trigger] dts@[m] == scaled_dt(dt_base, m as nat),
            n > 0 ==> j < n,
            n == 0 ==> j == 0,
            out@.len() == j,
            forall|m: int| 0 <= m < j ==> #[trigger] out@[m] == (
                scaled_dt(dt_base, m as nat),
                norm_l2(
                    difference(
                        end_state(teo, init@, dt_base, step_base, (m + 1) as nat),
                        end_state(teo, init@, dt_base, step_base, m as nat),
                    ),
                ),
            ),
        decreases n - j,
    {
        let d = difference_vec(&ends[j + 1], &ends[j]);
        out.push((dts[j], norm(&d)));
        j = j + 1;
    }
    Ok(out)
}

} // verus!
