use eom::explicit::{Euler, Heun, RK4};
use eom::adaptor::{accuracy, forward_steps, iterate, transient_steps, AccuracyError};
use eom::lyapunov::{
    canonical_qr, retain_central, Clv, Exponents, ForwardWindow, LinearApprox, LyapunovError, Series,
};
use eom::ode::{Lorenz63, Lorenz96, Roessler};
use eom::scalar::{Exponential, Real, Scalar};
use eom::semi_implicit::{diagonal, DiagRK4, Diagonal};
use eom::traits::{iterate_n, Explicit, ModelSpec, Scheme, SemiImplicit, TimeEvolution, TimeStep, TimeStepError};

/// Double-precision reals.
#[derive(Clone, Copy, Debug, PartialEq, PartialOrd)]
struct R(f64);

impl Exponential for R {
    fn spec_exp(self) -> Self {
        Exponential::exp(self)
    }
    fn exp(self) -> Self {
        R(self.0.exp())
    }
}

impl Scalar for R {
    type Real = R;
    fn spec_zero() -> Self {
        R(0.0)
    }
    fn spec_one() -> Self {
        R(1.0)
    }
    fn spec_add(self, o: Self) -> Self {
        Scalar::add(self, o)
    }
    fn spec_sub(self, o: Self) -> Self {
        Scalar::sub(self, o)
    }
    fn spec_mul(self, o: Self) -> Self {
        Scalar::mul(self, o)
    }
    fn spec_neg(self) -> Self {
        Scalar::neg(self)
    }
    fn spec_mul_real(self, a: R) -> Self {
        self.mul_real(a)
    }
    fn spec_div_real(self, a: R) -> Self {
        self.div_real(a)
    }
    fn spec_abs(self) -> R {
        Scalar::abs(self)
    }
    fn spec_abs_sqr(self) -> R {
        self.abs_sqr()
    }
    fn spec_finite(self) -> bool {
        self.is_finite()
    }
    fn spec_conj(self) -> Self {
        self.conj()
    }
    fn spec_phase(self) -> Self {
        self.phase()
    }
    fn zero() -> Self {
        R(0.0)
    }
    fn one() -> Self {
        R(1.0)
    }
    fn add(self, o: Self) -> Self {
        R(self.0 + o.0)
    }
    fn sub(self, o: Self) -> Self {
        R(self.0 - o.0)
    }
    fn mul(self, o: Self) -> Self {
        R(self.0 * o.0)
    }
    fn neg(self) -> Self {
        R(-self.0)
    }
    fn mul_real(self, a: R) -> Self {
        R(self.0 * a.0)
    }
    fn div_real(self, a: R) -> Self {
        R(self.0 / a.0)
    }
    fn abs(self) -> R {
        R(self.0.abs())
    }
    fn abs_sqr(self) -> R {
        R(self.0 * self.0)
    }
    fn is_finite(self) -> bool {
        self.0.is_finite()
    }
    fn conj(self) -> Self {
        self
    }
    fn phase(self) -> Self {
        if self.0 < 0.0 {
            R(-1.0)
        } else {
            R(1.0)
        }
    }
}

impl Real for R {
    fn spec_plus(self, o: Self) -> Self {
        self.plus(o)
    }
    fn spec_times(self, o: Self) -> Self {
        self.times(o)
    }
    fn spec_divide(self, o: Self) -> Self {
        self.divide(o)
    }
    fn spec_max(self, o: Self) -> Self {
        Real::max(self, o)
    }
    fn spec_sqrt(self) -> Self {
        self.sqrt()
    }
    fn spec_ln(self) -> Self {
        self.ln()
    }
    fn spec_from_usize(n: usize) -> Self {
        R::from_usize(n)
    }
    fn spec_positive(self) -> bool {
        self.is_positive()
    }
    fn plus(self, o: Self) -> Self {
        R(self.0 + o.0)
    }
    fn times(self, o: Self) -> Self {
        R(self.0 * o.0)
    }
    fn divide(self, o: Self) -> Self {
        R(self.0 / o.0)
    }
    fn max(self, o: Self) -> Self {
        R(self.0.max(o.0))
    }
    fn sqrt(self) -> Self {
        R(self.0.sqrt())
    }
    fn ln(self) -> Self {
        R(self.0.ln())
    }
    fn from_usize(n: usize) -> Self {
        R(n as f64)
    }
    fn is_positive(self) -> bool {
        self.0 > 0.0
    }
}

fn v(xs: &[f64]) -> Vec<R> {
    xs.iter().map(|&x| R(x)).collect()
}

fn f(xs: &[R]) -> Vec<f64> {
    xs.iter().map(|x| x.0).collect()
}

fn dist(a: &[R], b: &[R]) -> f64 {
    a.iter().zip(b).map(|(x, y)| (x.0 - y.0) * (x.0 - y.0)).sum::<f64>().sqrt()
}

fn l63() -> Lorenz63<R> {
    Lorenz63::new(R(10.0), R(28.0), R(8.0 / 3.0))
}

/// A small pseudo-random generator for test vectors, uniform in [0, 1).
struct Lcg(u64);

impl Lcg {
    fn next(&mut self) -> f64 {
        self.0 = self.0.wrapping_mul(6364136223846793005).wrapping_add(1442695040888963407);
        (self.0 >> 11) as f64 / (1u64 << 53) as f64
    }
    fn vec(&mut self, n: usize) -> Vec<R> {
        (0..n).map(|_| R(self.next())).collect()
    }
}

/// QR decomposition by modified Gram-Schmidt; matrices are lists of columns, `R` has a positive
/// diagonal.
fn qr(w: &[Vec<R>]) -> (Vec<Vec<R>>, Vec<Vec<R>>) {
    let n = w.len();
    let m = w[0].len();
    let mut q: Vec<Vec<f64>> = w.iter().map(|c| f(c)).collect();
    let mut r = vec![vec![0.0; n]; n];
    for j in 0..n {
        for i in 0..j {
            let qi = q[i].clone();
            let d: f64 = (0..m).map(|k| qi[k] * q[j][k]).sum();
            r[j][i] = d;
            for k in 0..m {
                q[j][k] -= d * qi[k];
            }
        }
        let nrm = (0..m).map(|k| q[j][k] * q[j][k]).sum::<f64>().sqrt();
        r[j][j] = nrm;
        for k in 0..m {
            q[j][k] /= nrm;
        }
    }
    (q.iter().map(|c| v(c)).collect(), r.iter().map(|c| v(c)).collect())
}

fn lyapunov_exponents<T: TimeEvolution<Scalar = R>>(teo: T, x: Vec<R>, dt: f64, duration: usize) -> Vec<f64> {
    let n = x.len();
    let mut series = Series::new(teo, x, R(1e-7));
    let mut ex = Exponents::new(n, R(dt), duration);
    while !ex.is_complete() {
        let w = series.tangent().unwrap();
        let (q, r) = qr(&w);
        series.advance(q).unwrap();
        ex.push(&r);
    }
    f(&ex.value())
}

#[test]
fn arr() {
    let dt = 0.01;
    let eom = l63();
    let mut teo = Euler::new(eom, R(dt));
    let mut x = v(&[1.0, 0.0, 0.0]);
    teo.iterate(&mut x);
    assert!(dist(&x, &v(&[0.9, 0.28, 0.0])) < 1e-12);
}

#[test]
fn rcarr() {
    let dt = 0.01;
    let eom = l63();
    let mut teo = Euler::new(eom, R(dt));
    let mut x = v(&[1.0, 0.0, 0.0]);
    teo.iterate(&mut x);
    teo.iterate(&mut x);
    let mut y = v(&[0.9, 0.28, 0.0]);
    teo.iterate(&mut y);
    assert_eq!(x, y);
}

#[test]
fn view_mut() {
    let dt = 0.01;
    let eom = l63();
    let mut teo = Euler::new(eom, R(dt));
    let mut x = v(&[1.0, 0.0, 0.0]);
    {
        let view = &mut x;
        teo.iterate(view);
    }
    assert!(dist(&x, &v(&[0.9, 0.28, 0.0])) < 1e-12);
}

#[test]
fn jacobian_linearity() {
    let eom = l63();
    let mut teo = RK4::new(eom, R(0.01));
    let x0 = v(&[1.0, 0.0, 0.0]);
    let mut j = teo.lin_approx(x0, R(1e-7));
    let mut rng = Lcg(1);
    let a = rng.vec(3);
    let b = rng.vec(3);
    let ab: Vec<R> = a.iter().zip(&b).map(|(x, y)| R(x.0 + y.0)).collect();
    let j_z = j.apply(ab);
    let ja = j.apply(a);
    let jb = j.apply(b);
    let jv_jw: Vec<R> = ja.iter().zip(&jb).map(|(x, y)| R(x.0 + y.0)).collect();
    assert!(dist(&jv_jw, &j_z) < 1e-5);
}

#[test]
fn jacobian_view() {
    let eom = l63();
    let mut teo = RK4::new(eom, R(0.01));
    let x0 = v(&[1.0, 0.0, 0.0]);
    let mut j = teo.lin_approx(x0, R(1e-7));
    let mut rng = Lcg(2);
    let mut dx = rng.vec(3);
    let expected = j.apply(dx.clone());
    j.apply_inplace(&mut dx);
    assert_eq!(dx, expected);
}

#[test]
fn jacobian_2d() {
    let eom = l63();
    let mut teo = RK4::new(eom, R(0.01));
    let x0 = v(&[1.0, 0.0, 0.0]);
    let mut j = teo.lin_approx(x0, R(1e-7));
    let mut rng = Lcg(3);
    let a = vec![rng.vec(3), rng.vec(3)];
    let images = j.apply_multi(a.clone());
    assert_eq!(images.len(), 2);
    assert_eq!(images[0], j.apply(a[0].clone()));
    assert_eq!(images[1], j.apply(a[1].clone()));
}

/// Solves `R·X = C` for upper-triangular `R`; matrices are lists of columns.
fn solve_upper(r: &[Vec<R>], c: &[Vec<R>]) -> Vec<Vec<R>> {
    let n = r.len();
    c.iter()
        .map(|col| {
            let mut x = vec![0.0; n];
            for i in (0..n).rev() {
                let mut s = col[i].0;
                for k in (i + 1)..n {
                    s -= r[k][i].0 * x[k];
                }
                x[i] = s / r[i][i].0;
            }
            v(&x)
        })
        .collect()
}

struct ClvStep {
    v: Vec<Vec<R>>,
    f: Vec<R>,
    r: Vec<Vec<R>>,
    c_before: Vec<Vec<R>>,
    c_after: Vec<Vec<R>>,
}

fn covariant_vectors(duration: usize) -> Vec<ClvStep> {
    let mut series = Series::new(RK4::new(l63(), R(0.01)), v(&[1.0, 0.0, 0.0]), R(1e-7));
    let mut window = ForwardWindow::new(duration).unwrap();
    while !window.is_complete() {
        let w = series.tangent().unwrap();
        let (q, r) = qr(&w);
        series.advance(q.clone()).unwrap();
        window.push((q, r));
    }
    let mut clv = Clv::new(3);
    let mut rev = Vec::new();
    while let Some((q, r)) = window.take_latest() {
        let c_before = clv.coefficients();
        let solved = solve_upper(&r, &c_before);
        let (vs, f) = clv.step(&q, &solved).unwrap();
        rev.push(ClvStep { v: vs, f, r, c_before, c_after: clv.coefficients() });
    }
    retain_central(rev, transient_steps(duration))
}

#[test]
fn euler_step_formula() {
    let mut teo = Euler::new(l63(), R(0.01));
    let mut x = v(&[1.0, 2.0, 3.0]);
    teo.iterate(&mut x);
    // f(1, 2, 3) = (10, 23, -6)
    let expected = [1.0 + 10.0 * 0.01, 2.0 + 23.0 * 0.01, 3.0 + (2.0 - 8.0) * 0.01];
    assert!(dist(&x, &v(&expected)) < 1e-14);
}

#[test]
fn heun_step_formula() {
    let dt = 0.01;
    let p = (10.0, 28.0, 8.0 / 3.0);
    let rhs = |x: [f64; 3]| [p.0 * (x[1] - x[0]), x[0] * (p.1 - x[2]) - x[1], x[0] * x[1] - p.2 * x[2]];
    let x0 = [1.0, 2.0, 3.0];
    let k1 = rhs(x0);
    let y = [x0[0] + dt * k1[0], x0[1] + dt * k1[1], x0[2] + dt * k1[2]];
    let k2 = rhs(y);
    let expected: Vec<f64> = (0..3).map(|i| x0[i] + (k1[i] + k2[i]) * dt / 2.0).collect();
    let mut teo = Heun::new(l63(), R(dt));
    let mut x = v(&x0);
    teo.iterate(&mut x);
    assert!(dist(&x, &v(&expected)) < 1e-14);
}

#[test]
fn rk4_step_formula() {
    let dt = 0.01;
    let p = (10.0, 28.0, 8.0 / 3.0);
    let rhs = |x: [f64; 3]| [p.0 * (x[1] - x[0]), x[0] * (p.1 - x[2]) - x[1], x[0] * x[1] - p.2 * x[2]];
    let add = |x: [f64; 3], k: [f64; 3], a: f64| [x[0] + a * k[0], x[1] + a * k[1], x[2] + a * k[2]];
    let x0 = [1.0, 2.0, 3.0];
    let k1 = rhs(x0);
    let k2 = rhs(add(x0, k1, dt / 2.0));
    let k3 = rhs(add(x0, k2, dt / 2.0));
    let k4 = rhs(add(x0, k3, dt));
    let expected: Vec<f64> =
        (0..3).map(|i| x0[i] + dt / 6.0 * (k1[i] + 2.0 * k2[i] + 2.0 * k3[i] + k4[i])).collect();
    let mut teo = RK4::new(l63(), R(dt));
    let mut x = v(&x0);
    teo.iterate(&mut x);
    assert!(dist(&x, &v(&expected)) < 1e-13);
}

#[test]
fn set_dt_refuses_non_positive_steps() {
    let mut teo = RK4::new(l63(), R(0.01));
    assert_eq!(teo.set_dt(R(0.0)), Err(TimeStepError::NotPositive));
    assert_eq!(teo.set_dt(R(-0.5)), Err(TimeStepError::NotPositive));
    assert_eq!(teo.get_dt(), R(0.01));
    assert_eq!(teo.set_dt(R(0.02)), Ok(()));
    assert_eq!(teo.get_dt(), R(0.02));
    let mut si = DiagRK4::new(l63(), R(0.01));
    assert_eq!(si.set_dt(R(-1.0)), Err(TimeStepError::NotPositive));
    assert_eq!(si.get_dt(), R(0.01));
}

#[test]
fn identical_inputs_identical_trajectories() {
    let mut a = RK4::new(l63(), R(0.01));
    let mut b = RK4::new(l63(), R(0.01));
    let mut x = v(&[1.0, 0.0, 0.0]);
    let mut y = v(&[1.0, 0.0, 0.0]);
    // the second scheme has used its buffers on another state before
    let mut z = v(&[-3.0, 7.0, 20.0]);
    b.iterate(&mut z);
    iterate_n(&mut a, &mut x, 1000);
    iterate_n(&mut b, &mut y, 1000);
    assert_eq!(x, y);
    let mut s1 = DiagRK4::new(l63(), R(0.01));
    let mut s2 = DiagRK4::new(l63(), R(0.01));
    assert_eq!(iterate(&mut s1, v(&[1.0, 0.0, 0.0]), 500), iterate(&mut s2, v(&[1.0, 0.0, 0.0]), 500));
}

fn convergence_ratios<T: TimeEvolution<Scalar = R>>(teo: T) -> Vec<f64> {
    // end time 0.5: the deviations between successive halvings of dt are well above rounding
    let study = accuracy(teo, v(&[1.0, 0.0, 0.0]), R(0.005), 100, 5).unwrap();
    assert_eq!(study.len(), 4);
    study.windows(2).map(|w| w[0].1 .0 / w[1].1 .0).collect()
}

#[test]
fn convergence_order_euler() {
    for r in convergence_ratios(Euler::new(l63(), R(0.02))) {
        assert!(r > 1.8 && r < 2.4, "{}", r);
    }
}

#[test]
fn convergence_order_heun() {
    for r in convergence_ratios(Heun::new(l63(), R(0.02))) {
        assert!(r > 3.6 && r < 4.5, "{}", r);
    }
}

#[test]
fn convergence_order_rk4() {
    for r in convergence_ratios(RK4::new(l63(), R(0.02))) {
        assert!(r > 14.0 && r < 18.0, "{}", r);
    }
}

#[test]
fn trajectory_stays_on_attractor() {
    let mut teo = RK4::new(l63(), R(0.01));
    let mut x = v(&[1.0, 0.0, 0.0]);
    for _ in 0..10000 {
        teo.iterate(&mut x);
        assert!(x[0].0.abs() < 40.0 && x[1].0.abs() < 40.0);
        assert!(x[2].0 > 0.0 && x[2].0 < 60.0);
    }
}

#[test]
fn lorenz63_exponents() {
    let l = lyapunov_exponents(RK4::new(l63(), R(0.01)), v(&[1.0, 0.0, 0.0]), 0.01, 100000);
    assert!((l[0] - 0.906).abs() < 1e-2, "{:?}", l);
    assert!(l[1].abs() < 1e-2, "{:?}", l);
    assert!((l[2] + 14.572).abs() < 1e-2, "{:?}", l);
}

#[test]
fn lorenz63_exponents_sum_to_divergence() {
    let l = lyapunov_exponents(RK4::new(l63(), R(0.01)), v(&[1.0, 0.0, 0.0]), 0.01, 100000);
    let divergence = -(10.0 + 1.0 + 8.0 / 3.0);
    assert!((l.iter().sum::<f64>() - divergence).abs() < 1e-2, "{:?}", l);
}

#[test]
fn basis_stays_orthonormal() {
    let mut series = Series::new(RK4::new(l63(), R(0.01)), v(&[1.0, 0.0, 0.0]), R(1e-7));
    for _ in 0..2000 {
        let w = series.tangent().unwrap();
        let (q, _r) = qr(&w);
        for i in 0..3 {
            for j in 0..3 {
                let d: f64 = (0..3).map(|k| q[i][k].0 * q[j][k].0).sum();
                let e = if i == j { 1.0 } else { 0.0 };
                assert!((d - e).abs() < 1e-12);
            }
        }
        series.advance(q).unwrap();
    }
}

#[test]
fn tangent_map_is_linear_on_the_attractor() {
    let mut teo = RK4::new(l63(), R(0.01));
    let x0 = iterate(&mut teo, v(&[1.0, 0.0, 0.0]), 1000);
    let mut j = teo.lin_approx(x0, R(1e-7));
    let mut rng = Lcg(7);
    let a = rng.vec(3);
    let b = rng.vec(3);
    let ab: Vec<R> = a.iter().zip(&b).map(|(x, y)| R(x.0 + y.0)).collect();
    let j_z = j.apply(ab);
    let ja = j.apply(a);
    let jb = j.apply(b);
    let sum: Vec<R> = ja.iter().zip(&jb).map(|(x, y)| R(x.0 + y.0)).collect();
    assert!(dist(&sum, &j_z) < 1e-5);
}

#[test]
fn tangent_map_of_a_zero_direction_is_zero() {
    let mut teo = RK4::new(l63(), R(0.01));
    let mut j = teo.lin_approx(v(&[1.0, 0.0, 0.0]), R(1e-7));
    let image = j.apply(v(&[0.0, 0.0, 0.0]));
    assert_eq!(image, v(&[0.0, 0.0, 0.0]));
}

#[test]
fn series_starts_from_the_identity() {
    let mut series = Series::new(Euler::new(l63(), R(0.01)), v(&[1.0, 2.0, 3.0]), R(1e-7));
    let w = series.tangent().unwrap();
    // the Euler tangent map at x is I + dt·Df(x)
    let expected = [[1.0 - 0.1, 0.01 * (28.0 - 3.0), 0.01 * 2.0], [0.1, 1.0 - 0.01, 0.01 * 1.0], [0.0, -0.01, 1.0 - 0.01 * 8.0 / 3.0]];
    for j in 0..3 {
        assert!(dist(&w[j], &v(&expected[j])) < 1e-6, "{:?}", w);
    }
    assert_eq!(series.point(), v(&[1.0, 2.0, 3.0]));
}

#[test]
fn series_refuses_a_basis_of_the_wrong_shape() {
    let mut series = Series::new(RK4::new(l63(), R(0.01)), v(&[1.0, 0.0, 0.0]), R(1e-7));
    let two_columns = vec![v(&[1.0, 0.0, 0.0]), v(&[0.0, 1.0, 0.0])];
    assert_eq!(series.advance(two_columns), Err(LyapunovError::Shape));
    let short_column = vec![v(&[1.0, 0.0, 0.0]), v(&[0.0, 1.0]), v(&[0.0, 0.0, 1.0])];
    assert_eq!(series.advance(short_column), Err(LyapunovError::Shape));
    assert_eq!(series.point(), v(&[1.0, 0.0, 0.0]));
    let x = series.advance(vec![v(&[1.0, 0.0, 0.0]), v(&[0.0, 1.0, 0.0]), v(&[0.0, 0.0, 1.0])]).unwrap();
    let mut teo = RK4::new(l63(), R(0.01));
    assert_eq!(x, iterate(&mut teo, v(&[1.0, 0.0, 0.0]), 1));
}

#[test]
fn exponents_skip_transient_and_average() {
    // duration 10: one transient factor, then ten averaged ones
    let mut ex = Exponents::new(1, R(0.5), 10);
    for k in 0..13 {
        assert_eq!(ex.is_complete(), k >= 11);
        ex.push(&vec![v(&[-(k as f64).exp()])]);
    }
    // (1 + 2 + ... + 10) / (10 · 0.5)
    let value = ex.value();
    assert!((value[0].0 - 11.0).abs() < 1e-12, "{:?}", value);
}

#[test]
fn exponents_before_the_window_are_zero() {
    let mut ex = Exponents::new(2, R(0.1), 20);
    ex.push(&vec![v(&[5.0, 0.0]), v(&[1.0, 3.0])]);
    assert_eq!(ex.value(), v(&[0.0, 0.0]));
    assert!(!ex.is_complete());
}

#[test]
fn diagonal_solves_linear_decay() {
    let mut d = Diagonal::new(v(&[-1.0, -2.0]), R(0.5));
    assert_eq!(d.model_size(), 2);
    let mut x = v(&[1.0, 3.0]);
    d.iterate(&mut x);
    assert!(dist(&x, &v(&[(-0.5f64).exp(), 3.0 * (-1.0f64).exp()])) < 1e-15);
    assert_eq!(d.set_dt(R(1.0)), Ok(()));
    assert_eq!(d.get_dt(), R(1.0));
    let mut y = v(&[1.0, 1.0]);
    d.iterate(&mut y);
    assert!(dist(&y, &v(&[(-1.0f64).exp(), (-2.0f64).exp()])) < 1e-15);
    let from_model = diagonal(&l63(), R(1.0));
    let mut z = v(&[1.0, 1.0, 1.0]);
    let mut from_model = from_model;
    from_model.iterate(&mut z);
    assert!(dist(&z, &v(&[(-10.0f64).exp(), (-1.0f64).exp(), (-8.0f64 / 3.0).exp()])) < 1e-15);
}

#[test]
fn semi_implicit_agrees_with_rk4() {
    let mut a = RK4::new(l63(), R(0.001));
    let mut b = DiagRK4::new(l63(), R(0.001));
    let x = iterate(&mut a, v(&[1.0, 0.0, 0.0]), 1000);
    let y = iterate(&mut b, v(&[1.0, 0.0, 0.0]), 1000);
    assert!(dist(&x, &y) < 1e-6, "{:?} {:?}", x, y);
}

#[test]
fn semi_implicit_order() {
    let ratios = convergence_ratios(DiagRK4::new(l63(), R(0.02)));
    for r in ratios {
        assert!(r > 12.0 && r < 20.0, "{}", r);
    }
}

#[test]
fn lorenz63_parts() {
    let mut m = l63();
    let mut x = v(&[1.0, 2.0, 3.0]);
    m.rhs(&mut x);
    assert_eq!(x, v(&[10.0, 23.0, 2.0 - 8.0]));
    let mut y = v(&[1.0, 2.0, 3.0]);
    m.nlin(&mut y);
    assert_eq!(y, v(&[20.0, 25.0, 2.0]));
    assert_eq!(m.diag(), v(&[-10.0, -1.0, -8.0 / 3.0]));
    assert_eq!(m.model_size(), 3);
}

#[test]
fn roessler_rhs() {
    let mut m = Roessler::new(R(0.2), R(0.2), R(5.7));
    let mut x = v(&[1.0, 2.0, 3.0]);
    m.rhs(&mut x);
    assert!(dist(&x, &v(&[-5.0, 1.4, 0.2 + 3.0 - 17.1])) < 1e-14);
}

#[test]
fn lorenz96_rhs() {
    let mut m = Lorenz96::new(R(8.0), 5);
    let mut x = v(&[1.0, 2.0, 3.0, 4.0, 5.0]);
    m.rhs(&mut x);
    // (x[i+1] - x[i-2])·x[i-1] - x[i] + 8
    let expected = [(2.0 - 4.0) * 5.0 - 1.0 + 8.0, (3.0 - 5.0) * 1.0 - 2.0 + 8.0, (4.0 - 1.0) * 2.0 - 3.0 + 8.0, (5.0 - 2.0) * 3.0 - 4.0 + 8.0, (1.0 - 3.0) * 4.0 - 5.0 + 8.0];
    assert_eq!(x, v(&expected));
    assert_eq!(m.model_size(), 5);
}

#[test]
fn forward_window_sizes() {
    assert_eq!(transient_steps(100000), 10000);
    assert_eq!(forward_steps(100000), Some(110000));
    assert_eq!(forward_steps(usize::MAX), None);
}

#[test]
fn retain_central_drops_the_latest_margin() {
    let rev = vec![9, 8, 7, 6, 5, 4];
    assert_eq!(retain_central(rev, 2), vec![4, 5, 6, 7]);
    assert_eq!(retain_central(vec![1, 2], 5), Vec::<i32>::new());
}

#[test]
fn clv_backward_step_normalizes() {
    let mut clv: Clv<R> = Clv::new(2);
    assert_eq!(clv.coefficients(), vec![v(&[1.0, 0.0]), v(&[0.0, 1.0])]);
    let q = vec![v(&[0.0, 1.0]), v(&[1.0, 0.0])];
    let solved = vec![v(&[2.0, 0.0]), v(&[3.0, 4.0])];
    let (vs, f) = clv.step(&q, &solved).unwrap();
    assert_eq!(f, v(&[0.5, 0.2]));
    assert_eq!(clv.coefficients(), vec![v(&[1.0, 0.0]), v(&[0.6, 0.8])]);
    assert_eq!(vs, vec![v(&[0.0, 1.0]), v(&[0.8, 0.6])]);
    assert_eq!(clv.step(&q, &vec![v(&[1.0])]), Err(LyapunovError::Shape));
    assert_eq!(clv.coefficients(), vec![v(&[1.0, 0.0]), v(&[0.6, 0.8])]);
}

#[test]
fn clv_consistency() {
    let steps = covariant_vectors(20000);
    assert_eq!(steps.len(), 20000);
    for s in &steps {
        // R times the new coefficients is the old coefficients, column j stretched by f_j
        for j in 0..3 {
            for i in 0..3 {
                let rc: f64 = (0..3).map(|k| s.r[k][i].0 * s.c_after[j][k].0).sum();
                assert!((rc - s.c_before[j][i].0 * s.f[j].0).abs() < 1e-9);
            }
            let nrm: f64 = s.v[j].iter().map(|x| x.0 * x.0).sum::<f64>().sqrt();
            assert!((nrm - 1.0).abs() < 1e-9);
        }
    }
    let mean: Vec<f64> = (0..3).map(|j| steps.iter().map(|s| s.f[j].0.ln()).sum::<f64>() / (0.01 * 20000.0)).collect();
    assert!((mean[0] - 0.906).abs() < 0.2 && (mean[2] + 14.572).abs() < 0.2, "{:?}", mean);
}

#[test]
fn series_reports_non_finite_tangents() {
    let mut series = Series::new(RK4::new(l63(), R(0.01)), v(&[1.0, 0.0, 0.0]), R(0.0));
    assert_eq!(series.tangent(), Err(LyapunovError::NonFinite));
    assert_eq!(series.point(), v(&[1.0, 0.0, 0.0]));
}

#[test]
fn canonical_qr_makes_the_diagonal_positive() {
    // W = Q·R with R_11 < 0 and R_22 > 0
    let mut q = vec![v(&[0.6, 0.8]), v(&[-0.8, 0.6])];
    let mut r = vec![v(&[-5.0, 0.0]), v(&[2.0, 3.0])];
    canonical_qr(&mut q, &mut r, 2);
    assert_eq!(q, vec![v(&[-0.6, -0.8]), v(&[-0.8, 0.6])]);
    assert_eq!(r, vec![v(&[5.0, 0.0]), v(&[-2.0, 3.0])]);
}

#[test]
fn accuracy_halves_the_step() {
    let study = accuracy(Euler::new(l63(), R(0.1)), v(&[1.0, 0.0, 0.0]), R(0.01), 10, 3).unwrap();
    assert_eq!(study.len(), 2);
    assert_eq!(study[0].0, R(0.01));
    assert_eq!(study[1].0, R(0.005));
    let end = |dt: f64, n: usize| {
        let mut teo = Euler::new(l63(), R(dt));
        iterate(&mut teo, v(&[1.0, 0.0, 0.0]), n)
    };
    assert_eq!(study[0].1, R(dist(&end(0.005, 20), &end(0.01, 10))));
    assert_eq!(study[1].1, R(dist(&end(0.0025, 40), &end(0.005, 20))));
}

#[test]
fn accuracy_errors() {
    let too_many = accuracy(RK4::new(l63(), R(0.01)), v(&[1.0, 0.0, 0.0]), R(0.01), usize::MAX / 2 + 1, 2);
    assert_eq!(too_many, Err(AccuracyError::TooManySteps));
    let refused = accuracy(RK4::new(l63(), R(0.01)), v(&[1.0, 0.0, 0.0]), R(0.0), 10, 2);
    assert_eq!(refused, Err(AccuracyError::StepRefused));
    assert_eq!(accuracy(RK4::new(l63(), R(0.01)), v(&[1.0, 0.0, 0.0]), R(0.01), 10, 1), Ok(vec![]));
}

#[test]
fn forward_window_keeps_the_middle() {
    // duration 20: two transient steps, then 22 kept
    let mut window = ForwardWindow::new(20).unwrap();
    let mut k = 0;
    while !window.is_complete() {
        window.push(k);
        k += 1;
    }
    assert_eq!(k, 24);
    window.push(99);
    let mut taken = Vec::new();
    while let Some(s) = window.take_latest() {
        taken.push(s);
    }
    assert_eq!(taken, (2..24).rev().collect::<Vec<i32>>());
    assert!(ForwardWindow::<i32>::new(usize::MAX).is_none());
}

#[test]
fn set_dt_keeps_the_model() {
    let mut teo = RK4::new(l63(), R(0.01));
    teo.set_dt(R(0.02)).unwrap();
    assert_eq!(teo.model().p, R(10.0));
    assert_eq!(teo.model().b, R(8.0 / 3.0));
    assert_eq!(teo.model_size(), 3);
}

#[test]
fn tangent_map_leaves_the_scheme_alone() {
    let mut teo = RK4::new(l63(), R(0.01));
    {
        let mut j = teo.lin_approx(v(&[1.0, 0.0, 0.0]), R(1e-7));
        let cols = j.apply_multi(vec![v(&[1.0, 0.0, 0.0]), v(&[0.0, 1.0, 0.0])]);
        assert_eq!(cols[0].len(), 3);
        assert_eq!(cols[1].len(), 3);
    }
    assert_eq!(teo.get_dt(), R(0.01));
    let mut fresh = RK4::new(l63(), R(0.01));
    assert_eq!(iterate(&mut teo, v(&[1.0, 2.0, 3.0]), 10), iterate(&mut fresh, v(&[1.0, 2.0, 3.0]), 10));
}
