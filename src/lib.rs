//! Fixed-step integration of autonomous ODEs `dx/dt = f(x)` and Lyapunov analysis of their
//! trajectories: explicit and exponential Runge-Kutta schemes, finite-difference tangent maps,
//! Lyapunov exponents by successive QR decompositions, and covariant Lyapunov vectors.
pub mod scalar;
pub mod vector;
pub mod traits;
pub mod explicit;
pub mod semi_implicit;
pub mod ode;
pub mod lyapunov;
pub mod adaptor;
