//! The numeric policy: the operations that the schemes perform on state entries and on time.
//!
//! Each operation is described by a spec function of its arguments alone, and that is all its
//! contract says: the result depends on the arguments and on nothing else. Any deterministic
//! implementation meets it, by defining the spec function as the operation itself; the
//! double-precision types of the callers do so. The contracts of the schemes are stated over
//! these spec functions, so they fix the exact sequence of arithmetic operations that a step
//! performs, whatever the number type is, without claiming anything about rounding.
use vstd::prelude::*;

verus! {

/// The exponential function.
pub trait Exponential: Copy + Sized {
    /// The value that `exp` returns for `self`.
    spec fn spec_exp(self) -> Self;

    fn exp(self) -> (r: Self)
        ensures
            r == self.spec_exp(),
    ;
}

/// An entry of a state vector: a real or a complex number.
pub trait Scalar: Exponential {
    /// The type of time steps, magnitudes and scale factors.
    type Real: Real;

    spec fn spec_zero() -> Self;

    spec fn spec_one() -> Self;

    spec fn spec_add(self, o: Self) -> Self;

    spec fn spec_sub(self, o: Self) -> Self;

    spec fn spec_mul(self, o: Self) -> Self;

    spec fn spec_neg(self) -> Self;

    spec fn spec_mul_real(self, a: Self::Real) -> Self;

    spec fn spec_div_real(self, a: Self::Real) -> Self;

    spec fn spec_abs(self) -> Self::Real;

    spec fn spec_abs_sqr(self) -> Self::Real;

    spec fn spec_finite(self) -> bool;

    spec fn spec_conj(self) -> Self;

    spec fn spec_phase(self) -> Self;

    fn zero() -> (r: Self)
        ensures
            r == Self::spec_zero(),
    ;

    fn one() -> (r: Self)
        ensures
            r == Self::spec_one(),
    ;

    fn add(self, o: Self) -> (r: Self)
        ensures
            r == self.spec_add(o),
    ;

    fn sub(self, o: Self) -> (r: Self)
        ensures
            r == self.spec_sub(o),
    ;

    fn mul(self, o: Self) -> (r: Self)
        ensures
            r == self.spec_mul(o),
    ;

    fn neg(self) -> (r: Self)
        ensures
            r == self.spec_neg(),
    ;

    /// Multiplication by a real factor.
    fn mul_real(self, a: Self::Real) -> (r: Self)
        ensures
            r == self.spec_mul_real(a),
    ;

    /// Division by a real factor.
    fn div_real(self, a: Self::Real) -> (r: Self)
        ensures
            r == self.spec_div_real(a),
    ;

    /// The modulus.
    fn abs(self) -> (r: Self::Real)
        ensures
            r == self.spec_abs(),
    ;

    /// The squared modulus.
    fn abs_sqr(self) -> (r: Self::Real)
        ensures
            r == self.spec_abs_sqr(),
    ;

    /// The complex conjugate; a real number is its own conjugate.
    fn conj(self) -> (r: Self)
        ensures
            r == self.spec_conj(),
    ;

    /// The number of modulus one in the direction of `self` (the sign of a real number), and
    /// one for zero.
    fn phase(self) -> (r: Self)
        ensures
            r == self.spec_phase(),
    ;

    /// Whether the value is a finite number (neither infinite nor undefined).
    fn is_finite(self) -> (r: bool)
        ensures
            r == self.spec_finite(),
    ;
}

/// A real number: time steps, magnitudes, logarithms and averages.
pub trait Real: Copy + Sized {
    spec fn spec_plus(self, o: Self) -> Self;

    spec fn spec_times(self, o: Self) -> Self;

    spec fn spec_divide(self, o: Self) -> Self;

    spec fn spec_max(self, o: Self) -> Self;

    spec fn spec_sqrt(self) -> Self;

    spec fn spec_ln(self) -> Self;

    spec fn spec_from_usize(n: usize) -> Self;

    spec fn spec_positive(self) -> bool;

    fn plus(self, o: Self) -> (r: Self)
        ensures
            r == self.spec_plus(o),
    ;

    fn times(self, o: Self) -> (r: Self)
        ensures
            r == self.spec_times(o),
    ;

    fn divide(self, o: Self) -> (r: Self)
        ensures
            r == self.spec_divide(o),
    ;

    /// The larger of the two values.
    fn max(self, o: Self) -> (r: Self)
        ensures
            r == self.spec_max(o),
    ;

    fn sqrt(self) -> (r: Self)
        ensures
            r == self.spec_sqrt(),
    ;

    /// The natural logarithm.
    fn ln(self) -> (r: Self)
        ensures
            r == self.spec_ln(),
    ;

    /// The count `n` as a real number.
    fn from_usize(n: usize) -> (r: Self)
        ensures
            r == Self::spec_from_usize(n),
    ;

    /// Whether the value is greater than zero.
    fn is_positive(self) -> (r: bool)
        ensures
            r == self.spec_positive(),
    ;
}

} // verus!
