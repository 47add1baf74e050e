//! The numbers a matrix holds.

use vstd::prelude::*;

verus! {

/// A number type: a zero and three binary operations.
///
/// Each operation is a function of its operands alone, named by the matching
/// `*_spec` function; contracts elsewhere are stated over those names, in the
/// order in which the operations are applied. No algebraic law is asked for
/// except that multiplication commutes.
pub trait Scalar: Copy + Sized {
    /// The value every accumulation starts from.
    spec fn zero_spec() -> Self;

    /// What `plus` returns.
    spec fn plus_spec(self, rhs: Self) -> Self;

    /// What `minus` returns.
    spec fn minus_spec(self, rhs: Self) -> Self;

    /// What `times` returns.
    spec fn times_spec(self, rhs: Self) -> Self;

    /// Zero.
    fn zero() -> (r: Self)
        ensures
            r == Self::zero_spec(),
    ;

    /// `self + rhs`.
    fn plus(self, rhs: Self) -> (r: Self)
        ensures
            r == self.plus_spec(rhs),
    ;

    /// `self - rhs`.
    fn minus(self, rhs: Self) -> (r: Self)
        ensures
            r == self.minus_spec(rhs),
    ;

    /// `self * rhs`.
    fn times(self, rhs: Self) -> (r: Self)
        ensures
            r == self.times_spec(rhs),
    ;

    /// Multiplication does not depend on the order of its operands.
    proof fn times_commutes(a: Self, b: Self)
        ensures
            a.times_spec(b) == b.times_spec(a),
    ;
}

/// Machine integers with wrap-around arithmetic: exact modulo 2^64.
impl Scalar for i64 {
    open spec fn zero_spec() -> i64 {
        0i64
    }

    open spec fn plus_spec(self, rhs: i64) -> i64 {
        vstd::wrapping::i64_specs::wrapping_add(self, rhs)
    }

    open spec fn minus_spec(self, rhs: i64) -> i64 {
        vstd::wrapping::i64_specs::wrapping_sub(self, rhs)
    }

    open spec fn times_spec(self, rhs: i64) -> i64 {
        vstd::wrapping::i64_specs::wrapping_mul(self, rhs)
    }

    fn zero() -> (r: i64) {
        0i64
    }

    fn plus(self, rhs: i64) -> (r: i64) {
        self.wrapping_add(rhs)
    }

    fn minus(self, rhs: i64) -> (r: i64) {
        self.wrapping_sub(rhs)
    }

    fn times(self, rhs: i64) -> (r: i64) {
        self.wrapping_mul(rhs)
    }

    proof fn times_commutes(a: i64, b: i64) {
    }
}

} // verus!
