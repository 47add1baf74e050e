//! The function a layer applies to each of its sums, and its derivative.

use vstd::prelude::*;
use crate::scalar::Scalar;

verus! {

/// A pair of pure functions on numbers.
///
/// `derivative` is applied to values that `function` returned: it gives the
/// slope of `function` at a point, written in terms of the value of
/// `function` at that point.
pub trait Activation<T: Scalar> {
    /// What `function` returns.
    spec fn function_spec(&self, x: T) -> T;

    /// What `derivative` returns.
    spec fn derivative_spec(&self, y: T) -> T;

    /// The value of the function at `x`.
    fn function(&self, x: T) -> (y: T)
        ensures
            y == self.function_spec(x),
    ;

    /// The slope of the function at the point where its value is `y`.
    fn derivative(&self, y: T) -> (d: T)
        ensures
            d == self.derivative_spec(y),
    ;
}

/// The activation that leaves every value as it is; its slope is one
/// everywhere.
#[derive(Clone, Copy, Debug)]
pub struct Identity;

impl Activation<i64> for Identity {
    open spec fn function_spec(&self, x: i64) -> i64 {
        x
    }

    open spec fn derivative_spec(&self, y: i64) -> i64 {
        1i64
    }

    fn function(&self, x: i64) -> (y: i64) {
        x
    }

    fn derivative(&self, y: i64) -> (d: i64) {
        1i64
    }
}

} // verus!
