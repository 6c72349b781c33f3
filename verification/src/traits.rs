//! Epsilon-tolerant comparison.
//!
//! Every quantity in the tracer is a truncated fixed-point number, so tests
//! and callers compare values up to a small tolerance instead of exactly.

use vstd::prelude::*;

use crate::fixed::{almost_eq_s, almost_equal_with_epsilon, EPSILON};

verus! {

/// Comparison up to the default tolerance [`EPSILON`].
pub trait AlmostEqual: Sized {
    /// What the comparison means, stated over the mathematical model.
    spec fn almost_eq_spec(&self, other: &Self) -> bool;

    /// Executable comparison.
    fn almost_equal(&self, other: &Self) -> (r: bool)
        ensures
            r == self.almost_eq_spec(other),
    ;
}

impl AlmostEqual for i64 {
    open spec fn almost_eq_spec(&self, other: &Self) -> bool {
        almost_eq_s(*self as int, *other as int, EPSILON as int)
    }

    fn almost_equal(&self, other: &Self) -> (r: bool) {
        almost_equal_with_epsilon(*self, *other, EPSILON)
    }
}

impl<T: AlmostEqual> AlmostEqual for Option<T> {
    open spec fn almost_eq_spec(&self, other: &Self) -> bool {
        match *self {
            Option::None => match *other {
                Option::None => true,
                Option::Some(_) => false,
            },
            Option::Some(ref v1) => match *other {
                Option::None => false,
                Option::Some(ref v2) => v1.almost_eq_spec(v2),
            },
        }
    }

    fn almost_equal(&self, other: &Self) -> (r: bool) {
        match self {
            Option::None => match other {
                Option::None => true,
                Option::Some(_) => false,
            },
            Option::Some(v1) => match other {
                Option::None => false,
                Option::Some(v2) => v1.almost_equal(v2),
            },
        }
    }
}

} // verus!
