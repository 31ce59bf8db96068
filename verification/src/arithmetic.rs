//! The floating-point side of the estimators.
//!
//! The library holds every double as its bit pattern and proves what it
//! decides by comparing them. It does not compute with them: sums,
//! products and the like are asked of an implementation of `Arithmetic`,
//! which the caller supplies.
//!
//! Every estimator is safe, and keeps its invariant, with any
//! implementation. What it computes is stated for an implementation that
//! is exact: one whose every operation gives the result that the
//! specification function beside it names. An implementation says so by
//! defining `exact` and those functions. One that defines none claims
//! nothing, and nothing is concluded about it.
use vstd::prelude::*;

verus! {

/// Arithmetic on doubles given as bit patterns.
pub trait Arithmetic {
    /// Whether each operation gives what the function beside it names.
    open spec fn exact(&self) -> bool {
        false
    }

    /// The result of `sum`.
    open spec fn sum_of(a: u64, b: u64) -> u64 {
        arbitrary()
    }

    /// The result of `difference`.
    open spec fn difference_of(a: u64, b: u64) -> u64 {
        arbitrary()
    }

    /// The result of `product`.
    open spec fn product_of(a: u64, b: u64) -> u64 {
        arbitrary()
    }

    /// The result of `quotient`.
    open spec fn quotient_of(a: u64, b: u64) -> u64 {
        arbitrary()
    }

    /// The result of `floor`.
    open spec fn floor_of(a: u64) -> u64 {
        arbitrary()
    }

    /// The result of `from_u64`.
    open spec fn of_u64(n: u64) -> u64 {
        arbitrary()
    }

    /// The result of `from_usize`.
    open spec fn of_usize(n: usize) -> u64 {
        arbitrary()
    }

    /// The result of `to_usize`.
    open spec fn usize_of(a: u64) -> Option<usize> {
        arbitrary()
    }

    /// `a + b`.
    fn sum(&self, a: u64, b: u64) -> (r: u64)
        ensures
            self.exact() ==> r == Self::sum_of(a, b),
    ;

    /// `a - b`.
    fn difference(&self, a: u64, b: u64) -> (r: u64)
        ensures
            self.exact() ==> r == Self::difference_of(a, b),
    ;

    /// `a * b`.
    fn product(&self, a: u64, b: u64) -> (r: u64)
        ensures
            self.exact() ==> r == Self::product_of(a, b),
    ;

    /// `a / b`.
    fn quotient(&self, a: u64, b: u64) -> (r: u64)
        ensures
            self.exact() ==> r == Self::quotient_of(a, b),
    ;

    /// The largest whole number that is not above `a`.
    fn floor(&self, a: u64) -> (r: u64)
        ensures
            self.exact() ==> r == Self::floor_of(a),
    ;

    /// The double nearest to `n`.
    fn from_u64(&self, n: u64) -> (r: u64)
        ensures
            self.exact() ==> r == Self::of_u64(n),
    ;

    /// The double nearest to `n`.
    fn from_usize(&self, n: usize) -> (r: u64)
        ensures
            self.exact() ==> r == Self::of_usize(n),
    ;

    /// The whole part of `a`, or `None` where a `usize` cannot hold it.
    fn to_usize(&self, a: u64) -> (r: Option<usize>)
        ensures
            self.exact() ==> r == Self::usize_of(a),
    ;
}

} // verus!
