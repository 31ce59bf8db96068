//! Running and rolling univariate statistics over a stream of doubles, with
//! the bookkeeping of each estimator proved: the sorted sliding window, the
//! markers of the P-square quantile estimator, and the decorator that turns a
//! revertible statistic into a windowed one.
pub mod arithmetic;
pub mod ieee;
pub mod order;
pub mod stream;
pub mod sorted_window;
mod convert;
pub mod formulas;
pub mod markers;
pub mod quantile;
pub mod bounds;
pub mod stats;
pub mod rolling;
pub mod minimum;
pub mod maximum;
pub mod ptp;
