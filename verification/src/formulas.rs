//! What the estimators compute with the arithmetic, written over the
//! results that an exact arithmetic gives.
use crate::arithmetic::Arithmetic;
use crate::ieee::{bits_of, larger_of, smaller_of, FIVE, FOUR, MINUS_ONE, ONE, THREE, TWO, ZERO};
use crate::markers::{answered, drift_of, estimate, neighbour_of, planned, Answer, Markers};
use crate::quantile::Direction;
use vstd::prelude::*;

verus! {

/// What each marker's desired position grows by with every observation,
/// for the quantile `q`: `0`, `q / 2`, `q`, `(1 + q) / 2` and `1`.
pub open spec fn increments_of<A: Arithmetic>(q: u64) -> Seq<u64> {
    seq![
        ZERO,
        A::quotient_of(q, TWO),
        q,
        A::quotient_of(A::sum_of(ONE, q), TWO),
        ONE,
    ]
}

/// The desired position of each marker before the sixth observation, for
/// the quantile `q`: `1`, `1 + 2 * q`, `1 + 4 * q`, `3 + 2 * q` and `5`.
pub open spec fn targets_of<A: Arithmetic>(q: u64) -> Seq<u64> {
    seq![
        ONE,
        A::sum_of(ONE, A::product_of(TWO, q)),
        A::sum_of(ONE, A::product_of(FOUR, q)),
        A::sum_of(THREE, A::product_of(TWO, q)),
        FIVE,
    ]
}

/// The desired positions once each has grown by its increment.
pub open spec fn advanced<A: Arithmetic>(targets: Seq<u64>, increments: Seq<u64>) -> Seq<u64> {
    Seq::new(5, |i: int| A::sum_of(targets[i], increments[i]))
}

/// The step of a direction as a double: `1.0` up and `-1.0` down.
pub open spec fn pattern_of(direction: Direction) -> u64 {
    match direction {
        Direction::Up => ONE,
        Direction::Down => MINUS_ONE,
    }
}

/// The parabolic candidate for a marker of height `q` at position `n` that
/// moves by `d`, between markers of heights `qm1` and `qp1` at positions
/// `nm1` and `np1`:
/// `q + d / (np1 - nm1) * ((n - nm1 + d) * (qp1 - q) / (np1 - n)
/// + (np1 - n - d) * (q - qm1) / (n - nm1))`.
pub open spec fn parabolic_of<A: Arithmetic>(
    qp1: u64,
    q: u64,
    qm1: u64,
    d: u64,
    np1: u64,
    n: u64,
    nm1: u64,
) -> u64 {
    let outer = A::quotient_of(d, A::difference_of(np1, nm1));
    let inner_left = A::quotient_of(
        A::product_of(A::sum_of(A::difference_of(n, nm1), d), A::difference_of(qp1, q)),
        A::difference_of(np1, n),
    );
    let inner_right = A::quotient_of(
        A::product_of(A::difference_of(A::difference_of(np1, n), d), A::difference_of(q, qm1)),
        A::difference_of(n, nm1),
    );
    A::sum_of(q, A::product_of(outer, A::sum_of(inner_left, inner_right)))
}

/// The linear candidate for a marker of height `q` at position `n` that
/// moves by `d` towards a marker of height `beside` at position
/// `n_beside`: `q + d * (beside - q) / (n_beside - n)`.
pub open spec fn linear_of<A: Arithmetic>(q: u64, d: u64, beside: u64, n: u64, n_beside: u64) -> u64 {
    A::sum_of(
        q,
        A::quotient_of(A::product_of(d, A::difference_of(beside, q)), A::difference_of(n_beside, n)),
    )
}

/// The answer for marker `i`: its drift is told from the distance of its
/// position to its desired position and, where the marker is to move, the
/// two candidates are computed from the markers beside it.
pub open spec fn answer_of<A: Arithmetic>(m: Markers, targets: Seq<u64>, i: int) -> Answer {
    let n = A::of_u64(m.positions[i]);
    let drift = drift_of(A::difference_of(targets[i], n));
    match planned(m.positions, i, drift) {
        Some(direction) => {
            let d = pattern_of(direction);
            let q = bits_of(m.heights[i] as int);
            let beside = neighbour_of(i, direction);
            Answer {
                drift,
                parabolic: parabolic_of::<A>(
                    bits_of(m.heights[i + 1] as int),
                    q,
                    bits_of(m.heights[i - 1] as int),
                    d,
                    A::of_u64(m.positions[i + 1]),
                    n,
                    A::of_u64(m.positions[i - 1]),
                ),
                linear: linear_of::<A>(
                    q,
                    d,
                    bits_of(m.heights[beside] as int),
                    n,
                    A::of_u64(m.positions[beside]),
                ),
            }
        },
        None => Answer { drift, parabolic: ZERO, linear: ZERO },
    }
}

/// The answers for the markers 1, 2 and 3, each for the markers as the
/// adjustments before it have left them.
pub open spec fn answers_of<A: Arithmetic>(m: Markers, targets: Seq<u64>) -> Seq<Answer> {
    let a0 = answer_of::<A>(m, targets, 1);
    let m1 = answered(m, 1, a0);
    let a1 = answer_of::<A>(m1, targets, 2);
    let m2 = answered(m1, 2, a1);
    let a2 = answer_of::<A>(m2, targets, 3);
    seq![a0, a1, a2]
}

/// The rank that the estimate is read at while the estimator fills: the
/// whole part of `len * q`, or of `len - 1` where that is smaller.
pub open spec fn rank_of<A: Arithmetic>(len: usize, q: u64) -> Option<usize> {
    let length = A::of_usize(len);
    A::usize_of(
        smaller_of(larger_of(A::difference_of(length, ONE), ZERO), A::product_of(length, q)),
    )
}

/// The estimate of an estimator that fills: the height at that rank, where
/// the arithmetic gives one.
pub open spec fn estimate_by<A: Arithmetic>(m: Markers, q: u64) -> Option<u64> {
    match rank_of::<A>(m.heights.len() as usize, q) {
        Some(rank) => estimate(m, rank as int),
        None => None,
    }
}

/// The place of the quantile `q` among `len` ranked values, `q * (len - 1)`:
/// its whole part and the rest.
pub open spec fn place_of<A: Arithmetic>(q: u64, len: usize) -> Option<(usize, u64)> {
    let idx = A::product_of(q, A::difference_of(A::of_usize(len), ONE));
    match A::usize_of(A::floor_of(idx)) {
        Some(lower) => Some((lower, A::difference_of(idx, A::of_usize(lower)))),
        None => None,
    }
}

/// The value at the weight `frac` between `low` and `high`:
/// `low + (high - low) * frac`.
pub open spec fn interpolated<A: Arithmetic>(low: u64, high: u64, frac: u64) -> u64 {
    A::sum_of(low, A::product_of(A::difference_of(high, low), frac))
}

} // verus!
