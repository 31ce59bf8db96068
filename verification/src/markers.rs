//! The markers of the P-square estimator, as mathematics: what each step of
//! the estimator does to them.
use crate::ieee::{bits_of, is_nan, key_of, MINUS_ONE, ONE};
use crate::order::sorted_of;
use crate::quantile::{Direction, Drift};
use vstd::prelude::*;

verus! {

/// The markers, as mathematics.
pub ghost struct Markers {
    /// The heights as order keys: up to five while filling, five after.
    pub heights: Seq<i64>,
    /// The positions of the five markers.
    pub positions: Seq<u64>,
    /// Whether the sixth observation has been seen.
    pub tracking: bool,
}

/// The positions before any marker has shifted.
pub open spec fn initial_positions() -> Seq<u64> {
    seq![1u64, 2u64, 3u64, 4u64, 5u64]
}

/// Whether each position is below the next.
pub open spec fn increasing(positions: Seq<u64>) -> bool {
    forall|i: int, j: int| 0 <= i < j < positions.len() ==> positions[i] < positions[j]
}

/// The step that a direction stands for.
pub open spec fn step_of(direction: Direction) -> int {
    match direction {
        Direction::Down => -1,
        Direction::Up => 1,
    }
}

/// Whether `x` lies in cell `i`: at or above the height of marker `i - 1`
/// and below that of marker `i`.
pub open spec fn in_cell(heights: Seq<i64>, x: i64, i: int) -> bool {
    heights[i - 1] <= x < heights[i]
}

/// Whether `x` lies in one of the four cells.
pub open spec fn has_cell(heights: Seq<i64>, x: i64) -> bool {
    ||| in_cell(heights, x, 1)
    ||| in_cell(heights, x, 2)
    ||| in_cell(heights, x, 3)
    ||| in_cell(heights, x, 4)
}

/// The cell that an observation is counted in: the first cell that it lies
/// in; cell 1 where it is below every marker; cell 4 where it lies in none.
pub open spec fn cell_of(heights: Seq<i64>, x: i64) -> int {
    if x < heights[0] {
        1
    } else if in_cell(heights, x, 1) {
        1
    } else if in_cell(heights, x, 2) {
        2
    } else if in_cell(heights, x, 3) {
        3
    } else {
        4
    }
}

/// The heights once the outer markers have made room for `x`: the lowest
/// marker comes down to an observation below it, and the highest goes up to
/// one that lies in no cell and above it.
pub open spec fn clamped(heights: Seq<i64>, x: i64) -> Seq<i64> {
    if x < heights[0] {
        heights.update(0, x)
    } else if !has_cell(heights, x) && heights[4] < x {
        heights.update(4, x)
    } else {
        heights
    }
}

/// The positions once every marker from `k` on has shifted by one.
pub open spec fn shifted(positions: Seq<u64>, k: int) -> Seq<u64> {
    Seq::new(
        5,
        |i: int|
            if i >= k {
                (positions[i] + 1) as u64
            } else {
                positions[i]
            },
    )
}

/// Whether the markers can count no further observation: there are five
/// heights, and the last position is the largest number that it can hold.
pub open spec fn exhausted(m: Markers) -> bool {
    m.heights.len() == 5 && m.positions[4] == u64::MAX
}

/// Whether the next observation is counted in a cell: there are five
/// heights, and room for the positions to grow.
pub open spec fn counting(m: Markers) -> bool {
    m.heights.len() == 5 && m.positions[4] < u64::MAX
}

/// The markers after an observation with key `x`. The first five are
/// stored in ascending order. From the sixth on, the outer markers make
/// room and the markers from the observation's cell on shift.
pub open spec fn observed(m: Markers, x: i64) -> Markers {
    if m.heights.len() != 5 {
        Markers { heights: sorted_of(m.heights.push(x)), positions: m.positions, tracking: m.tracking }
    } else {
        Markers {
            heights: clamped(m.heights, x),
            positions: shifted(m.positions, cell_of(m.heights, x)),
            tracking: true,
        }
    }
}

/// Whether marker `i` moves, and which way: towards its desired position,
/// where that is at least one away and the next marker on that side is more
/// than one away.
pub open spec fn planned(positions: Seq<u64>, i: int, drift: Drift) -> Option<Direction> {
    match drift {
        Drift::Ahead => if positions[i + 1] - positions[i] > 1 {
            Some(Direction::Up)
        } else {
            None
        },
        Drift::Behind => if positions[i - 1] - positions[i] < -1 {
            Some(Direction::Down)
        } else {
            None
        },
        Drift::Steady => None,
    }
}

/// Whether the parabolic candidate is taken: it is a number strictly
/// between the heights of the two markers beside marker `i`.
pub open spec fn accepted(heights: Seq<i64>, i: int, parabolic: u64) -> bool {
    !is_nan(parabolic) && heights[i - 1] < key_of(parabolic) < heights[i + 1]
}

/// The markers once marker `i` has moved one position with a new height.
pub open spec fn moved(m: Markers, i: int, direction: Direction, height: i64) -> Markers {
    Markers {
        heights: m.heights.update(i, height),
        positions: m.positions.update(i, (m.positions[i] + step_of(direction)) as u64),
        tracking: m.tracking,
    }
}

/// Whether the adjustment of marker `i` cannot be made: the marker is to
/// move, the parabolic candidate is not taken, and the linear one is a NaN.
pub open spec fn refused(m: Markers, i: int, drift: Drift, parabolic: u64, linear: u64) -> bool {
    planned(m.positions, i, drift) is Some && !accepted(m.heights, i, parabolic) && is_nan(linear)
}

/// The markers after the adjustment of marker `i`. Where it is to move, it
/// takes the parabolic candidate if that keeps the heights strictly in
/// order, and the linear candidate otherwise.
pub open spec fn adjusted(m: Markers, i: int, drift: Drift, parabolic: u64, linear: u64) -> Markers {
    match planned(m.positions, i, drift) {
        None => m,
        Some(direction) => if accepted(m.heights, i, parabolic) {
            moved(m, i, direction, key_of(parabolic) as i64)
        } else if !is_nan(linear) {
            moved(m, i, direction, key_of(linear) as i64)
        } else {
            m
        },
    }
}

/// The markers with their heights put back in ascending order.
pub open spec fn settled(m: Markers) -> Markers {
    Markers { heights: sorted_of(m.heights), positions: m.positions, tracking: m.tracking }
}

/// The marker beside marker `i` in the given direction.
pub open spec fn neighbour_of(i: int, direction: Direction) -> int {
    i + step_of(direction)
}

/// The drift that a distance `d` between a desired position and a position
/// stands for.
pub open spec fn drift_of(d: u64) -> Drift {
    if !is_nan(d) && key_of(d) >= key_of(ONE) {
        Drift::Ahead
    } else if !is_nan(d) && key_of(d) <= key_of(MINUS_ONE) {
        Drift::Behind
    } else {
        Drift::Steady
    }
}

/// What the arithmetic answers for one marker: its drift and the two
/// candidate heights.
pub ghost struct Answer {
    pub drift: Drift,
    pub parabolic: u64,
    pub linear: u64,
}

/// One update of the estimator: the key of the observation, and the
/// answers for the markers 1, 2 and 3.
pub ghost struct Update {
    pub key: i64,
    pub answers: Seq<Answer>,
}

/// The markers after the adjustment of marker `i` with the answer `a`.
pub open spec fn answered(m: Markers, i: int, a: Answer) -> Markers {
    adjusted(m, i, a.drift, a.parabolic, a.linear)
}

/// The markers after the adjustment of the markers 1, 2 and 3, in turn.
pub open spec fn adjusted_all(m: Markers, answers: Seq<Answer>) -> Markers {
    answered(answered(answered(m, 1, answers[0]), 2, answers[1]), 3, answers[2])
}

/// Whether one of the three adjustments cannot be made.
pub open spec fn refused_any(m: Markers, answers: Seq<Answer>) -> bool {
    let m1 = answered(m, 1, answers[0]);
    let m2 = answered(m1, 2, answers[1]);
    ||| refused(m, 1, answers[0].drift, answers[0].parabolic, answers[0].linear)
    ||| refused(m1, 2, answers[1].drift, answers[1].parabolic, answers[1].linear)
    ||| refused(m2, 3, answers[2].drift, answers[2].parabolic, answers[2].linear)
}

/// The markers after the adjustment of the markers 1, 2 and 3, in turn, up
/// to the first adjustment that cannot be made.
pub open spec fn adjusted_until_refused(m: Markers, answers: Seq<Answer>) -> Markers {
    let m1 = answered(m, 1, answers[0]);
    let m2 = answered(m1, 2, answers[1]);
    if refused(m, 1, answers[0].drift, answers[0].parabolic, answers[0].linear) {
        m
    } else if refused(m1, 2, answers[1].drift, answers[1].parabolic, answers[1].linear) {
        m1
    } else if refused(m2, 3, answers[2].drift, answers[2].parabolic, answers[2].linear) {
        m2
    } else {
        answered(m2, 3, answers[2])
    }
}

/// The markers after one whole update. An observation among the first five
/// is stored. A later one is counted, the three inner markers are adjusted
/// in turn, and the heights are settled.
pub open spec fn updated(m: Markers, u: Update) -> Markers {
    if m.heights.len() != 5 {
        observed(m, u.key)
    } else {
        settled(adjusted_all(observed(m, u.key), u.answers))
    }
}

/// The markers of a new estimator.
pub open spec fn fresh() -> Markers {
    Markers { heights: Seq::empty(), positions: initial_positions(), tracking: false }
}

/// The estimate that markers give for a rank. Once tracking it is the
/// height of the middle marker. Before that it is the height at rank
/// `scaled`, or the largest height where there is no such rank. There is no
/// estimate before the first observation.
pub open spec fn estimate(m: Markers, scaled: int) -> Option<u64> {
    if m.tracking {
        Some(bits_of(m.heights[2] as int))
    } else if m.heights.len() == 0 {
        None
    } else if scaled < m.heights.len() - 1 {
        Some(bits_of(m.heights[scaled] as int))
    } else {
        Some(bits_of(m.heights.last() as int))
    }
}

} // verus!
