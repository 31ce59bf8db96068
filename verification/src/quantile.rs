//! The P-square estimator of one quantile of a stream, and the quantile of
//! the last observations of a stream.
//!
//! The P-square estimator keeps five markers, each with a height (a value)
//! and a position (a rank among the observations seen), and for each
//! marker the position that it should have. Every decision about the
//! markers is made and proved here: where an observation falls, which
//! markers shift, whether a marker moves, and which of two candidate
//! heights it takes. The candidate heights and the desired positions are
//! floating-point expressions, evaluated by the `Arithmetic` handed in.
use crate::arithmetic::Arithmetic;
use crate::convert::{signed_index, unsigned_index};
use crate::ieee::{
    bits_of, from_key, is_fraction, is_fraction_bits, is_key, is_nan, key_of, larger, smaller,
    to_key, FIVE, FOUR, HALF, MINUS_ONE, ONE, THREE, TWO, ZERO,
};
use crate::formulas::{
    advanced, answer_of, answers_of, increments_of, interpolated, linear_of, parabolic_of,
    estimate_by, place_of, targets_of,
};
use crate::markers::{
    adjusted, adjusted_all, adjusted_until_refused, answered, cell_of, clamped, counting, drift_of, estimate, exhausted,
    fresh, in_cell,
    increasing, initial_positions, neighbour_of, observed, planned, refused,
    refused_any, settled, shifted, updated, Answer, Markers, Update,
};
use crate::order::{ascending, lemma_keys_stay_keys, lemma_sorted_of, sort_keys, sorted_of};
use crate::sorted_window::{
    all_numbers, consistent, keys, lemma_keys_of_patterns, patterns, SortedWindow, WindowError,
    WindowState,
};
use crate::stream::slide;
use vstd::prelude::*;

verus! {

/// Why the estimator refused.
#[derive(Clone, Copy, Debug, PartialEq, Eq, Structural)]
pub enum QuantileError {
    /// The quantile asked for is not a double between 0 and 1.
    OutOfRange,
    /// An observation, or a height to be stored, is a NaN.
    NotANumber,
    /// The positions have reached the largest number they can hold.
    Exhausted,
    /// The window is to hold no observation at all.
    ZeroWindow,
    /// The rank handed in is not the rank of a value in the window.
    RankOutOfRange,
    /// A state to restore is not the state of any estimator.
    Inconsistent,
}

/// An estimator as plain values, field for field: what is written out and
/// read back when an estimator is stored.
pub struct QuantileState {
    /// The quantile.
    pub q: u64,
    /// What each desired position grows by with every observation.
    pub desired_marker_position: Vec<u64>,
    /// The desired position of each marker.
    pub marker_position: Vec<u64>,
    /// The position of each marker.
    pub position: Vec<u64>,
    /// The height of each marker.
    pub heights: Vec<u64>,
    /// Whether the sixth observation has been seen.
    pub heights_sorted: bool,
}

/// A reader of a rolling quantile as plain values, field for field.
pub struct RollingQuantileState {
    /// The window.
    pub sorted_window: WindowState,
    /// The quantile.
    pub q: u64,
    /// The number of observations in a full window.
    pub window_size: usize,
    /// The lower rank in a full window.
    pub lower: usize,
    /// The higher rank in a full window.
    pub higher: usize,
    /// The weight in a full window.
    pub frac: u64,
}

/// Whether positions and heights have the shape of an estimator's: five
/// positions from one up, each below the next, at most five heights and
/// exactly five once tracking, and five desired positions with their
/// increments.
pub open spec fn shaped(
    increments: Seq<u64>,
    targets: Seq<u64>,
    positions: Seq<u64>,
    heights: Seq<u64>,
    tracking: bool,
) -> bool {
    &&& increments.len() == 5
    &&& targets.len() == 5
    &&& positions.len() == 5
    &&& increasing(positions)
    &&& positions[0] >= 1
    &&& heights.len() <= 5
    &&& tracking ==> heights.len() == 5
}

/// What the estimator did with an observation.
#[derive(Clone, Copy, Debug, PartialEq, Eq, Structural)]
pub enum Phase {
    /// It stored the observation: fewer than six have been seen.
    Filling,
    /// It shifted the markers; the three inner markers are now to be
    /// adjusted.
    Tracking,
}

/// How far a marker's desired position lies from its position.
#[derive(Clone, Copy, Debug, PartialEq, Eq, Structural)]
pub enum Drift {
    /// The desired position is at least one below.
    Behind,
    /// The two are less than one apart.
    Steady,
    /// The desired position is at least one above.
    Ahead,
}

/// The way a marker moves, by one position.
#[derive(Clone, Copy, Debug, PartialEq, Eq, Structural)]
pub enum Direction {
    Down,
    Up,
}

/// The pattern of `0.25`.
pub const QUARTER: u64 = 0x3FD0_0000_0000_0000;

/// The pattern of `0.75`.
pub const THREE_QUARTERS: u64 = 0x3FE8_0000_0000_0000;

/// The P-square estimator of one quantile.
pub struct Quantile {
    q: u64,
    desired_marker_position: Vec<u64>,
    marker_position: Vec<u64>,
    position: Vec<u64>,
    heights: Vec<i64>,
    heights_sorted: bool,
}

impl View for Quantile {
    type V = Markers;

    closed spec fn view(&self) -> Markers {
        Markers {
            heights: self.heights@,
            positions: self.position@,
            tracking: self.heights_sorted,
        }
    }
}

impl Quantile {
    /// The quantile that is estimated, as a bit pattern.
    pub closed spec fn quantile(&self) -> u64 {
        self.q
    }

    /// What each marker's desired position grows by with every observation,
    /// as bit patterns.
    pub closed spec fn increments(&self) -> Seq<u64> {
        self.desired_marker_position@
    }

    /// The desired position of each marker, as bit patterns.
    pub closed spec fn targets(&self) -> Seq<u64> {
        self.marker_position@
    }

    /// The invariant: the quantile is valid, there are five positions, each
    /// below the next, at most five heights and exactly five once tracking.
    pub open spec fn wf(&self) -> bool {
        &&& is_fraction(self.quantile())
        &&& self.increments().len() == 5
        &&& self.targets().len() == 5
        &&& self@.positions.len() == 5
        &&& increasing(self@.positions)
        &&& self@.positions[0] >= 1
        &&& self@.heights.len() <= 5
        &&& self@.tracking ==> self@.heights.len() == 5
        &&& forall|i: int| 0 <= i < self@.heights.len() ==> is_key(#[trigger] self@.heights[i] as int)
    }

    /// An estimator of the quantile `q`, given as the bit pattern of a
    /// double. It is refused unless it lies between 0 and 1.
    pub fn new<A: Arithmetic>(q: u64, arithmetic: &A) -> (r: Result<Self, QuantileError>)
        ensures
            match r {
                Ok(e) => {
                    &&& is_fraction(q)
                    &&& e.wf()
                    &&& e.quantile() == q
                    &&& e@ == fresh()
                    &&& e.increments()[0] == ZERO
                    &&& e.increments()[2] == q
                    &&& e.increments()[4] == ONE
                    &&& e.targets()[0] == ONE
                    &&& e.targets()[4] == FIVE
                    &&& arithmetic.exact() ==> e.increments() == increments_of::<A>(q)
                    &&& arithmetic.exact() ==> e.targets() == targets_of::<A>(q)
                },
                Err(e) => e == QuantileError::OutOfRange && !is_fraction(q),
            },
    {
        if !is_fraction_bits(q) {
            return Err(QuantileError::OutOfRange);
        }
        let mut desired_marker_position: Vec<u64> = Vec::new();
        desired_marker_position.push(ZERO);
        desired_marker_position.push(arithmetic.quotient(q, TWO));
        desired_marker_position.push(q);
        desired_marker_position.push(arithmetic.quotient(arithmetic.sum(ONE, q), TWO));
        desired_marker_position.push(ONE);
        let mut marker_position: Vec<u64> = Vec::new();
        marker_position.push(ONE);
        marker_position.push(arithmetic.sum(ONE, arithmetic.product(TWO, q)));
        marker_position.push(arithmetic.sum(ONE, arithmetic.product(FOUR, q)));
        marker_position.push(arithmetic.sum(THREE, arithmetic.product(TWO, q)));
        marker_position.push(FIVE);
        proof {
            if arithmetic.exact() {
                assert(desired_marker_position@ =~= increments_of::<A>(q));
                assert(marker_position@ =~= targets_of::<A>(q));
            }
        }
        Ok(
            Quantile {
                q,
                desired_marker_position,
                marker_position,
                position: Self::first_positions(),
                heights: Vec::new(),
                heights_sorted: false,
            },
        )
    }

    /// The positions of the markers before any has shifted.
    fn first_positions() -> (position: Vec<u64>)
        ensures
            position@ == initial_positions(),
    {
        let mut position: Vec<u64> = Vec::new();
        let mut rank: u64 = 1;
        while rank <= 5
            invariant
                1 <= rank <= 6,
                position@.len() == rank - 1,
                forall|i: int| 0 <= i < position@.len() ==> position@[i] == i + 1,
            decreases 6 - rank,
        {
            position.push(rank);
            rank += 1;
        }
        assert(position@ =~= initial_positions());
        position
    }

    /// The quantile that is estimated.
    pub fn q(&self) -> (r: u64)
        ensures
            r == self.quantile(),
    {
        self.q
    }

    /// The number of heights held: the number of observations seen, up to
    /// five.
    pub fn len(&self) -> (n: usize)
        ensures
            n == self@.heights.len(),
    {
        self.heights.len()
    }

    /// Whether the sixth observation has been seen.
    pub fn is_tracking(&self) -> (r: bool)
        ensures
            r == self@.tracking,
    {
        self.heights_sorted
    }

    /// The height of marker `i`.
    pub fn height(&self, i: usize) -> (r: u64)
        requires
            self.wf(),
            i < self@.heights.len(),
        ensures
            r == bits_of(self@.heights[i as int] as int),
    {
        from_key(self.heights[i])
    }

    /// The position of marker `i`.
    pub fn position(&self, i: usize) -> (r: u64)
        requires
            self.wf(),
            i < 5,
        ensures
            r == self@.positions[i as int],
    {
        self.position[i]
    }

    /// The estimator as plain values.
    pub fn state(&self) -> (s: QuantileState)
        requires
            self.wf(),
        ensures
            s.q == self.quantile(),
            s.desired_marker_position@ == self.increments(),
            s.marker_position@ == self.targets(),
            s.position@ == self@.positions,
            s.heights@ == patterns(self@.heights),
            s.heights_sorted == self@.tracking,
    {
        let mut heights: Vec<u64> = Vec::new();
        let mut i: usize = 0;
        while i < self.heights.len()
            invariant
                i <= self.heights@.len(),
                self.wf(),
                heights@.len() == i,
                forall|j: int| 0 <= j < i ==> heights@[j] == bits_of(self.heights@[j] as int),
            decreases self.heights@.len() - i,
        {
            heights.push(from_key(self.heights[i]));
            i += 1;
        }
        assert(heights@ =~= patterns(self@.heights));
        QuantileState {
            q: self.q,
            desired_marker_position: copy_of(&self.desired_marker_position),
            marker_position: copy_of(&self.marker_position),
            position: copy_of(&self.position),
            heights,
            heights_sorted: self.heights_sorted,
        }
    }

    /// The estimator that a state describes. A state that no estimator has
    /// is refused: one whose quantile does not lie between 0 and 1, one
    /// with a NaN among its heights, and one of another shape.
    pub fn restore(state: &QuantileState) -> (r: Result<Self, QuantileError>)
        ensures
            match r {
                Ok(e) => {
                    &&& e.wf()
                    &&& e.quantile() == state.q
                    &&& e.increments() == state.desired_marker_position@
                    &&& e.targets() == state.marker_position@
                    &&& e@.positions == state.position@
                    &&& e@.heights == keys(state.heights@)
                    &&& e@.tracking == state.heights_sorted
                },
                Err(_) => true,
            },
            r is Ok <==> is_fraction(state.q) && all_numbers(state.heights@) && shaped(
                state.desired_marker_position@,
                state.marker_position@,
                state.position@,
                state.heights@,
                state.heights_sorted,
            ),
            r matches Err(e) ==> e == if !is_fraction(state.q) {
                QuantileError::OutOfRange
            } else if !all_numbers(state.heights@) {
                QuantileError::NotANumber
            } else {
                QuantileError::Inconsistent
            },
    {
        if !is_fraction_bits(state.q) {
            return Err(QuantileError::OutOfRange);
        }
        let mut heights: Vec<i64> = Vec::new();
        let mut i: usize = 0;
        while i < state.heights.len()
            invariant
                i <= state.heights@.len(),
                heights@.len() == i,
                is_fraction(state.q),
                forall|j: int| 0 <= j < i ==> !is_nan(#[trigger] state.heights@[j]),
                forall|j: int| 0 <= j < i ==> heights@[j] == key_of(state.heights@[j]),
                forall|j: int| 0 <= j < i ==> is_key(#[trigger] heights@[j] as int),
            decreases state.heights@.len() - i,
        {
            match to_key(state.heights[i]) {
                Some(key) => heights.push(key),
                None => {
                    assert(is_nan(state.heights@[i as int]));
                    return Err(QuantileError::NotANumber);
                },
            }
            i += 1;
        }
        assert(heights@ =~= keys(state.heights@));
        assert(all_numbers(state.heights@));
        if state.desired_marker_position.len() != 5 || state.marker_position.len() != 5
            || state.position.len() != 5 || state.heights.len() > 5 || (state.heights_sorted
            && state.heights.len() != 5) {
            return Err(QuantileError::Inconsistent);
        }
        if state.position[0] < 1 {
            return Err(QuantileError::Inconsistent);
        }
        let mut k: usize = 1;
        while k < 5
            invariant
                1 <= k <= 5,
                state.position@.len() == 5,
                all_numbers(state.heights@),
                is_fraction(state.q),
                forall|j: int| 1 <= j < k ==> state.position@[j - 1] < #[trigger] state.position@[j],
            decreases 5 - k,
        {
            if state.position[k - 1] >= state.position[k] {
                assert(!increasing(state.position@)) by {
                    if increasing(state.position@) {
                        assert(state.position@[k - 1] < state.position@[k as int]);
                    }
                }
                return Err(QuantileError::Inconsistent);
            }
            k += 1;
        }
        proof {
            let p = state.position@;
            assert(p[0] < p[1] && p[1] < p[2] && p[2] < p[3] && p[3] < p[4]);
            assert(increasing(p));
        }
        Ok(
            Quantile {
                q: state.q,
                desired_marker_position: copy_of(&state.desired_marker_position),
                marker_position: copy_of(&state.marker_position),
                position: copy_of(&state.position),
                heights,
                heights_sorted: state.heights_sorted,
            },
        )
    }

    /// Finds the cell of an observation with key `x`, and lets the outer
    /// markers make room for it.
    pub fn find_k(&mut self, x: i64) -> (k: usize)
        requires
            old(self).wf(),
            old(self)@.heights.len() == 5,
            is_key(x as int),
        ensures
            final(self).wf(),
            final(self).quantile() == old(self).quantile(),
            final(self).increments() == old(self).increments(),
            final(self).targets() == old(self).targets(),
            k == cell_of(old(self)@.heights, x),
            1 <= k <= 4,
            final(self)@.heights == clamped(old(self)@.heights, x),
            final(self)@.positions == old(self)@.positions,
            final(self)@.tracking == old(self)@.tracking,
    {
        let mut k: Option<usize> = None;
        if x < self.heights[0] {
            self.heights.set(0, x);
            k = Some(1);
        } else {
            let mut i: usize = 1;
            while i <= 4 && k.is_none()
                invariant
                    1 <= i <= 5,
                    self.heights@ == old(self).heights@,
                    self.heights@.len() == 5,
                    match k {
                        None => forall|j: int| 1 <= j < i ==> !in_cell(self.heights@, x, j),
                        Some(cell) => {
                            &&& cell == i
                            &&& i <= 4
                            &&& in_cell(self.heights@, x, i as int)
                            &&& forall|j: int| 1 <= j < i ==> !in_cell(self.heights@, x, j)
                        },
                    },
                decreases 5 - i + if k is None { 1int } else { 0int },
            {
                if self.heights[i - 1] <= x && x < self.heights[i] {
                    k = Some(i);
                } else {
                    i += 1;
                }
            }
            if k.is_none() {
                if self.heights[4] < x {
                    self.heights.set(4, x);
                }
            }
        }
        match k {
            Some(cell) => cell,
            None => 4,
        }
    }

    /// Takes one more observation, given as the bit pattern of a double.
    /// A NaN is refused. Each of the first five is stored, in ascending
    /// order. From the sixth on the observation is counted in its cell; the
    /// three inner markers are then to be adjusted, and the heights settled.
    pub fn observe(&mut self, x: u64) -> (r: Result<Phase, QuantileError>)
        requires
            old(self).wf(),
        ensures
            final(self).wf(),
            final(self).quantile() == old(self).quantile(),
            final(self).increments() == old(self).increments(),
            final(self).targets() == old(self).targets(),
            match r {
                Ok(phase) => {
                    &&& !is_nan(x)
                    &&& final(self)@ == observed(old(self)@, key_of(x) as i64)
                    &&& phase == if old(self)@.heights.len() == 5 {
                        Phase::Tracking
                    } else {
                        Phase::Filling
                    }
                    &&& !exhausted(old(self)@)
                },
                Err(QuantileError::NotANumber) => is_nan(x) && final(self)@ == old(self)@,
                Err(QuantileError::Exhausted) => {
                    &&& !is_nan(x)
                    &&& exhausted(old(self)@)
                    &&& final(self)@ == old(self)@
                },
                Err(_) => false,
            },
    {
        let key: i64 = match to_key(x) {
            Some(k) => k,
            None => {
                return Err(QuantileError::NotANumber);
            },
        };
        if self.heights.len() != 5 {
            self.heights.push(key);
            sort_keys(&mut self.heights);
            proof {
                let pushed = old(self)@.heights.push(key);
                lemma_sorted_of(pushed);
                lemma_keys_stay_keys(pushed, self.heights@);
            }
            Ok(Phase::Filling)
        } else {
            if self.position[4] == u64::MAX {
                return Err(QuantileError::Exhausted);
            }
            self.heights_sorted = true;
            let k: usize = self.find_k(key);
            let ghost before = self.position@;
            let mut i: usize = k;
            while i < 5
                invariant
                    k <= i <= 5,
                    before.len() == 5,
                    increasing(before),
                    before[4] < u64::MAX,
                    self.position@.len() == 5,
                    self.q == old(self).q,
                    self.desired_marker_position@ == old(self).desired_marker_position@,
                    self.marker_position@ == old(self).marker_position@,
                    self.heights@.len() == 5,
                    self.heights_sorted,
                    self.heights@ == clamped(old(self).heights@, key),
                    forall|j: int| 0 <= j < 5 ==> is_key(#[trigger] self.heights@[j] as int),
                    forall|j: int| 0 <= j < 5 ==> self.position@[j] == if k <= j < i {
                        (before[j] + 1) as u64
                    } else {
                        before[j]
                    },
                decreases 5 - i,
            {
                let next: u64 = self.position[i] + 1;
                self.position.set(i, next);
                i += 1;
            }
            assert(self.position@ =~= shifted(before, k as int));
            Ok(Phase::Tracking)
        }
    }

    /// Decides whether marker `i` moves, and which way.
    pub fn planned_move(&self, i: usize, drift: Drift) -> (r: Option<Direction>)
        requires
            self.wf(),
            1 <= i <= 3,
        ensures
            r == planned(self@.positions, i as int, drift),
    {
        match drift {
            Drift::Ahead => if self.position[i + 1] - self.position[i] > 1 {
                Some(Direction::Up)
            } else {
                None
            },
            Drift::Behind => if self.position[i] - self.position[i - 1] > 1 {
                Some(Direction::Down)
            } else {
                None
            },
            Drift::Steady => None,
        }
    }

    /// Adjusts marker `i`. Where the marker is to move, it takes the
    /// parabolic candidate if that lies strictly between the heights beside
    /// it, and the linear candidate otherwise; its position follows. A
    /// linear candidate that is needed and is a NaN is refused, and nothing
    /// changes. The result tells whether and which way the marker moved.
    pub fn adjust_marker(&mut self, i: usize, drift: Drift, parabolic: u64, linear: u64) -> (r:
        Result<Option<Direction>, QuantileError>)
        requires
            old(self).wf(),
            old(self)@.heights.len() == 5,
            1 <= i <= 3,
        ensures
            final(self).wf(),
            final(self).quantile() == old(self).quantile(),
            final(self).increments() == old(self).increments(),
            final(self).targets() == old(self).targets(),
            final(self)@ == adjusted(old(self)@, i as int, drift, parabolic, linear),
            match r {
                Ok(direction) => {
                    &&& !refused(old(self)@, i as int, drift, parabolic, linear)
                    &&& direction == planned(old(self)@.positions, i as int, drift)
                },
                Err(e) => {
                    &&& e == QuantileError::NotANumber
                    &&& refused(old(self)@, i as int, drift, parabolic, linear)
                },
            },
    {
        let direction: Direction = match self.planned_move(i, drift) {
            Some(d) => d,
            None => {
                return Ok(None);
            },
        };
        let taken: Option<i64> = match to_key(parabolic) {
            Some(qn) => if self.heights[i - 1] < qn && qn < self.heights[i + 1] {
                Some(qn)
            } else {
                to_key(linear)
            },
            None => to_key(linear),
        };
        let height: i64 = match taken {
            Some(h) => h,
            None => {
                return Err(QuantileError::NotANumber);
            },
        };
        self.heights.set(i, height);
        let n: u64 = self.position[i];
        let next: u64 = match direction {
            Direction::Up => n + 1,
            Direction::Down => n - 1,
        };
        self.position.set(i, next);
        Ok(Some(direction))
    }

    /// Puts the heights back in ascending order.
    pub fn settle(&mut self)
        requires
            old(self).wf(),
        ensures
            final(self).wf(),
            final(self).quantile() == old(self).quantile(),
            final(self).increments() == old(self).increments(),
            final(self).targets() == old(self).targets(),
            final(self)@ == settled(old(self)@),
            ascending(final(self)@.heights),
    {
        sort_keys(&mut self.heights);
        proof {
            lemma_sorted_of(old(self)@.heights);
            lemma_keys_stay_keys(old(self)@.heights, self.heights@);
        }
    }

    /// The marker beside marker `i` in the given direction.
    pub fn neighbour(i: usize, direction: Direction) -> (r: usize)
        requires
            1 <= i <= 3,
        ensures
            r == neighbour_of(i as int, direction),
    {
        let step: isize = match direction {
            Direction::Down => -1,
            Direction::Up => 1,
        };
        match signed_index(i) {
            Some(at) => match unsigned_index(at + step) {
                Some(beside) => beside,
                None => i,
            },
            None => i,
        }
    }

    /// What the linear candidate for marker `i` is computed from: the
    /// height and position of the marker, then those of the marker beside
    /// it in the given direction.
    pub fn linear_terms(&self, i: usize, direction: Direction) -> (r: (u64, u64, u64, u64))
        requires
            self.wf(),
            self@.heights.len() == 5,
            1 <= i <= 3,
        ensures
            r.0 == bits_of(self@.heights[i as int] as int),
            r.1 == self@.positions[i as int],
            r.2 == bits_of(self@.heights[neighbour_of(i as int, direction)] as int),
            r.3 == self@.positions[neighbour_of(i as int, direction)],
    {
        let beside: usize = Self::neighbour(i, direction);
        (
            from_key(self.heights[i]),
            self.position[i],
            from_key(self.heights[beside]),
            self.position[beside],
        )
    }

    /// The estimate for a given rank. Once tracking it is the height of the
    /// middle marker. Before that it is the height at rank `scaled`, or the
    /// largest height where there is no such rank. There is no estimate
    /// before the first observation.
    pub fn estimate_at(&self, scaled: usize) -> (r: Option<u64>)
        requires
            self.wf(),
        ensures
            r == estimate(self@, scaled as int),
    {
        if self.heights_sorted {
            Some(from_key(self.heights[2]))
        } else if self.heights.len() == 0 {
            None
        } else if scaled < self.heights.len() - 1 {
            Some(from_key(self.heights[scaled]))
        } else {
            Some(from_key(self.heights[self.heights.len() - 1]))
        }
    }

    /// The estimate. Once tracking it is the height of the middle marker.
    /// Before that it is the height whose rank is the number of
    /// observations times the quantile, rounded down, as the arithmetic
    /// gives it. There is no estimate before the first observation, nor
    /// where the arithmetic gives no rank.
    pub fn get<A: Arithmetic>(&self, arithmetic: &A) -> (r: Option<u64>)
        requires
            self.wf(),
        ensures
            self@.tracking ==> r == Some(bits_of(self@.heights[2] as int)),
            !self@.tracking && self@.heights.len() == 0 ==> r is None,
            r is Some ==> exists|scaled: int| 0 <= scaled && r == estimate(self@, scaled),
            arithmetic.exact() && !self@.tracking && self@.heights.len() > 0 ==> r == estimate_by::<
                A,
            >(self@, self.quantile()),
    {
        if self.heights_sorted {
            let r = self.estimate_at(0);
            assert(r == estimate(self@, 0));
            r
        } else if self.heights.len() == 0 {
            None
        } else {
            let length: u64 = arithmetic.from_usize(self.heights.len());
            let last: u64 = larger(arithmetic.difference(length, ONE), ZERO);
            let scaled: u64 = smaller(last, arithmetic.product(length, self.q));
            match arithmetic.to_usize(scaled) {
                Some(index) => {
                    let r = self.estimate_at(index);
                    assert(r == estimate(self@, index as int));
                    r
                },
                None => None,
            }
        }
    }

    /// Tells the drift that the distance `d` from a position to the desired
    /// position stands for.
    pub fn classify(d: u64) -> (r: Drift)
        ensures
            r == drift_of(d),
    {
        match to_key(d) {
            Some(k) => if k >= 0x3FF0_0000_0000_0000 {
                Drift::Ahead
            } else if k <= -0x3FF0_0000_0000_0000 {
                Drift::Behind
            } else {
                Drift::Steady
            },
            None => Drift::Steady,
        }
    }

    /// The parabolic candidate for a marker of height `q` at position `n`
    /// that moves by `d`, between markers of heights `qm1` and `qp1` at
    /// positions `nm1` and `np1`:
    /// `q + d / (np1 - nm1) * ((n - nm1 + d) * (qp1 - q) / (np1 - n)
    /// + (np1 - n - d) * (q - qm1) / (n - nm1))`.
    pub fn compute_p2<A: Arithmetic>(
        arithmetic: &A,
        qp1: u64,
        q: u64,
        qm1: u64,
        d: u64,
        np1: u64,
        n: u64,
        nm1: u64,
    ) -> (r: u64)
        ensures
            arithmetic.exact() ==> r == parabolic_of::<A>(qp1, q, qm1, d, np1, n, nm1),
    {
        let outer: u64 = arithmetic.quotient(d, arithmetic.difference(np1, nm1));
        let inner_left: u64 = arithmetic.quotient(
            arithmetic.product(
                arithmetic.sum(arithmetic.difference(n, nm1), d),
                arithmetic.difference(qp1, q),
            ),
            arithmetic.difference(np1, n),
        );
        let inner_right: u64 = arithmetic.quotient(
            arithmetic.product(
                arithmetic.difference(arithmetic.difference(np1, n), d),
                arithmetic.difference(q, qm1),
            ),
            arithmetic.difference(n, nm1),
        );
        arithmetic.sum(q, arithmetic.product(outer, arithmetic.sum(inner_left, inner_right)))
    }

    /// The linear candidate for a marker of height `q` at position `n` that
    /// moves by `d` towards a marker of height `beside` at position
    /// `n_beside`: `q + d * (beside - q) / (n_beside - n)`.
    pub fn compute_linear<A: Arithmetic>(
        arithmetic: &A,
        q: u64,
        d: u64,
        beside: u64,
        n: u64,
        n_beside: u64,
    ) -> (r: u64)
        ensures
            arithmetic.exact() ==> r == linear_of::<A>(q, d, beside, n, n_beside),
    {
        arithmetic.sum(
            q,
            arithmetic.quotient(
                arithmetic.product(d, arithmetic.difference(beside, q)),
                arithmetic.difference(n_beside, n),
            ),
        )
    }

    /// The answer of the arithmetic for marker `i`: its drift and, where the
    /// marker is to move, the two candidate heights.
    fn answer<A: Arithmetic>(&self, i: usize, arithmetic: &A) -> (r: (Drift, u64, u64))
        requires
            self.wf(),
            self@.heights.len() == 5,
            1 <= i <= 3,
        ensures
            arithmetic.exact() ==> (Answer { drift: r.0, parabolic: r.1, linear: r.2 })
                == answer_of::<A>(self@, self.targets(), i as int),
    {
        let n: u64 = arithmetic.from_u64(self.position[i]);
        let distance: u64 = arithmetic.difference(self.marker_position[i], n);
        let drift: Drift = Self::classify(distance);
        match self.planned_move(i, drift) {
            Some(direction) => {
                let d: u64 = match direction {
                    Direction::Up => ONE,
                    Direction::Down => MINUS_ONE,
                };
                let qp1: u64 = from_key(self.heights[i + 1]);
                let qm1: u64 = from_key(self.heights[i - 1]);
                let np1: u64 = arithmetic.from_u64(self.position[i + 1]);
                let nm1: u64 = arithmetic.from_u64(self.position[i - 1]);
                let terms: (u64, u64, u64, u64) = self.linear_terms(i, direction);
                let q: u64 = terms.0;
                let beside: u64 = terms.2;
                let n_beside: u64 = arithmetic.from_u64(terms.3);
                let qn: u64 = Self::compute_p2(arithmetic, qp1, q, qm1, d, np1, n, nm1);
                let linear: u64 = Self::compute_linear(arithmetic, q, d, beside, n, n_beside);
                (drift, qn, linear)
            },
            None => (drift, ZERO, ZERO),
        }
    }

    /// Adjusts the three inner markers in turn, each with the candidates
    /// that the arithmetic gives for the markers as they then are. It stops
    /// at the first adjustment that cannot be made.
    pub fn adjust<A: Arithmetic>(&mut self, arithmetic: &A) -> (r: Result<(), QuantileError>)
        requires
            old(self).wf(),
            old(self)@.heights.len() == 5,
        ensures
            final(self).wf(),
            final(self).quantile() == old(self).quantile(),
            final(self).increments() == old(self).increments(),
            final(self).targets() == old(self).targets(),
            final(self)@.heights.len() == 5,
            final(self)@.tracking == old(self)@.tracking,
            exists|answers: Seq<Answer>|
                #![auto]
                answers.len() == 3 && match r {
                    Ok(()) => {
                        &&& !refused_any(old(self)@, answers)
                        &&& final(self)@ == adjusted_all(old(self)@, answers)
                    },
                    Err(e) => {
                        &&& e == QuantileError::NotANumber
                        &&& refused_any(old(self)@, answers)
                        &&& final(self)@ == adjusted_until_refused(old(self)@, answers)
                    },
                },
            arithmetic.exact() ==> match r {
                Ok(()) => {
                    &&& !refused_any(old(self)@, answers_of::<A>(old(self)@, old(self).targets()))
                    &&& final(self)@ == adjusted_all(
                        old(self)@,
                        answers_of::<A>(old(self)@, old(self).targets()),
                    )
                },
                Err(e) => {
                    &&& e == QuantileError::NotANumber
                    &&& refused_any(old(self)@, answers_of::<A>(old(self)@, old(self).targets()))
                    &&& final(self)@ == adjusted_until_refused(
                        old(self)@,
                        answers_of::<A>(old(self)@, old(self).targets()),
                    )
                },
            },
    {
        let ghost start = self@;
        let ghost exact = answers_of::<A>(start, self.targets());
        let ghost idle = Answer { drift: Drift::Steady, parabolic: ZERO, linear: ZERO };
        let ghost mut answers: Seq<Answer> = seq![idle, idle, idle];
        let mut i: usize = 1;
        while i < 4
            invariant
                1 <= i <= 4,
                self.wf(),
                self@.heights.len() == 5,
                self@.tracking == start.tracking,
                self.quantile() == old(self).quantile(),
                self.increments() == old(self).increments(),
                self.targets() == old(self).targets(),
                start == old(self)@,
                answers.len() == 3,
                idle == (Answer { drift: Drift::Steady, parabolic: ZERO, linear: ZERO }),
                forall|j: int| i - 1 <= j < 3 ==> answers[j] == idle,
                exact == answers_of::<A>(start, old(self).targets()),
                arithmetic.exact() ==> forall|j: int| 0 <= j < i - 1 ==> answers[j] == exact[j],
                i == 1 ==> self@ == start,
                i >= 2 ==> !refused(
                    start,
                    1,
                    answers[0].drift,
                    answers[0].parabolic,
                    answers[0].linear,
                ),
                i == 2 ==> self@ == answered(start, 1, answers[0]),
                i >= 3 ==> !refused(
                    answered(start, 1, answers[0]),
                    2,
                    answers[1].drift,
                    answers[1].parabolic,
                    answers[1].linear,
                ),
                i == 3 ==> self@ == answered(answered(start, 1, answers[0]), 2, answers[1]),
                i == 4 ==> !refused_any(start, answers) && self@ == adjusted_all(start, answers),
            decreases 4 - i,
        {
            let given: (Drift, u64, u64) = self.answer(i, arithmetic);
            proof {
                answers = answers.update(
                    i - 1,
                    Answer { drift: given.0, parabolic: given.1, linear: given.2 },
                );
            }
            match self.adjust_marker(i, given.0, given.1, given.2) {
                Ok(_) => {},
                Err(e) => {
                    assert(e == QuantileError::NotANumber);
                    assert(answers.len() == 3 && refused_any(start, answers));
                    assert(self@ == adjusted_until_refused(start, answers));
                    assert(arithmetic.exact() ==> refused_any(start, exact));
                    assert(arithmetic.exact() ==> self@ == adjusted_until_refused(start, exact));
                    return Err(e);
                },
            }
            i += 1;
        }
        assert(arithmetic.exact() ==> answers =~= exact);
        Ok(())
    }

    /// Lets every desired position grow by its increment.
    fn advance<A: Arithmetic>(&mut self, arithmetic: &A)
        requires
            old(self).wf(),
        ensures
            final(self).wf(),
            final(self).quantile() == old(self).quantile(),
            final(self).increments() == old(self).increments(),
            final(self)@ == old(self)@,
            arithmetic.exact() ==> final(self).targets() == advanced::<A>(
                old(self).targets(),
                old(self).increments(),
            ),
    {
        let mut i: usize = 0;
        while i < 5
            invariant
                i <= 5,
                self.wf(),
                self.quantile() == old(self).quantile(),
                self.increments() == old(self).increments(),
                self@ == old(self)@,
                forall|j: int| i <= j < 5 ==> self.targets()[j] == old(self).targets()[j],
                arithmetic.exact() ==> forall|j: int|
                    0 <= j < i ==> self.targets()[j] == A::sum_of(
                        old(self).targets()[j],
                        old(self).increments()[j],
                    ),
            decreases 5 - i,
        {
            let marker: u64 = arithmetic.sum(
                self.marker_position[i],
                self.desired_marker_position[i],
            );
            self.marker_position.set(i, marker);
            i += 1;
        }
        assert(arithmetic.exact() ==> self.targets() =~= advanced::<A>(
            old(self).targets(),
            old(self).increments(),
        ));
    }

    /// Takes one more observation, given as the bit pattern of a double. A
    /// NaN is refused, and nothing changes. Each of the first five
    /// observations is stored, in ascending order. From the sixth on the
    /// observation is counted in its cell, the desired positions grow, the
    /// three inner markers are adjusted in turn, and the heights are put
    /// back in ascending order. Where an adjustment cannot be made the
    /// update stops there: the markers are as the adjustments before it
    /// left them, and no longer an estimate of anything.
    pub fn update<A: Arithmetic>(&mut self, x: u64, arithmetic: &A) -> (r: Result<
        (),
        QuantileError,
    >)
        requires
            old(self).wf(),
        ensures
            final(self).wf(),
            final(self).quantile() == old(self).quantile(),
            final(self).increments() == old(self).increments(),
            is_nan(x) ==> {
                &&& r == Err::<(), QuantileError>(QuantileError::NotANumber)
                &&& final(self)@ == old(self)@
                &&& final(self).targets() == old(self).targets()
            },
            !is_nan(x) && old(self)@.heights.len() != 5 ==> {
                &&& r is Ok
                &&& final(self)@ == observed(old(self)@, key_of(x) as i64)
                &&& final(self).targets() == old(self).targets()
            },
            !is_nan(x) && exhausted(old(self)@) ==> {
                &&& r == Err::<(), QuantileError>(QuantileError::Exhausted)
                &&& final(self)@ == old(self)@
                &&& final(self).targets() == old(self).targets()
            },
            !is_nan(x) && counting(old(self)@) ==> exists|answers: Seq<Answer>|
                #![auto]
                answers.len() == 3 && match r {
                    Ok(()) => {
                        &&& !refused_any(observed(old(self)@, key_of(x) as i64), answers)
                        &&& final(self)@ == updated(
                            old(self)@,
                            (Update { key: key_of(x) as i64, answers }),
                        )
                    },
                    Err(e) => {
                        &&& e == QuantileError::NotANumber
                        &&& refused_any(observed(old(self)@, key_of(x) as i64), answers)
                        &&& final(self)@ == adjusted_until_refused(
                            observed(old(self)@, key_of(x) as i64),
                            answers,
                        )
                    },
                },
            arithmetic.exact() && !is_nan(x) && counting(old(self)@) ==> {
                let counted = observed(old(self)@, key_of(x) as i64);
                let targets = advanced::<A>(old(self).targets(), old(self).increments());
                let answers = answers_of::<A>(counted, targets);
                &&& final(self).targets() == targets
                &&& match r {
                    Ok(()) => {
                        &&& !refused_any(counted, answers)
                        &&& final(self)@ == updated(
                            old(self)@,
                            (Update { key: key_of(x) as i64, answers }),
                        )
                    },
                    Err(e) => {
                        &&& e == QuantileError::NotANumber
                        &&& refused_any(counted, answers)
                        &&& final(self)@ == adjusted_until_refused(counted, answers)
                    },
                }
            },
            r is Ok ==> ascending(final(self)@.heights),
    {
        match self.observe(x) {
            Err(e) => Err(e),
            Ok(Phase::Filling) => {
                proof {
                    lemma_sorted_of(old(self)@.heights.push(key_of(x) as i64));
                }
                Ok(())
            },
            Ok(Phase::Tracking) => {
                self.advance(arithmetic);
                match self.adjust(arithmetic) {
                    Err(e) => Err(e),
                    Ok(()) => {
                        self.settle();
                        Ok(())
                    },
                }
            },
        }
    }
}

impl Default for Quantile {
    /// An estimator of the median. Its desired positions are those that
    /// `new` computes for one half, each of which is exact.
    fn default() -> (e: Self)
        ensures
            e.wf(),
            e.quantile() == HALF,
            e@ == fresh(),
            e.increments() == seq![ZERO, QUARTER, HALF, THREE_QUARTERS, ONE],
            e.targets() == seq![ONE, TWO, THREE, FOUR, FIVE],
    {
        let mut desired_marker_position: Vec<u64> = Vec::new();
        desired_marker_position.push(ZERO);
        desired_marker_position.push(QUARTER);
        desired_marker_position.push(HALF);
        desired_marker_position.push(THREE_QUARTERS);
        desired_marker_position.push(ONE);
        let mut marker_position: Vec<u64> = Vec::new();
        marker_position.push(ONE);
        marker_position.push(TWO);
        marker_position.push(THREE);
        marker_position.push(FOUR);
        marker_position.push(FIVE);
        assert(desired_marker_position@ =~= seq![ZERO, QUARTER, HALF, THREE_QUARTERS, ONE]);
        assert(marker_position@ =~= seq![ONE, TWO, THREE, FOUR, FIVE]);
        Quantile {
            q: HALF,
            desired_marker_position,
            marker_position,
            position: Self::first_positions(),
            heights: Vec::new(),
            heights_sorted: false,
        }
    }
}

/// The rank above `lower` among `len` ranked values: the next rank, or the
/// last one where there is no next.
pub open spec fn higher_of(lower: int, len: int) -> int {
    if lower + 1 > len - 1 {
        len - 1
    } else {
        lower + 1
    }
}

/// The two values that a quantile is read from, and the weight of the
/// second: the quantile is `low + (high - low) * frac`.
#[derive(Clone, Copy, Debug, PartialEq, Eq, Structural)]
pub struct Interpolation {
    pub low: u64,
    pub high: u64,
    pub frac: u64,
}

/// Whether a state is that of a reader: its quantile lies between 0 and 1,
/// its window is consistent and of the size kept beside it, which is not
/// zero, and its two ranks are ranks of the full window, one above the
/// other.
pub open spec fn restorable(state: &RollingQuantileState) -> bool {
    &&& is_fraction(state.q)
    &&& state.window_size >= 1
    &&& state.lower < state.window_size
    &&& state.higher == higher_of(state.lower as int, state.window_size as int)
    &&& state.sorted_window.window_size == state.window_size
    &&& consistent(
        state.sorted_window.sorted_window@,
        state.sorted_window.unsorted_window@,
        state.window_size as nat,
    )
}

/// A quantile of the last observations of a stream, read from a sorted
/// window.
///
/// The place of the quantile `q` among `n` ranked values is `q * (n - 1)`.
/// The caller computes it, and hands in its whole part as a rank and the
/// rest as the bit pattern of a weight.
pub struct RollingQuantile {
    sorted_window: SortedWindow,
    q: u64,
    window_size: usize,
    lower: usize,
    higher: usize,
    frac: u64,
}

impl RollingQuantile {
    /// The window of the last observations.
    pub closed spec fn window(&self) -> SortedWindow {
        self.sorted_window
    }

    /// The quantile that is read, as a bit pattern.
    pub closed spec fn quantile(&self) -> u64 {
        self.q
    }

    /// The number of observations in a full window.
    pub closed spec fn size(&self) -> nat {
        self.window_size as nat
    }

    /// The lower rank in a full window.
    pub closed spec fn full_lower(&self) -> int {
        self.lower as int
    }

    /// The higher rank in a full window.
    pub closed spec fn full_higher(&self) -> int {
        self.higher as int
    }

    /// The weight in a full window.
    pub closed spec fn full_frac(&self) -> u64 {
        self.frac
    }

    /// The invariant: the window is well formed and holds at least one
    /// observation when full, and the two ranks kept for the full window are
    /// ranks of it.
    pub open spec fn wf(&self) -> bool {
        &&& self.window().wf()
        &&& is_fraction(self.quantile())
        &&& self.window().capacity() >= 1
        &&& self.size() == self.window().capacity()
        &&& 0 <= self.full_lower() < self.window().capacity()
        &&& self.full_higher() == higher_of(self.full_lower(), self.window().capacity() as int)
    }

    /// The place of the quantile among the values in the window: the one
    /// kept once the window is full, and the one that an exact arithmetic
    /// gives for the present length while it fills.
    pub open spec fn place_now<A: Arithmetic>(&self) -> Option<(usize, u64)> {
        if self.window().ordered().len() < self.window().capacity() {
            place_of::<A>(self.quantile(), self.window().ordered().len() as usize)
        } else {
            Some((self.full_lower() as usize, self.full_frac()))
        }
    }

    /// The two ranks and the weight that an exact arithmetic reads the
    /// quantile with, or `None` where there is nothing to read.
    pub open spec fn prepared_now<A: Arithmetic>(&self) -> Option<(usize, usize, u64)> {
        match self.place_now::<A>() {
            Some((lower, frac)) => if self.readable(lower as int) {
                let p = self.prepared(lower as int, frac);
                Some((p.0 as usize, p.1 as usize, p.2))
            } else {
                None
            },
            None => None,
        }
    }

    /// The quantile that an exact arithmetic reads: the value at the
    /// weight between the values at the two ranks.
    pub open spec fn read_now<A: Arithmetic>(&self) -> Option<u64> {
        match self.prepared_now::<A>() {
            Some((lower, higher, frac)) => Some(
                interpolated::<A>(
                    bits_of(self.window().ordered()[lower as int] as int),
                    bits_of(self.window().ordered()[higher as int] as int),
                    frac,
                ),
            ),
            None => None,
        }
    }

    /// The ranks and the weight that the quantile is read with. While the
    /// window fills they come from the rank and the weight handed in, which
    /// are for the present length; once it is full they are those kept.
    pub open spec fn prepared(&self, lower: int, frac: u64) -> (int, int, u64) {
        if self.window().ordered().len() < self.window().capacity() {
            (lower, higher_of(lower, self.window().ordered().len() as int), frac)
        } else {
            (self.full_lower(), self.full_higher(), self.full_frac())
        }
    }

    /// Whether there is something to read: the window holds an observation
    /// and, while it fills, the rank handed in is a rank of it.
    pub open spec fn readable(&self, lower: int) -> bool {
        &&& self.window().ordered().len() > 0
        &&& self.window().ordered().len() < self.window().capacity() ==> lower
            < self.window().ordered().len()
    }

    /// The place of the quantile `q` among `len` ranked values,
    /// `q * (len - 1)`, as the arithmetic gives it: its whole part and the
    /// rest. `None` where the arithmetic gives no whole part.
    pub fn place<A: Arithmetic>(q: u64, len: usize, arithmetic: &A) -> (r: Option<(usize, u64)>)
        ensures
            arithmetic.exact() ==> r == place_of::<A>(q, len),
    {
        let idx: u64 = arithmetic.product(
            q,
            arithmetic.difference(arithmetic.from_usize(len), ONE),
        );
        match arithmetic.to_usize(arithmetic.floor(idx)) {
            Some(lower) => Some((lower, arithmetic.difference(idx, arithmetic.from_usize(lower)))),
            None => None,
        }
    }

    /// A reader of the quantile `q` over a window of `window_size`
    /// observations. The quantile must lie between 0 and 1, the window must
    /// hold at least one observation, and the arithmetic must place the
    /// quantile at a rank of the full window.
    pub fn new<A: Arithmetic>(q: u64, window_size: usize, arithmetic: &A) -> (r: Result<
        Self,
        QuantileError,
    >)
        ensures
            match r {
                Ok(e) => {
                    &&& is_fraction(q)
                    &&& window_size >= 1
                    &&& e.wf()
                    &&& e.quantile() == q
                    &&& e.window().capacity() == window_size
                    &&& e.window().arrivals() == Seq::<i64>::empty()
                    &&& e.window().ordered() == Seq::<i64>::empty()
                },
                Err(QuantileError::OutOfRange) => !is_fraction(q),
                Err(QuantileError::ZeroWindow) => is_fraction(q) && window_size == 0,
                Err(QuantileError::RankOutOfRange) => is_fraction(q) && window_size >= 1,
                Err(_) => false,
            },
            arithmetic.exact() && is_fraction(q) && window_size >= 1 ==> match place_of::<A>(
                q,
                window_size,
            ) {
                Some((lower, frac)) => if lower < window_size {
                    r matches Ok(e) && e.full_lower() == lower && e.full_frac() == frac
                } else {
                    r is Err
                },
                None => r is Err,
            },
    {
        if !is_fraction_bits(q) {
            return Err(QuantileError::OutOfRange);
        }
        if window_size == 0 {
            return Err(QuantileError::ZeroWindow);
        }
        match Self::place(q, window_size, arithmetic) {
            Some((lower, frac)) => Self::with_place(q, window_size, lower, frac),
            None => Err(QuantileError::RankOutOfRange),
        }
    }

    /// A reader of the quantile `q` over a window of `window_size`
    /// observations, where `lower` and `frac` are the rank and the weight
    /// for the full window. The quantile must lie between 0 and 1, the
    /// window must hold at least one observation, and the rank must be a
    /// rank of it.
    pub fn with_place(q: u64, window_size: usize, lower: usize, frac: u64) -> (r: Result<
        Self,
        QuantileError,
    >)
        ensures
            match r {
                Ok(e) => {
                    &&& is_fraction(q)
                    &&& window_size >= 1
                    &&& lower < window_size
                    &&& e.wf()
                    &&& e.quantile() == q
                    &&& e.window().capacity() == window_size
                    &&& e.window().arrivals() == Seq::<i64>::empty()
                    &&& e.window().ordered() == Seq::<i64>::empty()
                    &&& e.full_lower() == lower
                    &&& e.full_frac() == frac
                },
                Err(QuantileError::OutOfRange) => !is_fraction(q),
                Err(QuantileError::ZeroWindow) => is_fraction(q) && window_size == 0,
                Err(QuantileError::RankOutOfRange) => {
                    &&& is_fraction(q)
                    &&& window_size >= 1
                    &&& lower >= window_size
                },
                Err(_) => false,
            },
    {
        if !is_fraction_bits(q) {
            return Err(QuantileError::OutOfRange);
        }
        if window_size == 0 {
            return Err(QuantileError::ZeroWindow);
        }
        if lower >= window_size {
            return Err(QuantileError::RankOutOfRange);
        }
        let mut higher: usize = lower + 1;
        if higher > window_size - 1 {
            higher = window_size - 1;
        }
        Ok(
            RollingQuantile {
                sorted_window: SortedWindow::new(window_size),
                q,
                window_size,
                lower,
                higher,
                frac,
            },
        )
    }

    /// The reader as plain values.
    pub fn state(&self) -> (s: RollingQuantileState)
        requires
            self.wf(),
        ensures
            s.sorted_window.sorted_window@ == patterns(self.window().ordered()),
            s.sorted_window.unsorted_window@ == patterns(self.window().arrivals()),
            s.sorted_window.window_size == self.window().capacity(),
            s.q == self.quantile(),
            s.window_size == self.size(),
            s.lower == self.full_lower(),
            s.higher == self.full_higher(),
            s.frac == self.full_frac(),
    {
        RollingQuantileState {
            sorted_window: self.sorted_window.state(),
            q: self.q,
            window_size: self.window_size,
            lower: self.lower,
            higher: self.higher,
            frac: self.frac,
        }
    }

    /// The reader that a state describes. A state that no reader has is
    /// refused.
    pub fn restore(state: &RollingQuantileState) -> (r: Result<Self, QuantileError>)
        ensures
            match r {
                Ok(e) => {
                    &&& e.wf()
                    &&& e.quantile() == state.q
                    &&& e.size() == state.window_size
                    &&& e.full_lower() == state.lower
                    &&& e.full_higher() == state.higher
                    &&& e.full_frac() == state.frac
                    &&& e.window().ordered() == keys(state.sorted_window.sorted_window@)
                    &&& e.window().arrivals() == keys(state.sorted_window.unsorted_window@)
                },
                Err(_) => true,
            },
            r is Ok <==> restorable(state),
            r matches Err(e) ==> e == if !is_fraction(state.q) {
                QuantileError::OutOfRange
            } else if state.window_size == 0 {
                QuantileError::ZeroWindow
            } else if state.lower >= state.window_size {
                QuantileError::RankOutOfRange
            } else if !(all_numbers(state.sorted_window.sorted_window@) && all_numbers(
                state.sorted_window.unsorted_window@,
            )) {
                QuantileError::NotANumber
            } else {
                QuantileError::Inconsistent
            },
    {
        if !is_fraction_bits(state.q) {
            return Err(QuantileError::OutOfRange);
        }
        if state.window_size == 0 {
            return Err(QuantileError::ZeroWindow);
        }
        if state.lower >= state.window_size {
            return Err(QuantileError::RankOutOfRange);
        }
        let sorted_window: SortedWindow = match SortedWindow::restore(&state.sorted_window) {
            Ok(w) => w,
            Err(WindowError::NotANumber) => {
                return Err(QuantileError::NotANumber);
            },
            Err(_) => {
                return Err(QuantileError::Inconsistent);
            },
        };
        let mut higher: usize = state.lower + 1;
        if higher > state.window_size - 1 {
            higher = state.window_size - 1;
        }
        if state.sorted_window.window_size != state.window_size || state.higher != higher {
            return Err(QuantileError::Inconsistent);
        }
        Ok(
            RollingQuantile {
                sorted_window,
                q: state.q,
                window_size: state.window_size,
                lower: state.lower,
                higher: state.higher,
                frac: state.frac,
            },
        )
    }

    /// The quantile that is read.
    pub fn q(&self) -> (r: u64)
        ensures
            r == self.quantile(),
    {
        self.q
    }

    /// The number of observations in the window.
    pub fn len(&self) -> (n: usize)
        ensures
            n == self.window().ordered().len(),
    {
        self.sorted_window.len()
    }

    /// The number of observations that the window holds when full.
    pub fn window_size(&self) -> (n: usize)
        ensures
            n == self.size(),
    {
        self.window_size
    }

    /// Takes one more observation into the window. A NaN is refused.
    pub fn update(&mut self, x: u64) -> (r: Result<(), QuantileError>)
        requires
            old(self).wf(),
        ensures
            final(self).wf(),
            final(self).quantile() == old(self).quantile(),
            final(self).full_lower() == old(self).full_lower(),
            final(self).full_higher() == old(self).full_higher(),
            final(self).full_frac() == old(self).full_frac(),
            final(self).window().capacity() == old(self).window().capacity(),
            final(self).size() == old(self).size(),
            match r {
                Ok(()) => {
                    &&& !is_nan(x)
                    &&& final(self).window().arrivals() == slide(
                        old(self).window().arrivals(),
                        old(self).window().capacity(),
                        key_of(x) as i64,
                    )
                    &&& final(self).window().ordered() == sorted_of(final(self).window().arrivals())
                },
                Err(e) => {
                    &&& e == QuantileError::NotANumber
                    &&& is_nan(x)
                    &&& final(self).window().arrivals() == old(self).window().arrivals()
                    &&& final(self).window().ordered() == old(self).window().ordered()
                },
            },
    {
        match self.sorted_window.push_back(x) {
            Ok(()) => Ok(()),
            Err(_) => Err(QuantileError::NotANumber),
        }
    }

    /// The two ranks and the weight that the quantile is read with: those
    /// kept where the window is full, and those that the arithmetic gives
    /// for the present length while it fills. `None` where the window is
    /// empty or the arithmetic gives no rank of it.
    pub fn prepare<A: Arithmetic>(&self, arithmetic: &A) -> (r: Option<(usize, usize, u64)>)
        requires
            self.wf(),
        ensures
            self.window().ordered().len() == 0 ==> r is None,
            self.window().ordered().len() == self.window().capacity() ==> r == Some(
                (self.full_lower() as usize, self.full_higher() as usize, self.full_frac()),
            ),
            r matches Some(p) ==> {
                &&& p.0 < self.window().ordered().len()
                &&& p.1 == higher_of(p.0 as int, self.window().ordered().len() as int)
            },
            arithmetic.exact() ==> r == self.prepared_now::<A>(),
    {
        if self.sorted_window.len() < self.window_size {
            match Self::place(self.q, self.sorted_window.len(), arithmetic) {
                Some((lower, frac)) => self.prepare_at(lower, frac),
                None => None,
            }
        } else {
            self.prepare_at(self.lower, self.frac)
        }
    }

    /// The quantile: `low + (high - low) * frac`, where `low` and `high`
    /// are the values at the two ranks and `frac` is the weight. `None`
    /// where the window is empty or the arithmetic gives no rank of it.
    pub fn get<A: Arithmetic>(&self, arithmetic: &A) -> (r: Option<u64>)
        requires
            self.wf(),
        ensures
            self.window().ordered().len() == 0 ==> r is None,
            self.window().ordered().len() == self.window().capacity() ==> r is Some,
            arithmetic.exact() ==> r == self.read_now::<A>(),
    {
        let place: Option<(usize, u64)> = if self.sorted_window.len() < self.window_size {
            Self::place(self.q, self.sorted_window.len(), arithmetic)
        } else {
            Some((self.lower, self.frac))
        };
        match place {
            Some((lower, frac)) => match self.read_at(lower, frac) {
                Some(read) => Some(
                    arithmetic.sum(
                        read.low,
                        arithmetic.product(arithmetic.difference(read.high, read.low), read.frac),
                    ),
                ),
                None => None,
            },
            None => None,
        }
    }

    /// The two ranks and the weight that the quantile is read with, where
    /// `lower` and `frac` are the rank and the weight for the present
    /// length. `None` where there is nothing to read.
    pub fn prepare_at(&self, lower: usize, frac: u64) -> (r: Option<(usize, usize, u64)>)
        requires
            self.wf(),
        ensures
            match r {
                Some(p) => {
                    &&& self.readable(lower as int)
                    &&& (p.0 as int, p.1 as int, p.2) == self.prepared(lower as int, frac)
                    &&& p.0 < self.window().ordered().len()
                    &&& p.1 < self.window().ordered().len()
                },
                None => !self.readable(lower as int),
            },
    {
        let len: usize = self.sorted_window.len();
        if len == 0 {
            return None;
        }
        if len < self.window_size {
            if lower >= len {
                return None;
            }
            let mut higher: usize = lower + 1;
            if higher > len - 1 {
                higher = len - 1;
            }
            return Some((lower, higher, frac));
        }
        Some((self.lower, self.higher, self.frac))
    }

    /// What the quantile is read from, where `lower` and `frac` are the
    /// rank and the weight for the present length: the values at the two
    /// ranks, and the weight. `None` where there is nothing to read.
    pub fn read_at(&self, lower: usize, frac: u64) -> (r: Option<Interpolation>)
        requires
            self.wf(),
        ensures
            match r {
                Some(i) => {
                    &&& self.readable(lower as int)
                    &&& i.low == bits_of(
                        self.window().ordered()[self.prepared(lower as int, frac).0] as int,
                    )
                    &&& i.high == bits_of(
                        self.window().ordered()[self.prepared(lower as int, frac).1] as int,
                    )
                    &&& i.frac == self.prepared(lower as int, frac).2
                },
                None => !self.readable(lower as int),
            },
    {
        match self.prepare_at(lower, frac) {
            Some((low, high, weight)) => Some(
                Interpolation {
                    low: self.sorted_window.index(low),
                    high: self.sorted_window.index(high),
                    frac: weight,
                },
            ),
            None => None,
        }
    }
}

/// A copy of a vector of patterns.
fn copy_of(values: &Vec<u64>) -> (r: Vec<u64>)
    ensures
        r@ == values@,
{
    let mut r: Vec<u64> = Vec::new();
    let mut i: usize = 0;
    while i < values.len()
        invariant
            i <= values@.len(),
            r@ == values@.subrange(0, i as int),
        decreases values@.len() - i,
    {
        r.push(values[i]);
        assert(values@.subrange(0, i as int).push(values@[i as int]) =~= values@.subrange(
            0,
            i + 1,
        ));
        i += 1;
    }
    assert(values@.subrange(0, i as int) =~= values@);
    r
}

/// An estimator that is stored and restored is the same estimator: the
/// state of a well-formed estimator is one that `restore` accepts, and the
/// keys of its heights are the estimator's. So the estimator that `restore`
/// makes of it has the same quantile, markers and desired positions, and
/// takes every later observation as the first one would.
pub proof fn lemma_quantile_state_round_trip(e: Quantile)
    requires
        e.wf(),
    ensures
        is_fraction(e.quantile()),
        all_numbers(patterns(e@.heights)),
        shaped(e.increments(), e.targets(), e@.positions, patterns(e@.heights), e@.tracking),
        keys(patterns(e@.heights)) == e@.heights,
{
    lemma_keys_of_patterns(e@.heights);
}

/// A reader that is stored and restored is the same reader: the state of a
/// well-formed reader is one that `restore` accepts, and the keys of its
/// window are the reader's.
pub proof fn lemma_rolling_quantile_state_round_trip(e: RollingQuantile)
    requires
        e.wf(),
    ensures
        is_fraction(e.quantile()),
        e.size() >= 1,
        e.full_lower() < e.size(),
        e.full_higher() == higher_of(e.full_lower(), e.size() as int),
        e.window().capacity() == e.size(),
        consistent(
            patterns(e.window().ordered()),
            patterns(e.window().arrivals()),
            e.size(),
        ),
        keys(patterns(e.window().ordered())) == e.window().ordered(),
        keys(patterns(e.window().arrivals())) == e.window().arrivals(),
{
    crate::sorted_window::lemma_state_round_trip(e.window());
}

} // verus!
