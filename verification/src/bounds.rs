//! The estimate of the P-square estimator never leaves the range of the
//! observations, and its markers stay in order.
//!
//! The heights that the arithmetic computes are inputs here. The parabolic
//! candidate is checked before it is taken. The linear candidate is taken
//! as it comes, so the law asks of it what exact arithmetic gives: that it
//! lies between the marker's height and that of the marker it moves
//! towards.
use crate::ieee::{is_key, is_nan, key_of, lemma_key_round_trip, INFINITY};
use crate::markers::{
    accepted, answered, clamped, estimate, fresh, observed, planned, step_of, updated, Answer,
    Markers, Update,
};
use crate::order::{ascending, lemma_sorted_of, lemma_within_same_keys, sorted_of, within};
use vstd::prelude::*;

verus! {

/// Whether `x` lies between `a` and `b`, whichever of the two is larger.
pub open spec fn between(a: int, x: int, b: int) -> bool {
    (a <= x <= b) || (b <= x <= a)
}

/// Whether the linear candidate for marker `i`, where it is taken, lies
/// between the marker and the one beside it.
pub open spec fn tame(m: Markers, i: int, a: Answer) -> bool {
    match planned(m.positions, i, a.drift) {
        None => true,
        Some(direction) => {
            ||| accepted(m.heights, i, a.parabolic)
            ||| is_nan(a.linear)
            ||| between(
                m.heights[i] as int,
                key_of(a.linear),
                m.heights[i + step_of(direction)] as int,
            )
        },
    }
}

/// Whether every linear candidate that the three adjustments take is tame.
pub open spec fn tame_all(m: Markers, answers: Seq<Answer>) -> bool {
    let m1 = answered(m, 1, answers[0]);
    let m2 = answered(m1, 2, answers[1]);
    tame(m, 1, answers[0]) && tame(m1, 2, answers[1]) && tame(m2, 3, answers[2])
}

/// Whether every linear candidate that the update takes is tame.
pub open spec fn tame_update(m: Markers, u: Update) -> bool {
    m.heights.len() == 5 ==> tame_all(observed(m, u.key), u.answers)
}

/// The markers of a new estimator after the given updates.
pub open spec fn run(updates: Seq<Update>) -> Markers
    decreases updates.len(),
{
    if updates.len() == 0 {
        fresh()
    } else {
        updated(run(updates.drop_last()), updates.last())
    }
}

/// Whether every linear candidate taken in the course of the updates is
/// tame.
pub open spec fn tame_run(updates: Seq<Update>) -> bool
    decreases updates.len(),
{
    updates.len() == 0 || (tame_run(updates.drop_last()) && tame_update(
        run(updates.drop_last()),
        updates.last(),
    ))
}

/// What the proof carries from update to update.
pub open spec fn bounded(m: Markers, lo: int, hi: int) -> bool {
    &&& m.heights.len() <= 5
    &&& m.tracking ==> m.heights.len() == 5
    &&& within(m.heights, lo, hi)
}

/// An observation within the range leaves the heights within it.
pub proof fn lemma_observed_bounded(m: Markers, x: i64, lo: int, hi: int)
    requires
        bounded(m, lo, hi),
        lo <= x <= hi,
    ensures
        bounded(observed(m, x), lo, hi),
        observed(m, x).heights.len() >= 1,
{
    if m.heights.len() != 5 {
        let pushed = m.heights.push(x);
        assert(within(pushed, lo, hi));
        lemma_sorted_of(pushed);
        lemma_within_same_keys(pushed, sorted_of(pushed), lo, hi);
    } else {
        assert(within(clamped(m.heights, x), lo, hi));
    }
}

/// The adjustment of a marker with a tame answer leaves the heights within
/// the range.
pub proof fn lemma_answered_bounded(m: Markers, i: int, a: Answer, lo: int, hi: int)
    requires
        bounded(m, lo, hi),
        m.heights.len() == 5,
        1 <= i <= 3,
        tame(m, i, a),
    ensures
        bounded(answered(m, i, a), lo, hi),
        answered(m, i, a).heights.len() == 5,
        answered(m, i, a).tracking == m.tracking,
{
    let after = answered(m, i, a);
    match planned(m.positions, i, a.drift) {
        None => {},
        Some(direction) => {
            assert(lo <= m.heights[i - 1] <= hi);
            assert(lo <= m.heights[i] <= hi);
            assert(lo <= m.heights[i + 1] <= hi);
            assert forall|j: int| 0 <= j < after.heights.len() implies lo
                <= #[trigger] after.heights[j] <= hi by {
                if j != i {
                    assert(after.heights[j] == m.heights[j]);
                }
            }
        },
    }
}

/// The adjustment of a marker with a tame answer keeps the heights in
/// ascending order: the parabolic candidate is taken only strictly between
/// the heights beside the marker, and a tame linear candidate lies between
/// the marker and the one it moves towards.
pub proof fn lemma_answered_ascending(m: Markers, i: int, a: Answer)
    requires
        m.heights.len() == 5,
        ascending(m.heights),
        1 <= i <= 3,
        tame(m, i, a),
    ensures
        ascending(answered(m, i, a).heights),
{
    let after = answered(m, i, a).heights;
    assert(m.heights[i - 1] <= m.heights[i] <= m.heights[i + 1]);
    assert forall|j: int, k: int| 0 <= j < k < after.len() implies after[j] <= after[k] by {
        assert(m.heights[j] <= m.heights[k]);
        if j == i {
            assert(m.heights[i + 1] <= m.heights[k]);
        } else if k == i {
            assert(m.heights[j] <= m.heights[i - 1]);
        }
    }
}

/// An observation leaves ascending heights ascending.
pub proof fn lemma_observed_ascending(m: Markers, x: i64)
    requires
        m.heights.len() <= 5,
        ascending(m.heights),
    ensures
        ascending(observed(m, x).heights),
{
    if m.heights.len() != 5 {
        lemma_sorted_of(m.heights.push(x));
    } else {
        let after = clamped(m.heights, x);
        assert forall|j: int, k: int| 0 <= j < k < after.len() implies after[j] <= after[k] by {
            assert(m.heights[j] <= m.heights[k]);
            assert(m.heights[0] <= m.heights[k]);
            assert(m.heights[j] <= m.heights[4]);
        }
    }
}

/// One whole update with an observation within the range and tame answers
/// leaves the heights within the range.
pub proof fn lemma_updated_bounded(m: Markers, u: Update, lo: int, hi: int)
    requires
        bounded(m, lo, hi),
        lo <= u.key <= hi,
        tame_update(m, u),
    ensures
        bounded(updated(m, u), lo, hi),
        updated(m, u).heights.len() >= 1,
{
    lemma_observed_bounded(m, u.key, lo, hi);
    if m.heights.len() == 5 {
        let m0 = observed(m, u.key);
        let m1 = answered(m0, 1, u.answers[0]);
        let m2 = answered(m1, 2, u.answers[1]);
        let m3 = answered(m2, 3, u.answers[2]);
        lemma_answered_bounded(m0, 1, u.answers[0], lo, hi);
        lemma_answered_bounded(m1, 2, u.answers[1], lo, hi);
        lemma_answered_bounded(m2, 3, u.answers[2], lo, hi);
        lemma_sorted_of(m3.heights);
        lemma_within_same_keys(m3.heights, sorted_of(m3.heights), lo, hi);
    }
}

/// After any updates whose observations lie within a range, the heights
/// lie within it.
pub proof fn lemma_run_bounded(updates: Seq<Update>, lo: int, hi: int)
    requires
        forall|k: int| 0 <= k < updates.len() ==> lo <= (#[trigger] updates[k]).key <= hi,
        tame_run(updates),
    ensures
        bounded(run(updates), lo, hi),
        updates.len() >= 1 ==> run(updates).heights.len() >= 1,
    decreases updates.len(),
{
    if updates.len() > 0 {
        let earlier = updates.drop_last();
        assert forall|k: int| 0 <= k < earlier.len() implies lo <= (#[trigger] earlier[k]).key
            <= hi by {
            assert(earlier[k] == updates[k]);
        }
        lemma_run_bounded(earlier, lo, hi);
        assert(lo <= updates[updates.len() - 1].key <= hi);
        lemma_updated_bounded(run(earlier), updates.last(), lo, hi);
    }
}

/// For every stream of at least one observation, the estimate is a number
/// and lies between two bounds whenever every observation does: so it lies
/// between the smallest and the largest observation seen. This holds of
/// every quantile and, before the sixth observation, of every rank asked
/// for.
pub proof fn lemma_estimate_within_observations(
    updates: Seq<Update>,
    lo: int,
    hi: int,
    scaled: int,
)
    requires
        updates.len() >= 1,
        0 <= scaled,
        forall|k: int| 0 <= k < updates.len() ==> lo <= (#[trigger] updates[k]).key <= hi,
        forall|k: int|
            0 <= k < updates.len() ==> is_key((#[trigger] updates[k]).key as int),
        tame_run(updates),
    ensures
        estimate(run(updates), scaled) matches Some(e) && !is_nan(e) && lo <= key_of(e) <= hi,
{
    let infinity = INFINITY as int;
    let low = if lo < -infinity { -infinity } else { lo };
    let high = if hi > infinity { infinity } else { hi };
    lemma_run_bounded(updates, low, high);
    let m = run(updates);
    let at = if m.tracking {
        2
    } else if scaled < m.heights.len() - 1 {
        scaled
    } else {
        m.heights.len() - 1
    };
    assert(low <= m.heights[at] <= high);
    lemma_key_round_trip(m.heights[at] as int);
}

} // verus!
