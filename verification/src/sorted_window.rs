//! The last observations of a stream, held twice: in the order in which they
//! arrived and in ascending order.
use crate::ieee::{
    bits_of, from_key, is_key, is_nan, is_nan_bits, key_of, lemma_key_round_trip, to_key,
};
use crate::order::{
    ascending, lemma_ascending_is_sorted_of, lemma_insert_keeps_ascending,
    lemma_remove_keeps_ascending, lower_bound, sorted_of,
};
use crate::stream::{last_n, lemma_replay_is_tail, replay, slide};
use std::collections::VecDeque;
use vstd::prelude::*;
use vstd::seq_lib::{to_multiset_build, to_multiset_contains, to_multiset_insert, to_multiset_remove};

verus! {

/// Why a push was refused.
#[derive(Clone, Copy, Debug, PartialEq, Eq, Structural)]
pub enum WindowError {
    /// The value is a NaN, which has no place in an order.
    NotANumber,
    /// The window was made with capacity zero and can hold nothing.
    ZeroCapacity,
    /// The two views of a state to restore do not hold the same values, or
    /// the ascending one is not ascending, or there are too many.
    Inconsistent,
}

/// A window as plain values, field for field: what is written out and read
/// back when a window is stored.
pub struct WindowState {
    /// The values held, in ascending order.
    pub sorted_window: Vec<u64>,
    /// The values held, oldest first.
    pub unsorted_window: Vec<u64>,
    /// The capacity.
    pub window_size: usize,
}

/// The order keys of a sequence of patterns.
pub open spec fn keys(bits: Seq<u64>) -> Seq<i64> {
    Seq::new(bits.len(), |i: int| key_of(bits[i]) as i64)
}

/// Whether no pattern of the sequence is a NaN.
pub open spec fn all_numbers(bits: Seq<u64>) -> bool {
    forall|i: int| 0 <= i < bits.len() ==> !is_nan(#[trigger] bits[i])
}

/// Whether two sequences of patterns and a capacity are the state of a
/// window.
pub open spec fn consistent(sorted: Seq<u64>, unsorted: Seq<u64>, window_size: nat) -> bool {
    &&& all_numbers(sorted)
    &&& all_numbers(unsorted)
    &&& unsorted.len() <= window_size
    &&& sorted.len() == unsorted.len()
    &&& ascending(keys(sorted))
    &&& keys(sorted).to_multiset() == keys(unsorted).to_multiset()
}

/// A sliding window of fixed capacity over a stream of doubles. It holds the
/// order key of each observation.
pub struct SortedWindow {
    sorted_window: VecDeque<i64>,
    unsorted_window: VecDeque<i64>,
    window_size: usize,
}

/// The patterns that a sequence of keys stands for.
pub open spec fn patterns(keys: Seq<i64>) -> Seq<u64> {
    Seq::new(keys.len(), |i: int| bits_of(keys[i] as int))
}

impl SortedWindow {
    /// The keys held, in ascending order.
    pub closed spec fn ordered(&self) -> Seq<i64> {
        self.sorted_window@
    }

    /// The keys held, oldest first.
    pub closed spec fn arrivals(&self) -> Seq<i64> {
        self.unsorted_window@
    }

    /// The largest number of observations that the window holds at once.
    pub closed spec fn capacity(&self) -> nat {
        self.window_size as nat
    }

    /// The invariant: both views hold the same keys, each as often; the
    /// ordered view is ascending; there are never more than `capacity`.
    pub open spec fn wf(&self) -> bool {
        &&& self.ordered().len() == self.arrivals().len()
        &&& self.arrivals().len() <= self.capacity()
        &&& ascending(self.ordered())
        &&& self.ordered().to_multiset() == self.arrivals().to_multiset()
        &&& forall|i: int| 0 <= i < self.ordered().len() ==> is_key(#[trigger] self.ordered()[i] as int)
        &&& forall|i: int| 0 <= i < self.arrivals().len() ==> is_key(#[trigger] self.arrivals()[i] as int)
    }

    /// An empty window that will hold up to `window_size` observations.
    pub fn new(window_size: usize) -> (w: Self)
        ensures
            w.wf(),
            w.capacity() == window_size,
            w.ordered() == Seq::<i64>::empty(),
            w.arrivals() == Seq::<i64>::empty(),
    {
        SortedWindow {
            sorted_window: VecDeque::new(),
            unsorted_window: VecDeque::new(),
            window_size,
        }
    }

    /// The capacity that the window was made with.
    pub fn window_size(&self) -> (n: usize)
        ensures
            n == self.capacity(),
    {
        self.window_size
    }

    /// The number of observations held.
    pub fn len(&self) -> (n: usize)
        ensures
            n == self.ordered().len(),
    {
        self.sorted_window.len()
    }

    /// Whether the window holds nothing.
    pub fn is_empty(&self) -> (r: bool)
        ensures
            r == (self.ordered().len() == 0),
    {
        self.sorted_window.len() == 0
    }

    /// The smallest value held.
    pub fn front(&self) -> (r: u64)
        requires
            self.wf(),
            self.ordered().len() > 0,
        ensures
            r == bits_of(self.ordered()[0] as int),
    {
        from_key(self.sorted_window[0])
    }

    /// The largest value held.
    pub fn back(&self) -> (r: u64)
        requires
            self.wf(),
            self.ordered().len() > 0,
        ensures
            r == bits_of(self.ordered().last() as int),
    {
        from_key(self.sorted_window[self.sorted_window.len() - 1])
    }

    /// The value of rank `index`: the one with `index` values before it in
    /// ascending order.
    pub fn index(&self, index: usize) -> (r: u64)
        requires
            self.wf(),
            index < self.ordered().len(),
        ensures
            r == bits_of(self.ordered()[index as int] as int),
    {
        from_key(self.sorted_window[index])
    }

    /// Takes one more observation. Where the window is full, the oldest one
    /// leaves first. A NaN is refused, and so is any push into a window of
    /// capacity zero; a refused push changes nothing.
    pub fn push_back(&mut self, value: u64) -> (r: Result<(), WindowError>)
        requires
            old(self).wf(),
        ensures
            final(self).wf(),
            final(self).capacity() == old(self).capacity(),
            match r {
                Ok(()) => {
                    &&& !is_nan(value)
                    &&& old(self).capacity() > 0
                    &&& final(self).arrivals() == slide(
                        old(self).arrivals(),
                        old(self).capacity(),
                        key_of(value) as i64,
                    )
                    &&& final(self).ordered() == sorted_of(final(self).arrivals())
                },
                Err(WindowError::NotANumber) => {
                    &&& is_nan(value)
                    &&& final(self).arrivals() == old(self).arrivals()
                    &&& final(self).ordered() == old(self).ordered()
                },
                Err(WindowError::ZeroCapacity) => {
                    &&& !is_nan(value)
                    &&& old(self).capacity() == 0
                    &&& final(self).arrivals() == old(self).arrivals()
                    &&& final(self).ordered() == old(self).ordered()
                },
                Err(WindowError::Inconsistent) => false,
            },
    {
        let key: i64 = match to_key(value) {
            Some(k) => k,
            None => {
                return Err(WindowError::NotANumber);
            },
        };
        if self.window_size == 0 {
            return Err(WindowError::ZeroCapacity);
        }
        if self.sorted_window.len() == self.window_size {
            self.evict();
        }
        let ghost kept = self.unsorted_window@;
        let ghost before = self.sorted_window@;
        self.unsorted_window.push_back(key);
        let sorted_pos: usize = lower_bound(&self.sorted_window, key);
        self.sorted_window.insert(sorted_pos, key);
        proof {
            to_multiset_build(kept, key);
            to_multiset_insert(before, sorted_pos as int, key);
            lemma_insert_keeps_ascending(before, key);
            lemma_ascending_is_sorted_of(self.sorted_window@, self.unsorted_window@);
        }
        Ok(())
    }

    /// Drops the oldest observation from both views.
    fn evict(&mut self)
        requires
            old(self).wf(),
            old(self).arrivals().len() > 0,
        ensures
            final(self).wf(),
            final(self).capacity() == old(self).capacity(),
            final(self).arrivals() == old(self).arrivals().drop_first(),
    {
        let ghost arrivals = self.unsorted_window@;
        let ghost before = self.sorted_window@;
        if let Some(oldest) = self.unsorted_window.pop_front() {
            let pos_to_remove: usize = lower_bound(&self.sorted_window, oldest);
            proof {
                to_multiset_contains(before, oldest);
                to_multiset_contains(arrivals, oldest);
                assert(arrivals.contains(oldest)) by {
                    assert(arrivals[0] == oldest);
                }
                let at = choose|i: int| 0 <= i < before.len() && before[i] == oldest;
                assert(pos_to_remove <= at);
                assert(before[pos_to_remove as int] <= before[at]);
                assert(before[pos_to_remove as int] == oldest);
                assert(arrivals.remove(0) =~= arrivals.drop_first());
                to_multiset_remove(arrivals, 0);
                to_multiset_remove(before, pos_to_remove as int);
                lemma_remove_keeps_ascending(before, pos_to_remove as int);
            }
            self.sorted_window.remove(pos_to_remove);
        }
    }

    /// The window as plain values.
    pub fn state(&self) -> (s: WindowState)
        requires
            self.wf(),
        ensures
            s.sorted_window@ == patterns(self.ordered()),
            s.unsorted_window@ == patterns(self.arrivals()),
            s.window_size == self.capacity(),
    {
        WindowState {
            sorted_window: self.sorted_values(),
            unsorted_window: self.unsorted_values(),
            window_size: self.window_size,
        }
    }

    /// The window that a state describes. A state that no window has is
    /// refused: one with a NaN in it, and one that is not consistent.
    pub fn restore(state: &WindowState) -> (r: Result<Self, WindowError>)
        ensures
            match r {
                Ok(w) => {
                    &&& consistent(
                        state.sorted_window@,
                        state.unsorted_window@,
                        state.window_size as nat,
                    )
                    &&& w.wf()
                    &&& w.capacity() == state.window_size
                    &&& w.ordered() == keys(state.sorted_window@)
                    &&& w.arrivals() == keys(state.unsorted_window@)
                },
                Err(e) => {
                    &&& !consistent(
                        state.sorted_window@,
                        state.unsorted_window@,
                        state.window_size as nat,
                    )
                    &&& e == if all_numbers(state.sorted_window@) && all_numbers(
                        state.unsorted_window@,
                    ) {
                        WindowError::Inconsistent
                    } else {
                        WindowError::NotANumber
                    }
                },
            },
    {
        let ghost sorted = state.sorted_window@;
        let ghost unsorted = state.unsorted_window@;
        if !Self::holds_numbers(&state.sorted_window) || !Self::holds_numbers(
            &state.unsorted_window,
        ) {
            return Err(WindowError::NotANumber);
        }
        if state.unsorted_window.len() > state.window_size || state.sorted_window.len()
            != state.unsorted_window.len() {
            return Err(WindowError::Inconsistent);
        }
        let mut window = SortedWindow::new(state.window_size);
        let mut i: usize = 0;
        while i < state.unsorted_window.len()
            invariant
                i <= unsorted.len(),
                unsorted == state.unsorted_window@,
                unsorted.len() <= state.window_size,
                all_numbers(unsorted),
                window.wf(),
                window.capacity() == state.window_size,
                window.arrivals() == keys(unsorted.subrange(0, i as int)),
            decreases unsorted.len() - i,
        {
            let ghost before = window.arrivals();
            let pushed = window.push_back(state.unsorted_window[i]);
            assert(!is_nan(unsorted[i as int]));
            assert(pushed is Ok);
            assert(before.push(key_of(unsorted[i as int]) as i64) =~= keys(
                unsorted.subrange(0, i + 1),
            ));
            i += 1;
        }
        assert(unsorted.subrange(0, i as int) =~= unsorted);
        let mut j: usize = 0;
        while j < state.sorted_window.len()
            invariant
                j <= sorted.len(),
                sorted == state.sorted_window@,
                unsorted == state.unsorted_window@,
                unsorted.len() <= state.window_size,
                window.capacity() == state.window_size,
                sorted.len() == unsorted.len(),
                window.wf(),
                window.ordered().len() == sorted.len(),
                all_numbers(sorted),
                all_numbers(unsorted),
                window.arrivals() == keys(unsorted),
                forall|k: int| 0 <= k < j ==> window.ordered()[k] == key_of(sorted[k]),
            decreases sorted.len() - j,
        {
            assert(!is_nan(sorted[j as int]));
            let same: bool = match to_key(state.sorted_window[j]) {
                Some(key) => key == window.sorted_window[j],
                None => false,
            };
            if !same {
                proof {
                    if consistent(sorted, unsorted, state.window_size as nat) {
                        lemma_ascending_is_sorted_of(keys(sorted), keys(unsorted));
                        lemma_ascending_is_sorted_of(window.ordered(), window.arrivals());
                        assert(keys(sorted) == window.ordered());
                        assert(keys(sorted)[j as int] == key_of(sorted[j as int]) as i64);
                        assert(window.ordered()[j as int] == window.sorted_window@[j as int]);
                        assert(false);
                    }
                }
                return Err(WindowError::Inconsistent);
            }
            j += 1;
        }
        assert(window.ordered() =~= keys(sorted));
        Ok(window)
    }

    /// Tells whether no pattern of `values` is a NaN.
    fn holds_numbers(values: &Vec<u64>) -> (r: bool)
        ensures
            r == all_numbers(values@),
    {
        let mut i: usize = 0;
        while i < values.len()
            invariant
                i <= values@.len(),
                forall|k: int| 0 <= k < i ==> !is_nan(#[trigger] values@[k]),
            decreases values@.len() - i,
        {
            if is_nan_bits(values[i]) {
                return false;
            }
            i += 1;
        }
        true
    }

    /// The values held, in ascending order.
    pub fn sorted_values(&self) -> (r: Vec<u64>)
        requires
            self.wf(),
        ensures
            r@ == patterns(self.ordered()),
    {
        let r = Self::values_of(&self.sorted_window);
        assert(r@ =~= patterns(self.ordered()));
        r
    }

    /// The values held, oldest first.
    pub fn unsorted_values(&self) -> (r: Vec<u64>)
        requires
            self.wf(),
        ensures
            r@ == patterns(self.arrivals()),
    {
        let r = Self::values_of(&self.unsorted_window);
        assert(r@ =~= patterns(self.arrivals()));
        r
    }

    fn values_of(keys: &VecDeque<i64>) -> (r: Vec<u64>)
        requires
            forall|i: int| 0 <= i < keys@.len() ==> is_key(#[trigger] keys@[i] as int),
        ensures
            r@.len() == keys@.len(),
            forall|i: int| 0 <= i < r@.len() ==> r@[i] == bits_of(keys@[i] as int),
    {
        let mut r: Vec<u64> = Vec::new();
        let mut i: usize = 0;
        while i < keys.len()
            invariant
                i <= keys@.len(),
                r@.len() == i,
                forall|j: int| 0 <= j < keys@.len() ==> is_key(#[trigger] keys@[j] as int),
                forall|j: int| 0 <= j < i ==> r@[j] == bits_of(keys@[j] as int),
            decreases keys@.len() - i,
        {
            r.push(from_key(keys[i]));
            i += 1;
        }
        r
    }
}

/// At any point of any stream, the ascending view of a window of capacity
/// at least one is the sorted list of the last `capacity` observations
/// pushed, or of all of them while there are fewer.
pub proof fn lemma_window_is_sorted_tail(w: SortedWindow, stream: Seq<i64>)
    requires
        w.wf(),
        w.capacity() >= 1,
        w.arrivals() == replay(w.capacity(), stream),
    ensures
        w.arrivals() == last_n(stream, w.capacity()),
        w.ordered() == sorted_of(last_n(stream, w.capacity())),
        w.ordered().len() == if stream.len() <= w.capacity() {
            stream.len()
        } else {
            w.capacity()
        },
{
    lemma_replay_is_tail(w.capacity(), stream);
    lemma_ascending_is_sorted_of(w.ordered(), w.arrivals());
}

/// A window that is stored and restored is the same window: the state of a
/// well-formed window is consistent, and its keys are those of the window.
/// So `restore` accepts what `state` gives, and the window it makes has the
/// same capacity and the same two views.
pub proof fn lemma_state_round_trip(w: SortedWindow)
    requires
        w.wf(),
    ensures
        consistent(patterns(w.ordered()), patterns(w.arrivals()), w.capacity()),
        keys(patterns(w.ordered())) == w.ordered(),
        keys(patterns(w.arrivals())) == w.arrivals(),
{
    lemma_keys_of_patterns(w.ordered());
    lemma_keys_of_patterns(w.arrivals());
}

/// The patterns of order keys are numbers, and have those keys.
pub proof fn lemma_keys_of_patterns(s: Seq<i64>)
    requires
        forall|i: int| 0 <= i < s.len() ==> is_key(#[trigger] s[i] as int),
    ensures
        all_numbers(patterns(s)),
        keys(patterns(s)) == s,
{
    assert forall|i: int| 0 <= i < s.len() implies !is_nan(#[trigger] patterns(s)[i]) && key_of(
        patterns(s)[i],
    ) == s[i] by {
        lemma_key_round_trip(s[i] as int);
    }
    assert(keys(patterns(s)) =~= s);
}

} // verus!
