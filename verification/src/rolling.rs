//! A statistic over the last observations of a stream, made from a running
//! statistic that can take observations back.
use crate::stream::{last_n, lemma_replay_is_tail, replay, slide};
use crate::stats::RollableUnivariate;
use std::collections::VecDeque;
use vstd::prelude::*;

verus! {

/// Wraps a running statistic so that it reports on the last `window_size`
/// observations only.
pub struct Rolling<'a, U: RollableUnivariate<T>, T: Copy> {
    to_roll: &'a mut U,
    window_size: usize,
    window: VecDeque<T>,
}

impl<'a, U: RollableUnivariate<T>, T: Copy> Rolling<'a, U, T> {
    /// The observations in the window, oldest first.
    pub closed spec fn window(&self) -> Seq<T> {
        self.window@
    }

    /// The number of observations that the window holds when full.
    pub closed spec fn capacity(&self) -> nat {
        self.window_size as nat
    }

    /// The wrapped statistic.
    pub closed spec fn inner(&self) -> U {
        *self.to_roll
    }

    /// The invariant: the window can hold something and never holds more
    /// than `capacity` observations.
    pub open spec fn wf(&self) -> bool {
        &&& self.capacity() >= 1
        &&& self.window().len() <= self.capacity()
    }

    /// Whether the wrapped statistic accounts for exactly the observations
    /// in the window.
    pub open spec fn faithful(&self) -> bool {
        self.inner().accounts_for(self.window())
    }

    /// Wraps a statistic. A window size of zero is refused. The wrapper is
    /// faithful where the statistic is new.
    pub fn new(to_roll: &'a mut U, window_size: usize) -> (r: Result<Self, &'static str>)
        ensures
            match r {
                Ok(w) => {
                    &&& window_size >= 1
                    &&& w.wf()
                    &&& w.capacity() == window_size
                    &&& w.window() == Seq::<T>::empty()
                    &&& w.inner() == *old(to_roll)
                    &&& old(to_roll).accounts_for(Seq::empty()) ==> w.faithful()
                },
                Err(e) => window_size == 0 && e@ == "Window size should not equal to 0"@,
            },
    {
        if window_size == 0 {
            proof {
                reveal_strlit("Window size should not equal to 0");
            }
            return Err("Window size should not equal to 0");
        }
        Ok(Rolling { to_roll, window_size, window: VecDeque::new() })
    }

    /// Takes one more observation. Where the window is full, the wrapped
    /// statistic first takes the oldest one back. If it fails to, its error
    /// is handed on, the window is as before, and the wrapper may no longer
    /// be faithful.
    pub fn update(&mut self, x: T) -> (r: Result<(), &'static str>)
        requires
            old(self).wf(),
        ensures
            final(self).capacity() == old(self).capacity(),
            match r {
                Ok(()) => {
                    &&& final(self).wf()
                    &&& final(self).window() == slide(old(self).window(), old(self).capacity(), x)
                    &&& old(self).faithful() ==> final(self).faithful()
                },
                Err(_) => {
                    &&& final(self).wf()
                    &&& old(self).window().len() == old(self).capacity()
                    &&& final(self).window() == old(self).window()
                },
            },
    {
        if self.window.len() == self.window_size {
            let oldest: T = self.window[0];
            match self.to_roll.revert(oldest) {
                Ok(()) => (),
                Err(err) => {
                    return Err(err);
                },
            }
            self.window.pop_front();
            self.window.push_back(x);
        } else {
            self.window.push_back(x);
        }
        self.to_roll.update(x);
        Ok(())
    }

    /// What the wrapped statistic reports: where the wrapper is faithful,
    /// the statistic over the observations in the window.
    pub fn get(&self) -> (r: T)
        ensures
            self.faithful() ==> r == U::value_of(self.window()),
    {
        self.to_roll.get()
    }

    /// The number of observations in the window.
    pub fn len(&self) -> (n: usize)
        ensures
            n == self.window().len(),
    {
        self.window.len()
    }
}

/// After any stream, the statistic in a faithful wrapper accounts for the
/// last `capacity` observations only, or for all of them while there are
/// fewer. So it reports what a new statistic of its kind reports that was
/// fed those alone: `get` gives `U::value_of` of them.
pub proof fn lemma_rolling_is_statistic_of_tail<'a, U: RollableUnivariate<T>, T: Copy>(
    rolling: &Rolling<'a, U, T>,
    stream: Seq<T>,
)
    requires
        rolling.wf(),
        rolling.faithful(),
        rolling.window() == replay(rolling.capacity(), stream),
    ensures
        rolling.window() == last_n(stream, rolling.capacity()),
        rolling.inner().accounts_for(last_n(stream, rolling.capacity())),
        U::value_of(rolling.window()) == U::value_of(last_n(stream, rolling.capacity())),
{
    lemma_replay_is_tail(rolling.capacity(), stream);
}

} // verus!
