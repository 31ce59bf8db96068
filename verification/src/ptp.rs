//! Peak to peak: the distance between the largest and the smallest
//! observation.
use crate::arithmetic::Arithmetic;
use crate::ieee::{bits_of, is_nan, key_of};
use crate::maximum::{Max, RollingMax, SMALLEST};
use crate::minimum::{Min, RollingMin, LARGEST};
use crate::order::sorted_of;
use crate::sorted_window::{all_numbers, consistent, keys, WindowError, WindowState};
use crate::stream::slide;
use vstd::prelude::*;

verus! {

/// The two values whose difference `max - min` is the peak to peak.
#[derive(Clone, Copy, Debug, PartialEq, Eq, Structural)]
pub struct Extremes {
    pub max: u64,
    pub min: u64,
}

/// Running peak to peak.
#[derive(Clone, Copy, Debug)]
pub struct PeakToPeak {
    pub min: Min,
    pub max: Max,
}

impl PeakToPeak {
    /// The invariant: those of the two extremes.
    pub open spec fn wf(&self) -> bool {
        self.min.wf() && self.max.wf()
    }

    /// A peak to peak that has seen nothing.
    pub fn new() -> (p: Self)
        ensures
            p.wf(),
            p.min.key() == LARGEST,
            p.max.key() == SMALLEST,
    {
        PeakToPeak { min: Min::new(), max: Max::new() }
    }

    /// Takes one more observation into both extremes.
    pub fn update(&mut self, x: u64)
        requires
            old(self).wf(),
        ensures
            final(self).wf(),
            final(self).min.key() == if !is_nan(x) && key_of(x) < old(self).min.key() {
                key_of(x) as i64
            } else {
                old(self).min.key()
            },
            final(self).max.key() == if !is_nan(x) && key_of(x) > old(self).max.key() {
                key_of(x) as i64
            } else {
                old(self).max.key()
            },
    {
        self.min.update(x);
        self.max.update(x);
    }

    /// The peak to peak: the largest observation less the smallest.
    pub fn get<A: Arithmetic>(&self, arithmetic: &A) -> (r: u64)
        requires
            self.wf(),
        ensures
            arithmetic.exact() ==> r == A::difference_of(
                bits_of(self.max.key() as int),
                bits_of(self.min.key() as int),
            ),
    {
        let extremes: Extremes = self.extremes();
        arithmetic.difference(extremes.max, extremes.min)
    }

    /// The largest and the smallest observation seen.
    pub fn extremes(&self) -> (r: Extremes)
        requires
            self.wf(),
        ensures
            r.max == bits_of(self.max.key() as int),
            r.min == bits_of(self.min.key() as int),
    {
        Extremes { max: self.max.get(), min: self.min.get() }
    }
}

impl Default for PeakToPeak {
    fn default() -> (p: Self)
        ensures
            p.wf(),
            p.min.key() == LARGEST,
            p.max.key() == SMALLEST,
    {
        PeakToPeak { min: Min::new(), max: Max::new() }
    }
}

/// Peak to peak of the last observations.
pub struct RollingPeakToPeak {
    pub min: RollingMin,
    pub max: RollingMax,
}

impl RollingPeakToPeak {
    /// The invariant: the two windows are well formed and hold the same
    /// observations.
    pub open spec fn wf(&self) -> bool {
        &&& self.min.wf()
        &&& self.max.wf()
        &&& self.min.window().capacity() == self.max.window().capacity()
        &&& self.min.window().arrivals() == self.max.window().arrivals()
        &&& self.min.window().ordered() == self.max.window().ordered()
    }

    /// A peak to peak over the last `window_size` observations.
    pub fn new(window_size: usize) -> (p: Self)
        ensures
            p.wf(),
            p.min.window().capacity() == window_size,
            p.min.window().arrivals() == Seq::<i64>::empty(),
    {
        RollingPeakToPeak { min: RollingMin::new(window_size), max: RollingMax::new(window_size) }
    }

    /// The peak to peak over the window that a state describes, where it
    /// describes one.
    pub fn restore(state: &WindowState) -> (r: Result<Self, WindowError>)
        ensures
            match r {
                Ok(p) => {
                    &&& consistent(
                        state.sorted_window@,
                        state.unsorted_window@,
                        state.window_size as nat,
                    )
                    &&& p.wf()
                    &&& p.min.window().capacity() == state.window_size
                    &&& p.min.window().ordered() == keys(state.sorted_window@)
                    &&& p.min.window().arrivals() == keys(state.unsorted_window@)
                },
                Err(e) => {
                    &&& !consistent(
                        state.sorted_window@,
                        state.unsorted_window@,
                        state.window_size as nat,
                    )
                    &&& e == if all_numbers(state.sorted_window@) && all_numbers(
                        state.unsorted_window@,
                    ) {
                        WindowError::Inconsistent
                    } else {
                        WindowError::NotANumber
                    }
                },
            },
    {
        match (RollingMin::restore(state), RollingMax::restore(state)) {
            (Ok(min), Ok(max)) => Ok(RollingPeakToPeak { min, max }),
            (Err(e), _) => Err(e),
            (_, Err(e)) => Err(e),
        }
    }

    /// Takes one more observation into both windows, as a window does. A
    /// refused observation changes neither.
    pub fn update(&mut self, x: u64) -> (r: Result<(), WindowError>)
        requires
            old(self).wf(),
        ensures
            final(self).wf(),
            final(self).min.window().capacity() == old(self).min.window().capacity(),
            match r {
                Ok(()) => {
                    &&& !is_nan(x)
                    &&& old(self).min.window().capacity() > 0
                    &&& final(self).min.window().arrivals() == slide(
                        old(self).min.window().arrivals(),
                        old(self).min.window().capacity(),
                        key_of(x) as i64,
                    )
                    &&& final(self).min.window().ordered() == sorted_of(
                        final(self).min.window().arrivals(),
                    )
                },
                Err(e) => {
                    &&& e == if is_nan(x) {
                        WindowError::NotANumber
                    } else {
                        WindowError::ZeroCapacity
                    }
                    &&& is_nan(x) || old(self).min.window().capacity() == 0
                    &&& final(self).min.window().arrivals() == old(self).min.window().arrivals()
                    &&& final(self).min.window().ordered() == old(self).min.window().ordered()
                },
            },
    {
        match self.min.update(x) {
            Ok(()) => self.max.update(x),
            Err(e) => Err(e),
        }
    }

    /// The peak to peak: the largest value in the window less the smallest,
    /// or `None` where the window is empty.
    pub fn get<A: Arithmetic>(&self, arithmetic: &A) -> (r: Option<u64>)
        requires
            self.wf(),
        ensures
            r is None <==> self.min.window().ordered().len() == 0,
            arithmetic.exact() && self.min.window().ordered().len() > 0 ==> r == Some(
                A::difference_of(
                    bits_of(self.min.window().ordered().last() as int),
                    bits_of(self.min.window().ordered()[0] as int),
                ),
            ),
    {
        match self.extremes() {
            Some(extremes) => Some(arithmetic.difference(extremes.max, extremes.min)),
            None => None,
        }
    }

    /// The largest and the smallest value in the window, or `None` where it
    /// is empty.
    pub fn extremes(&self) -> (r: Option<Extremes>)
        requires
            self.wf(),
        ensures
            r == if self.min.window().ordered().len() == 0 {
                None
            } else {
                Some(
                    (Extremes {
                        max: bits_of(self.min.window().ordered().last() as int),
                        min: bits_of(self.min.window().ordered()[0] as int),
                    }),
                )
            },
    {
        match (self.max.get(), self.min.get()) {
            (Some(max), Some(min)) => Some(Extremes { max, min }),
            _ => None,
        }
    }
}

} // verus!
