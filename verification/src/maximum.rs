//! The largest observation of a stream, and of its last observations.
use crate::ieee::{bits_of, from_key, is_key, is_nan, key_of, to_key};
use crate::order::sorted_of;
use crate::sorted_window::{
    all_numbers, consistent, keys, patterns, SortedWindow, WindowError, WindowState,
};
use crate::stream::slide;
use vstd::prelude::*;

verus! {

/// The order key of the most negative finite double, which a maximum starts
/// from.
pub const SMALLEST: i64 = -0x7FEF_FFFF_FFFF_FFFF;

/// The largest observation seen.
#[derive(Clone, Copy, Debug)]
pub struct Max {
    max: i64,
}

impl Max {
    /// The order key of the maximum.
    pub closed spec fn key(&self) -> i64 {
        self.max
    }

    /// The invariant: the maximum is a number.
    pub open spec fn wf(&self) -> bool {
        is_key(self.key() as int)
    }

    /// A maximum that has seen nothing: the most negative finite double.
    pub fn new() -> (m: Self)
        ensures
            m.wf(),
            m.key() == SMALLEST,
    {
        Max { max: SMALLEST }
    }

    /// A maximum that stands at the given value, or `None` for a NaN.
    pub fn with_value(value: u64) -> (r: Option<Self>)
        ensures
            r is None <==> is_nan(value),
            r matches Some(m) ==> m.wf() && m.key() == key_of(value),
    {
        match to_key(value) {
            Some(k) => Some(Max { max: k }),
            None => None,
        }
    }

    /// Takes one more observation. A NaN is above nothing and changes
    /// nothing.
    pub fn update(&mut self, x: u64)
        requires
            old(self).wf(),
        ensures
            final(self).wf(),
            final(self).key() == if !is_nan(x) && key_of(x) > old(self).key() {
                key_of(x) as i64
            } else {
                old(self).key()
            },
    {
        match to_key(x) {
            Some(k) => if self.max < k {
                self.max = k;
            },
            None => {},
        }
    }

    /// The maximum.
    pub fn get(&self) -> (r: u64)
        requires
            self.wf(),
        ensures
            r == bits_of(self.key() as int),
    {
        from_key(self.max)
    }
}

/// The largest of the last observations.
pub struct RollingMax {
    sorted_window: SortedWindow,
}

impl RollingMax {
    /// The window of the last observations.
    pub closed spec fn window(&self) -> SortedWindow {
        self.sorted_window
    }

    /// The invariant: that of the window.
    pub open spec fn wf(&self) -> bool {
        self.window().wf()
    }

    /// A maximum over the last `window_size` observations.
    pub fn new(window_size: usize) -> (m: Self)
        ensures
            m.wf(),
            m.window().capacity() == window_size,
            m.window().arrivals() == Seq::<i64>::empty(),
            m.window().ordered() == Seq::<i64>::empty(),
    {
        RollingMax { sorted_window: SortedWindow::new(window_size) }
    }

    /// The window as plain values.
    pub fn state(&self) -> (s: WindowState)
        requires
            self.wf(),
        ensures
            s.sorted_window@ == patterns(self.window().ordered()),
            s.unsorted_window@ == patterns(self.window().arrivals()),
            s.window_size == self.window().capacity(),
    {
        self.sorted_window.state()
    }

    /// The maximum over the window that a state describes, where it
    /// describes one.
    pub fn restore(state: &WindowState) -> (r: Result<Self, WindowError>)
        ensures
            match r {
                Ok(m) => {
                    &&& consistent(
                        state.sorted_window@,
                        state.unsorted_window@,
                        state.window_size as nat,
                    )
                    &&& m.wf()
                    &&& m.window().capacity() == state.window_size
                    &&& m.window().ordered() == keys(state.sorted_window@)
                    &&& m.window().arrivals() == keys(state.unsorted_window@)
                },
                Err(e) => {
                    &&& !consistent(
                        state.sorted_window@,
                        state.unsorted_window@,
                        state.window_size as nat,
                    )
                    &&& e == if all_numbers(state.sorted_window@) && all_numbers(
                        state.unsorted_window@,
                    ) {
                        WindowError::Inconsistent
                    } else {
                        WindowError::NotANumber
                    }
                },
            },
    {
        match SortedWindow::restore(state) {
            Ok(sorted_window) => Ok(RollingMax { sorted_window }),
            Err(e) => Err(e),
        }
    }

    /// Takes one more observation into the window, as the window does.
    pub fn update(&mut self, x: u64) -> (r: Result<(), WindowError>)
        requires
            old(self).wf(),
        ensures
            final(self).wf(),
            final(self).window().capacity() == old(self).window().capacity(),
            match r {
                Ok(()) => {
                    &&& !is_nan(x)
                    &&& old(self).window().capacity() > 0
                    &&& final(self).window().arrivals() == slide(
                        old(self).window().arrivals(),
                        old(self).window().capacity(),
                        key_of(x) as i64,
                    )
                    &&& final(self).window().ordered() == sorted_of(final(self).window().arrivals())
                },
                Err(e) => {
                    &&& e == if is_nan(x) {
                        WindowError::NotANumber
                    } else {
                        WindowError::ZeroCapacity
                    }
                    &&& is_nan(x) || old(self).window().capacity() == 0
                    &&& final(self).window().arrivals() == old(self).window().arrivals()
                    &&& final(self).window().ordered() == old(self).window().ordered()
                },
            },
    {
        self.sorted_window.push_back(x)
    }

    /// The largest value in the window, or `None` where it is empty.
    pub fn get(&self) -> (r: Option<u64>)
        requires
            self.wf(),
        ensures
            r == if self.window().ordered().len() == 0 {
                None
            } else {
                Some(bits_of(self.window().ordered().last() as int))
            },
    {
        if self.sorted_window.is_empty() {
            None
        } else {
            Some(self.sorted_window.back())
        }
    }
}

} // verus!
