use watermill::arithmetic::Arithmetic;
use watermill::maximum::Max;
use watermill::minimum::Min;
use watermill::ptp::{PeakToPeak, RollingPeakToPeak};
use watermill::sorted_window::WindowError;

struct Ieee;

impl Arithmetic for Ieee {
    fn sum(&self, a: u64, b: u64) -> u64 {
        (f64::from_bits(a) + f64::from_bits(b)).to_bits()
    }
    fn difference(&self, a: u64, b: u64) -> u64 {
        (f64::from_bits(a) - f64::from_bits(b)).to_bits()
    }
    fn product(&self, a: u64, b: u64) -> u64 {
        (f64::from_bits(a) * f64::from_bits(b)).to_bits()
    }
    fn quotient(&self, a: u64, b: u64) -> u64 {
        (f64::from_bits(a) / f64::from_bits(b)).to_bits()
    }
    fn floor(&self, a: u64) -> u64 {
        f64::from_bits(a).floor().to_bits()
    }
    fn from_u64(&self, n: u64) -> u64 {
        (n as f64).to_bits()
    }
    fn from_usize(&self, n: usize) -> u64 {
        (n as f64).to_bits()
    }
    fn to_usize(&self, a: u64) -> Option<usize> {
        num::ToPrimitive::to_usize(&f64::from_bits(a))
    }
}

#[test]
fn running_peak_to_peak_of_one_to_nine() {
    let mut running_peak_to_peak = PeakToPeak::new();
    for i in 1..10 {
        running_peak_to_peak.update((i as f64).to_bits());
    }
    assert_eq!(f64::from_bits(running_peak_to_peak.get(&Ieee)), 8.0);
    let extremes = running_peak_to_peak.extremes();
    assert_eq!(f64::from_bits(extremes.max), 9.0);
    assert_eq!(f64::from_bits(extremes.min), 1.0);
}

#[test]
fn rolling_peak_to_peak_of_last_three() {
    let mut rolling_peak_to_peak = RollingPeakToPeak::new(3);
    for i in 1..10 {
        rolling_peak_to_peak.update((i as f64).to_bits()).unwrap();
    }
    assert_eq!(rolling_peak_to_peak.get(&Ieee).map(f64::from_bits), Some(2.0));
}

#[test]
fn peak_to_peak_before_any_observation() {
    let fresh = PeakToPeak::default();
    let extremes = fresh.extremes();
    assert_eq!(f64::from_bits(extremes.min), f64::MAX);
    assert_eq!(f64::from_bits(extremes.max), f64::MIN);
    let rolling = RollingPeakToPeak::new(3);
    assert_eq!(rolling.get(&Ieee), None);
    assert_eq!(rolling.extremes(), None);
}

#[test]
fn peak_to_peak_ignores_nan() {
    let mut running = PeakToPeak::new();
    running.update((-2.0f64).to_bits());
    running.update(f64::NAN.to_bits());
    running.update(5.5f64.to_bits());
    assert_eq!(f64::from_bits(running.get(&Ieee)), 7.5);
}

#[test]
fn rolling_peak_to_peak_refuses_nan_and_keeps_both_windows() {
    let mut rolling = RollingPeakToPeak::new(2);
    rolling.update(1.0f64.to_bits()).unwrap();
    rolling.update(4.0f64.to_bits()).unwrap();
    assert_eq!(rolling.update(f64::NAN.to_bits()), Err(WindowError::NotANumber));
    assert_eq!(rolling.get(&Ieee).map(f64::from_bits), Some(3.0));
    rolling.update(10.0f64.to_bits()).unwrap();
    assert_eq!(rolling.get(&Ieee).map(f64::from_bits), Some(6.0));
    let mut empty = RollingPeakToPeak::new(0);
    assert_eq!(empty.update(1.0f64.to_bits()), Err(WindowError::ZeroCapacity));
}

#[test]
fn stored_rolling_peak_to_peak_continues_as_the_first() {
    let mut first = RollingPeakToPeak::new(3);
    for x in [4.0f64, -1.0, 9.0, 2.0] {
        first.update(x.to_bits()).unwrap();
    }
    let mut second = RollingPeakToPeak::restore(&first.min.state()).unwrap();
    assert_eq!(second.get(&Ieee), first.get(&Ieee));
    for x in [0.5f64, 7.0, 7.0, -3.0] {
        first.update(x.to_bits()).unwrap();
        second.update(x.to_bits()).unwrap();
        assert_eq!(second.get(&Ieee), first.get(&Ieee));
    }
}

#[test]
fn extreme_at_a_given_value() {
    assert!(Min::with_value(f64::NAN.to_bits()).is_none());
    assert!(Max::with_value(f64::NAN.to_bits()).is_none());
    let mut min = Min::with_value(3.0f64.to_bits()).unwrap();
    min.update(5.0f64.to_bits());
    assert_eq!(f64::from_bits(min.get()), 3.0);
    min.update(1.0f64.to_bits());
    assert_eq!(f64::from_bits(min.get()), 1.0);
    let mut max = Max::with_value(3.0f64.to_bits()).unwrap();
    max.update(1.0f64.to_bits());
    assert_eq!(f64::from_bits(max.get()), 3.0);
    max.update(5.0f64.to_bits());
    assert_eq!(f64::from_bits(max.get()), 5.0);
}
