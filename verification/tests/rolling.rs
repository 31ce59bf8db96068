use watermill::rolling::Rolling;
use watermill::stats::RollableUnivariate;

/// Running mean, with the number of observations it accounts for.
struct Mean {
    mean: f64,
    n: f64,
}

impl Mean {
    fn new() -> Mean {
        Mean { mean: 0.0, n: 0.0 }
    }

    fn update(&mut self, x: f64) {
        self.n += 1.0;
        self.mean += (x - self.mean) / self.n;
    }

    fn revert(&mut self, x: f64) -> Result<(), &'static str> {
        self.n -= 1.0;
        if self.n < 0.0 {
            return Err("Cannot go below 0");
        } else if self.n == 0.0 {
            self.mean = 0.0;
        } else {
            self.mean -= (x - self.mean) / self.n;
        }
        Ok(())
    }
}

/// Running sample variance.
struct Variance {
    mean: Mean,
    ddof: u32,
    state: f64,
}

impl Default for Variance {
    fn default() -> Variance {
        Variance { mean: Mean::new(), ddof: 1, state: 0.0 }
    }
}

impl RollableUnivariate<f64> for Variance {
    fn update(&mut self, x: f64) {
        let mean_old = self.mean.mean;
        self.mean.update(x);
        let mean_new = self.mean.mean;
        self.state += (x - mean_old) * (x - mean_new);
    }

    fn revert(&mut self, x: f64) -> Result<(), &'static str> {
        let mean_old = self.mean.mean;
        self.mean.revert(x)?;
        let mean_new = self.mean.mean;
        self.state -= (x - mean_old) * (x - mean_new);
        Ok(())
    }

    fn get(&self) -> f64 {
        let ddof = self.ddof as f64;
        if self.mean.n > ddof {
            self.state / (self.mean.n - ddof)
        } else {
            0.0
        }
    }
}

/// Running sum of whole numbers, which a revert undoes exactly.
struct Sum {
    sum: i64,
    count: u64,
}

impl Sum {
    fn new() -> Sum {
        Sum { sum: 0, count: 0 }
    }
}

impl RollableUnivariate<i64> for Sum {
    fn update(&mut self, x: i64) {
        self.sum += x;
        self.count += 1;
    }

    fn revert(&mut self, x: i64) -> Result<(), &'static str> {
        if self.count == 0 {
            return Err("Cannot go below 0");
        }
        self.sum -= x;
        self.count -= 1;
        Ok(())
    }

    fn get(&self) -> i64 {
        self.sum
    }
}

/// A statistic that never takes anything back.
struct Stubborn {
    seen: u32,
}

impl RollableUnivariate<u8> for Stubborn {
    fn update(&mut self, _x: u8) {
        self.seen += 1;
    }

    fn revert(&mut self, _x: u8) -> Result<(), &'static str> {
        Err("nothing is taken back")
    }

    fn get(&self) -> u8 {
        self.seen as u8
    }
}

#[test]
fn it_works() {
    let data = vec![9., 7., 3., 2., 6., 1., 8., 5., 4.];
    let mut running_var: Variance = Variance::default();
    let mut rolling_var: Rolling<_, f64> = Rolling::new(&mut running_var, 2).unwrap();
    for x in data.iter() {
        rolling_var.update(*x as f64).unwrap();
    }
    assert_eq!(rolling_var.get(), 0.5);
}

#[test]
fn rolling_sum_of_last_two() {
    let data: Vec<i64> = vec![9, 7, 3, 2, 6, 1, 8, 5, 4];
    let mut running_sum = Sum::new();
    let mut rolling_sum: Rolling<_, i64> = Rolling::new(&mut running_sum, 2).unwrap();
    for x in data.iter() {
        rolling_sum.update(*x).unwrap();
    }
    assert_eq!(rolling_sum.get(), 9);
}

#[test]
fn zero_window_is_refused() {
    let mut running_sum = Sum::new();
    let refused = Rolling::<_, i64>::new(&mut running_sum, 0);
    assert_eq!(refused.err(), Some("Window size should not equal to 0"));
}

#[test]
fn rolling_statistic_equals_fresh_statistic_over_tail() {
    let data: Vec<i64> = vec![4, -3, 12, 7, 7, 0, -9, 5, 21, 2, 2, -6];
    for window_size in 1..=5usize {
        let mut wrapped = Sum::new();
        let mut rolling: Rolling<_, i64> = Rolling::new(&mut wrapped, window_size).unwrap();
        for (i, x) in data.iter().enumerate() {
            rolling.update(*x).unwrap();
            let start = (i + 1).saturating_sub(window_size);
            let mut fresh = Sum::new();
            for y in &data[start..=i] {
                fresh.update(*y);
            }
            assert_eq!(rolling.get(), fresh.get());
            assert_eq!(rolling.len(), i + 1 - start);
        }
    }
}

#[test]
fn rolling_variance_equals_fresh_variance_over_tail() {
    let data = vec![9., 7., 3., 2., 6., 1., 8., 5., 4.];
    let mut wrapped = Variance::default();
    let mut rolling: Rolling<_, f64> = Rolling::new(&mut wrapped, 3).unwrap();
    for (i, x) in data.iter().enumerate() {
        rolling.update(*x).unwrap();
        let start = (i + 1).saturating_sub(3);
        let mut fresh = Variance::default();
        for y in &data[start..=i] {
            fresh.update(*y);
        }
        assert!((rolling.get() - fresh.get()).abs() < 1e-9);
    }
}

#[test]
fn failed_revert_is_handed_on_and_window_kept() {
    let mut wrapped = Stubborn { seen: 0 };
    let mut rolling: Rolling<_, u8> = Rolling::new(&mut wrapped, 2).unwrap();
    assert_eq!(rolling.update(1), Ok(()));
    assert_eq!(rolling.update(2), Ok(()));
    assert_eq!(rolling.update(3), Err("nothing is taken back"));
    assert_eq!(rolling.len(), 2);
    assert_eq!(rolling.get(), 2);
}
