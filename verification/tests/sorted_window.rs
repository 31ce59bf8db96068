use watermill::sorted_window::{SortedWindow, WindowError, WindowState};

fn bits(values: &[f64]) -> Vec<u64> {
    values.iter().map(|v| v.to_bits()).collect()
}

fn push(window: &mut SortedWindow, value: f64) {
    window.push_back(value.to_bits()).unwrap();
}

fn front(window: &SortedWindow) -> f64 {
    f64::from_bits(window.front())
}

fn back(window: &SortedWindow) -> f64 {
    f64::from_bits(window.back())
}

fn at(window: &SortedWindow, index: usize) -> f64 {
    f64::from_bits(window.index(index))
}

#[test]
fn test_new_and_empty() {
    let window = SortedWindow::new(5);
    assert!(window.is_empty());
    assert_eq!(window.len(), 0);
    assert_eq!(window.window_size(), 5);
}

#[test]
fn test_push_and_sort() {
    let mut window = SortedWindow::new(5);
    push(&mut window, 10.0);
    push(&mut window, 5.0);
    push(&mut window, 15.0);

    assert!(!window.is_empty());
    assert_eq!(window.len(), 3);

    assert_eq!(at(&window, 0), 5.0);
    assert_eq!(at(&window, 1), 10.0);
    assert_eq!(at(&window, 2), 15.0);

    assert_eq!(front(&window), 5.0);
    assert_eq!(back(&window), 15.0);

    assert_eq!(window.unsorted_values(), bits(&[10.0, 5.0, 15.0]));
}

#[test]
fn test_window_full_cycle() {
    let mut window = SortedWindow::new(3);

    push(&mut window, 10.0);
    push(&mut window, 20.0);
    push(&mut window, 5.0);

    assert_eq!(window.len(), 3);
    assert_eq!(front(&window), 5.0);
    assert_eq!(back(&window), 20.0);
    assert_eq!(window.sorted_values(), bits(&[5.0, 10.0, 20.0]));

    push(&mut window, 15.0);

    assert_eq!(window.len(), 3);
    assert_eq!(front(&window), 5.0);
    assert_eq!(back(&window), 20.0);
    assert_eq!(window.sorted_values(), bits(&[5.0, 15.0, 20.0]));
    assert_eq!(window.unsorted_values(), bits(&[20.0, 5.0, 15.0]));

    push(&mut window, 2.0);

    assert_eq!(window.len(), 3);
    assert_eq!(front(&window), 2.0);
    assert_eq!(back(&window), 15.0);
    assert_eq!(window.sorted_values(), bits(&[2.0, 5.0, 15.0]));
    assert_eq!(window.unsorted_values(), bits(&[5.0, 15.0, 2.0]));
}

#[test]
fn test_with_duplicate_values() {
    let mut window = SortedWindow::new(4);
    push(&mut window, 10.0);
    push(&mut window, 5.0);
    push(&mut window, 10.0);

    assert_eq!(window.len(), 3);
    assert_eq!(front(&window), 5.0);
    assert_eq!(back(&window), 10.0);
    assert_eq!(window.sorted_values(), bits(&[5.0, 10.0, 10.0]));

    push(&mut window, 20.0);
    assert_eq!(window.sorted_values(), bits(&[5.0, 10.0, 10.0, 20.0]));

    push(&mut window, 1.0);
    assert_eq!(window.sorted_values(), bits(&[1.0, 5.0, 10.0, 20.0]));
    assert_eq!(window.unsorted_values(), bits(&[5.0, 10.0, 20.0, 1.0]));
}

#[test]
fn test_window_size_one() {
    let mut window = SortedWindow::new(1);

    push(&mut window, 10.0);
    assert_eq!(window.len(), 1);
    assert_eq!(front(&window), 10.0);
    assert_eq!(at(&window, 0), 10.0);

    push(&mut window, 5.0);
    assert_eq!(window.len(), 1);
    assert_eq!(front(&window), 5.0);
    assert_eq!(at(&window, 0), 5.0);

    push(&mut window, 20.0);
    assert_eq!(window.len(), 1);
    assert_eq!(front(&window), 20.0);
    assert_eq!(at(&window, 0), 20.0);
}

#[test]
fn window_size_zero_refuses_every_push() {
    let mut window = SortedWindow::new(0);
    assert_eq!(window.push_back(10.0f64.to_bits()), Err(WindowError::ZeroCapacity));
    assert_eq!(window.len(), 0);
    assert!(window.is_empty());
    assert!(window.unsorted_values().is_empty());
}

#[test]
fn nan_push_is_refused_and_changes_nothing() {
    let mut window = SortedWindow::new(3);
    push(&mut window, 2.0);
    push(&mut window, -1.0);
    assert_eq!(window.push_back(f64::NAN.to_bits()), Err(WindowError::NotANumber));
    assert_eq!(window.push_back((-f64::NAN).to_bits()), Err(WindowError::NotANumber));
    assert_eq!(window.push_back(0x7FF0_0000_0000_0001), Err(WindowError::NotANumber));
    assert_eq!(window.sorted_values(), bits(&[-1.0, 2.0]));
    assert_eq!(window.unsorted_values(), bits(&[2.0, -1.0]));
    push(&mut window, 0.5);
    assert_eq!(window.sorted_values(), bits(&[-1.0, 0.5, 2.0]));
}

#[test]
fn nan_is_refused_before_zero_capacity() {
    let mut window = SortedWindow::new(0);
    assert_eq!(window.push_back(f64::NAN.to_bits()), Err(WindowError::NotANumber));
}

#[test]
fn negative_values_and_infinities_are_ordered() {
    let mut window = SortedWindow::new(8);
    for v in [1.5, f64::INFINITY, -2.5, 0.0, f64::NEG_INFINITY, -1e-300, 1e300, f64::MIN_POSITIVE] {
        push(&mut window, v);
    }
    let sorted: Vec<f64> = window.sorted_values().into_iter().map(f64::from_bits).collect();
    assert_eq!(
        sorted,
        vec![f64::NEG_INFINITY, -2.5, -1e-300, 0.0, f64::MIN_POSITIVE, 1.5, 1e300, f64::INFINITY]
    );
    assert_eq!(front(&window), f64::NEG_INFINITY);
    assert_eq!(back(&window), f64::INFINITY);
}

#[test]
fn window_holds_sorted_tail_of_stream() {
    let stream: Vec<f64> = vec![3.0, -7.5, 12.0, 3.0, 0.25, -7.5, 9.0, 1.0, 4.0, 4.0, -2.0];
    for capacity in 1..=6usize {
        let mut window = SortedWindow::new(capacity);
        for (i, v) in stream.iter().enumerate() {
            push(&mut window, *v);
            let start = (i + 1).saturating_sub(capacity);
            let mut expected: Vec<f64> = stream[start..=i].to_vec();
            assert_eq!(window.unsorted_values(), bits(&expected));
            expected.sort_by(|a, b| a.partial_cmp(b).unwrap());
            assert_eq!(window.sorted_values(), bits(&expected));
            assert_eq!(window.len(), expected.len());
        }
    }
}

#[test]
fn both_zeros_are_one_value() {
    let mut window = SortedWindow::new(2);
    push(&mut window, -0.0);
    push(&mut window, 0.0);
    assert_eq!(front(&window), 0.0);
    assert_eq!(back(&window), 0.0);
    push(&mut window, -3.0);
    assert_eq!(window.sorted_values(), bits(&[-3.0, 0.0]));
}

#[test]
fn stored_window_continues_as_the_first() {
    let stream: Vec<f64> = vec![3.0, -7.5, 12.0, 3.0, 0.25, -7.5, 9.0, 1.0, 4.0, 4.0, -2.0];
    for cut in 0..stream.len() {
        let mut first = SortedWindow::new(4);
        for v in &stream[..cut] {
            push(&mut first, *v);
        }
        let state = first.state();
        assert_eq!(state.window_size, 4);
        let mut second = SortedWindow::restore(&state).unwrap();
        assert_eq!(second.sorted_values(), first.sorted_values());
        assert_eq!(second.unsorted_values(), first.unsorted_values());
        for v in &stream[cut..] {
            push(&mut first, *v);
            push(&mut second, *v);
            assert_eq!(second.sorted_values(), first.sorted_values());
            assert_eq!(second.unsorted_values(), first.unsorted_values());
        }
    }
}

#[test]
fn state_that_no_window_has_is_refused() {
    let state = |sorted: &[f64], unsorted: &[f64], window_size: usize| WindowState {
        sorted_window: bits(sorted),
        unsorted_window: bits(unsorted),
        window_size,
    };
    assert!(SortedWindow::restore(&state(&[1.0, 2.0, 3.0], &[2.0, 3.0, 1.0], 3)).is_ok());
    assert!(SortedWindow::restore(&state(&[], &[], 0)).is_ok());
    assert_eq!(
        SortedWindow::restore(&state(&[2.0, 1.0, 3.0], &[2.0, 3.0, 1.0], 3)).err(),
        Some(WindowError::Inconsistent)
    );
    assert_eq!(
        SortedWindow::restore(&state(&[1.0, 2.0, 4.0], &[2.0, 3.0, 1.0], 3)).err(),
        Some(WindowError::Inconsistent)
    );
    assert_eq!(
        SortedWindow::restore(&state(&[1.0, 2.0], &[2.0, 3.0, 1.0], 3)).err(),
        Some(WindowError::Inconsistent)
    );
    assert_eq!(
        SortedWindow::restore(&state(&[1.0, 2.0, 3.0], &[2.0, 3.0, 1.0], 2)).err(),
        Some(WindowError::Inconsistent)
    );
    assert_eq!(
        SortedWindow::restore(&state(&[1.0, f64::NAN], &[f64::NAN, 1.0], 3)).err(),
        Some(WindowError::NotANumber)
    );
}
