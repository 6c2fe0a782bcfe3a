use pumas::signal::Signal;

fn whole(value: f32) -> u64 {
    value as u64
}

#[test]
fn test_signal_basics_u32() {
    let mut signal = Signal::with_capacity(3, /* max */ 4);
    assert_eq!(signal.peak(), 0);
    signal.push(1);
    signal.push(2);
    signal.push(3);

    assert_eq!(signal.as_slice(), &[1, 2, 3]);
    assert_eq!(signal.peak(), 3);

    signal.push(4);
    assert_eq!(signal.as_slice(), &[2, 3, 4]);
    assert_eq!(signal.peak(), 4);

    for _ in 0..10 {
        signal.push(1);
    }
    signal.push(0);
    assert_eq!(signal.as_slice(), &[1, 1, 0]);
    assert_eq!(signal.peak(), 4);
}

#[test]
fn test_signal_basics_f32() {
    let mut signal = Signal::with_capacity(3, /* max */ whole(4.0));
    assert_eq!(signal.peak() as f32, 0.0);
    signal.push(whole(1.0));
    signal.push(whole(2.0));
    signal.push(whole(3.0));

    assert_eq!(signal.as_slice(), &[1, 2, 3]);
    assert_eq!(signal.peak() as f32, 3.0);

    signal.push(whole(4.0));
    assert_eq!(signal.as_slice(), &[2, 3, 4]);
    assert_eq!(signal.peak() as f32, 4.0);

    for _ in 0..10 {
        signal.push(whole(1.0));
    }
    signal.push(whole(0.0));
    assert_eq!(signal.as_slice(), &[1, 1, 0]);
    assert_eq!(signal.peak() as f32, 4.0);
}

#[test]
fn signal_starts_empty() {
    let signal = Signal::with_capacity(5, 100);
    assert_eq!(signal.len(), 0);
    assert_eq!(signal.capacity(), 5);
    assert_eq!(signal.max(), 100);
    assert_eq!(signal.peak(), 0);
    assert_eq!(signal.as_slice(), Vec::<u64>::new());
    assert_eq!(signal.as_slice_last_n(3), Vec::<u64>::new());
}

#[test]
fn signal_keeps_last_capacity_values_in_order() {
    let mut signal = Signal::with_capacity(4, 10);
    let values: Vec<u64> = vec![7, 1, 9, 3, 5, 2, 8, 6, 4];
    for v in &values {
        signal.push(*v);
        assert!(signal.len() <= 4);
    }
    assert_eq!(signal.as_slice(), vec![2, 8, 6, 4]);
    assert_eq!(signal.len(), 4);
    assert_eq!(signal.peak(), 9);
    assert_eq!(signal.max(), 10);
}

#[test]
fn signal_peak_survives_eviction_and_never_falls() {
    let mut signal = Signal::with_capacity(2, 0);
    let mut last_peak = 0;
    for v in [3u64, 50, 2, 1, 0, 49, 0] {
        signal.push(v);
        assert!(signal.peak() >= last_peak);
        last_peak = signal.peak();
    }
    assert_eq!(signal.peak(), 50);
    assert_eq!(signal.as_slice(), vec![49, 0]);
}

#[test]
fn signal_window_is_the_tail() {
    let mut signal = Signal::with_capacity(8, 0);
    for v in 1..=6u64 {
        signal.push(v);
    }
    assert_eq!(signal.as_slice_last_n(0), Vec::<u64>::new());
    assert_eq!(signal.as_slice_last_n(1), vec![6]);
    assert_eq!(signal.as_slice_last_n(3), vec![4, 5, 6]);
    assert_eq!(signal.as_slice_last_n(6), vec![1, 2, 3, 4, 5, 6]);
}

#[test]
fn signal_window_wider_than_history_returns_all() {
    let mut signal = Signal::with_capacity(8, 0);
    signal.push(11);
    signal.push(12);
    assert_eq!(signal.as_slice_last_n(3), vec![11, 12]);
    assert_eq!(signal.as_slice_last_n(usize::MAX), vec![11, 12]);
    assert_eq!(signal.len(), 2);
}

#[test]
fn signal_of_capacity_zero_keeps_nothing_but_the_peak() {
    let mut signal = Signal::with_capacity(0, 5);
    signal.push(3);
    signal.push(9);
    assert_eq!(signal.len(), 0);
    assert_eq!(signal.as_slice(), Vec::<u64>::new());
    assert_eq!(signal.peak(), 9);
}

#[test]
fn signal_of_capacity_one() {
    let mut signal = Signal::with_capacity(1, 5);
    signal.push(3);
    signal.push(2);
    assert_eq!(signal.as_slice(), vec![2]);
    assert_eq!(signal.peak(), 3);
}
