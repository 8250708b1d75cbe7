use bench_rs::{calibrate, poll_average, should_stop_rep, should_stop_run, AsyncBatch};

const DEADLINE: u128 = 300_000_000;

#[test]
fn calibration_formula() {
    // n = max(1, 1_000_000 / max(1, single))
    assert_eq!(calibrate(500), 2000);
    assert_eq!(calibrate(2_000_000), 1);
    assert_eq!(calibrate(0), 1_000_000);
    assert_eq!(calibrate(1), 1_000_000);
    assert_eq!(calibrate(1_000_000), 1);
    assert_eq!(calibrate(999_999), 1);
    assert_eq!(calibrate(3), 333_333);
}

#[test]
fn run_stops_at_the_iteration_ceiling() {
    assert!(should_stop_run(0, 2000, 0, DEADLINE));
    assert!(should_stop_run(0, 2001, 0, DEADLINE));
    assert!(!should_stop_run(0, 1999, 0, DEADLINE));
}

#[test]
fn run_stops_at_the_deadline_only_after_three_batches() {
    assert!(should_stop_run(4, 0, DEADLINE, DEADLINE));
    assert!(!should_stop_run(3, 0, DEADLINE, DEADLINE));
    assert!(!should_stop_run(4, 0, DEADLINE - 1, DEADLINE));
}

#[test]
fn batch_stops_when_the_ceiling_would_be_passed() {
    assert!(should_stop_rep(1995, 5, 100, 0, DEADLINE));
    assert!(!should_stop_rep(1995, 4, 100, 0, DEADLINE));
}

#[test]
fn slow_batches_also_stop_at_the_deadline() {
    // only operations batched fewer than ten at a time, and only after
    // more than three repetitions of the batch
    assert!(should_stop_rep(0, 4, 9, DEADLINE, DEADLINE));
    assert!(!should_stop_rep(0, 4, 10, DEADLINE, DEADLINE));
    assert!(!should_stop_rep(0, 3, 9, DEADLINE, DEADLINE));
    assert!(!should_stop_rep(0, 4, 9, DEADLINE - 1, DEADLINE));
}

#[test]
fn poll_average_of_constant_polls_is_that_constant() {
    // an operation that suspends three times per drive, driven five times
    let polls = vec![3usize, 3, 3, 3, 3];
    assert_eq!(poll_average(&polls), 3);
}

#[test]
fn poll_average_of_never_suspending_operation_is_zero() {
    let polls = vec![0usize, 0, 0, 0];
    assert_eq!(poll_average(&polls), 0);
    let none: Vec<usize> = Vec::new();
    assert_eq!(poll_average(&none), 0);
}

#[test]
fn poll_average_is_the_floored_mean() {
    let polls = vec![1usize, 2, 2];
    assert_eq!(poll_average(&polls), 1);
}

#[test]
fn async_batch_accumulates_time_and_keeps_peaks() {
    let mut batch = AsyncBatch::new();
    batch.record(100, 5, 64, 64);
    batch.record(300, 2, 128, 16);
    batch.record(200, 4, 32, 32);
    assert_eq!(batch.mtime, 600);
    assert_eq!(batch.passed, 3);
    assert_eq!(batch.allocations, 5);
    assert_eq!(batch.allocated_bytes, 128);
    // 128 allocated, 16 freed: 112 leaked at the peak
    assert_eq!(batch.leaked_bytes, 112);
}

#[test]
fn async_batch_floors_leaked_bytes_at_zero() {
    let mut batch = AsyncBatch::new();
    batch.record(10, 1, 16, 64);
    assert_eq!(batch.leaked_bytes, 0);
}
