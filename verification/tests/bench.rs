use bench_rs::{poll_average, AsyncBatch, Bencher, Stats};
use rand::RngExt;

fn busy_wait_nanos(ns: u128) {
    let start = std::time::Instant::now();
    while start.elapsed().as_nanos() < ns {}
}

#[test]
fn test_bencher() {
    let data = rand::rng()
        .sample_iter(rand::distr::Alphanumeric)
        .take(1000)
        .collect::<Vec<u8>>();

    let mut bencher = Bencher::new(
        "test_bencher",
        1000,
        data.len(),
        false,
        bench_rs::instrumented_system(),
    );
    bencher.iter(|| {
        let _ = rcnb_rs::encode(&data);
    });

    // Custom formatting
    let stats: Stats = bencher.finish();
    println!("{}: custom formatting: {:?}\n", &bencher.name, stats);
}

#[test]
fn full_sample_count_when_deadline_is_far() {
    let mut b = Bencher::new("steady", 50, 0, false, bench_rs::instrumented_system());
    assert_eq!(b.name, "steady");
    b.iter(|| busy_wait_nanos(100_000));
    // an operation of ~100 microseconds keeps the run far from both the
    // deadline and the iteration ceiling, so every batch yields a step
    assert_eq!(b.steps.len(), 50);
    assert!(b.passed <= 2000);
    let stats = b.finish();
    assert!(stats.times_average >= 95_000);
    assert!(stats.times_average <= 2_000_000);
    assert!(stats.times_min <= stats.times_average);
    assert!(stats.times_average <= stats.times_max);
}

#[test]
fn deadline_bounds_a_run_of_slow_operations() {
    let wall = std::time::Instant::now();
    let mut b = Bencher::new("slow", 100, 0, false, bench_rs::instrumented_system());
    b.iter(|| busy_wait_nanos(50_000_000));
    let elapsed_ms = wall.elapsed().as_millis();
    // ~50 ms per repetition: the deadline stops the run long before the
    // requested hundred batches, but never before four batches are done
    assert!(b.steps.len() >= 4);
    assert!(b.steps.len() <= 10);
    assert!(b.steps.len() < 100);
    // bounded overshoot of the 300 ms deadline
    assert!(elapsed_ms < 3000);
    assert!(b.passed <= 2000);
}

#[test]
fn iteration_ceiling_stops_a_fast_run_early() {
    let mut b = Bencher::new("fast", 100, 0, false, bench_rs::instrumented_system());
    b.iter(|| 2u64);
    // a trivial operation calibrates to huge batches, so the iteration
    // ceiling is reached before the requested batch count
    assert_eq!(b.passed, 2000);
    assert!(b.steps.len() >= 1);
    assert!(b.steps.len() <= 100);
}

#[test]
fn async_style_accounting_produces_steps_and_poll_average() {
    let mut b = Bencher::new("driven", 3, 0, false, bench_rs::instrumented_system());
    let mut polls: Vec<usize> = Vec::new();
    for _ in 0..3 {
        let mut batch = AsyncBatch::new();
        for _ in 0..4 {
            batch.record(1000, 1, 32, 32);
            polls.push(2);
        }
        b.push_step(&batch);
    }
    b.poll = poll_average(&polls);
    assert_eq!(b.poll, 2);
    assert_eq!(b.passed, 12);
    assert_eq!(b.steps.len(), 3);
    let stats = b.finish();
    assert_eq!(stats.times_average, 1000);
    assert_eq!(stats.allocations, 1);
    assert_eq!(stats.leaked_bytes, 0);
}

#[test]
fn apply_batch_pushes_a_step_iff_repetitions_completed() {
    let mut b = Bencher::new("fold", 5, 0, false, bench_rs::instrumented_system());
    // a batch of 4 repetitions over 1000 ns: per-operation time 250 ns
    b.apply_batch((1000, 64, 3, 8, 4));
    assert_eq!(b.steps.len(), 1);
    assert_eq!(b.passed, 4);
    assert_eq!(b.steps[0].time, 250);
    assert_eq!(b.steps[0].mem, 64);
    assert_eq!(b.steps[0].allocations, 3);
    assert_eq!(b.steps[0].leaked_bytes, 8);
    // a batch that completed nothing changes nothing
    b.apply_batch((999, 1, 1, 1, 0));
    assert_eq!(b.steps.len(), 1);
    assert_eq!(b.passed, 4);
}

#[test]
fn zero_sample_count_is_refused_at_construction() {
    assert!(Bencher::try_new("none", 0, 0, false, bench_rs::instrumented_system()).is_none());
    let some = Bencher::try_new("one", 1, 0, false, bench_rs::instrumented_system());
    assert!(some.is_some());
    assert_eq!(some.unwrap().count, 1);
}

#[test]
fn memory_counters_reset_to_zero() {
    let mut b = Bencher::new("mem", 1, 0, false, bench_rs::instrumented_system());
    b.mem_track = (1, 2, 3, 4);
    assert_eq!(b.get_mem(), (2, 3, 4));
    b.reset_mem();
    assert_eq!(b.get_mem(), (0, 0, 0));
    assert_eq!(b.mem_track, (0, 0, 0, 0));
}
