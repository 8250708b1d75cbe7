use bench_rs::{Stats, Step};

fn step(time: u128, mem: usize, allocations: usize, leaked_bytes: usize) -> Step {
    Step { time, mem, allocations, leaked_bytes }
}

#[test]
fn empty_steps_reduce_to_zeroed_stats() {
    let steps: Vec<Step> = Vec::new();
    let stats = Stats::from_steps(&steps);
    assert_eq!(stats.times_average, 0);
    assert_eq!(stats.times_min, 0);
    assert_eq!(stats.times_max, 0);
    assert_eq!(stats.mem_average, 0);
    assert_eq!(stats.mem_min, 0);
    assert_eq!(stats.mem_max, 0);
    assert_eq!(stats.allocations, 0);
    assert_eq!(stats.leaked_bytes, 0);
}

#[test]
fn single_step_is_its_own_summary() {
    let steps = vec![step(42, 7, 3, 1)];
    let stats = Stats::from_steps(&steps);
    assert_eq!(stats.times_average, 42);
    assert_eq!(stats.times_min, 42);
    assert_eq!(stats.times_max, 42);
    assert_eq!(stats.mem_average, 7);
    assert_eq!(stats.mem_min, 7);
    assert_eq!(stats.mem_max, 7);
    assert_eq!(stats.allocations, 3);
    assert_eq!(stats.leaked_bytes, 1);
}

#[test]
fn averages_and_extremes_are_exact() {
    let steps = vec![step(10, 100, 5, 0), step(20, 200, 2, 7), step(30, 300, 4, 3)];
    let stats = Stats::from_steps(&steps);
    assert_eq!(stats.times_average, 20);
    assert_eq!(stats.times_min, 10);
    assert_eq!(stats.times_max, 30);
    assert_eq!(stats.mem_average, 200);
    assert_eq!(stats.mem_min, 100);
    assert_eq!(stats.mem_max, 300);
}

#[test]
fn average_is_floored() {
    let steps = vec![step(10, 10, 0, 0), step(15, 11, 0, 0)];
    let stats = Stats::from_steps(&steps);
    assert_eq!(stats.times_average, 12);
    assert_eq!(stats.mem_average, 10);
}

#[test]
fn allocations_and_leaked_use_max_not_sum_or_average() {
    let steps = vec![step(1, 1, 5, 0), step(1, 1, 2, 7), step(1, 1, 4, 3)];
    let stats = Stats::from_steps(&steps);
    // max of [5, 2, 4]; a sum would give 11, an average 3
    assert_eq!(stats.allocations, 5);
    // max of [0, 7, 3]; a sum would give 10, an average 3
    assert_eq!(stats.leaked_bytes, 7);
}

#[test]
fn times_beyond_usize_saturate() {
    let steps = vec![step(u128::MAX, 0, 0, 0), step(u128::MAX, 0, 0, 0)];
    let stats = Stats::from_steps(&steps);
    assert_eq!(stats.times_average, usize::MAX);
    assert_eq!(stats.times_min, usize::MAX);
    assert_eq!(stats.times_max, usize::MAX);
}

#[test]
fn summary_is_ordered_min_average_max() {
    let steps = vec![
        step(900, 4, 1, 0),
        step(17, 900, 0, 2),
        step(350, 350, 9, 9),
        step(1, 1, 1, 1),
        step(123456, 65536, 2, 4),
    ];
    let stats = Stats::from_steps(&steps);
    assert!(stats.times_min <= stats.times_average);
    assert!(stats.times_average <= stats.times_max);
    assert!(stats.mem_min <= stats.mem_average);
    assert!(stats.mem_average <= stats.mem_max);
}

#[test]
fn from_trait_matches_from_steps() {
    let steps = vec![step(10, 100, 5, 0), step(20, 200, 2, 7)];
    let by_trait = Stats::from(&steps);
    let by_fn = Stats::from_steps(&steps);
    assert_eq!(by_trait, by_fn);
}
