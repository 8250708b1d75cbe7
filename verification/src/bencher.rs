use vstd::prelude::*;

verus! {

use crate::probe::AllocHandle;
use crate::probe::monotonic_now;
use crate::probe::nanos_since;
use crate::probe::region_change;
use crate::probe::region_open;
use crate::probe::region_reset;
use crate::probe::sink;
use crate::Stats;
use crate::Step;
use crate::spec_stats;
use crate::sum_int;

/// Hard cap on cumulative completed repetitions across an entire run.
pub const MAX_ITERATIONS: usize = 2000;

/// Wall-clock budget for one run, in nanoseconds.
pub const DEFAULT_DEADLINE_NS: u128 = 300000000;

/// One benchmark run: its fixed configuration (name, target sample count,
/// payload byte size, throughput flag) and its mutable run state (the
/// collected steps, the calibrated inner-repetition count `n`, the
/// cumulative repetition counter and the average poll count).
pub struct Bencher {
    pub name: String,
    pub count: usize,
    pub steps: Vec<Step>,
    pub bytes: usize,
    pub n: usize,
    pub poll: usize,
    /// Number of performed repetitions.
    pub passed: usize,
    /// Whether to display throughput stats; `bytes` should be assigned
    /// from the benchmarked payload.
    pub display_bytes: bool,
    pub alloc: AllocHandle,
    // time, mem, allocations, leaked
    pub mem_track: (usize, usize, usize, usize),
}

/// The inner-repetition count that sizes one batch to roughly one
/// millisecond given one measured single-call duration, never less
/// than one.
pub open spec fn spec_calibrate(single: int) -> int {
    vstd::math::max(1, 1000000 as int / vstd::math::max(1, single))
}

/// Derive the batch repetition count from a measured single-call
/// duration in nanoseconds.
pub fn calibrate(single: u128) -> (n: usize)
    ensures
        n as int == spec_calibrate(single as int),
        1 <= n <= 1000000,
{
    let d: u128 = if single < 1 {
        1
    } else {
        single
    };
    let q: u128 = 1000000 / d;
    proof {
        vstd::arithmetic::div_mod::lemma_div_nonincreasing(1000000, d as int);
    }
    if q < 1 {
        1
    } else {
        q as usize
    }
}

/// The sampling loop stops before another batch once the cumulative
/// repetition counter has reached the iteration ceiling, or once more
/// than three batches are complete and the elapsed time has reached the
/// deadline.
pub open spec fn spec_should_stop_run(batches: int, passed: int, elapsed: int, deadline: int) -> bool {
    passed >= MAX_ITERATIONS as int || (batches > 3 && elapsed >= deadline)
}

/// Decide whether the sampling loop stops before starting another batch.
pub fn should_stop_run(batches: usize, passed: usize, elapsed: u128, deadline: u128) -> (r: bool)
    ensures
        r == spec_should_stop_run(batches as int, passed as int, elapsed as int, deadline as int),
{
    passed >= MAX_ITERATIONS || (batches > 3 && elapsed >= deadline)
}

/// A batch stops before another repetition once the cumulative counter
/// would pass the iteration ceiling, or — for slow operations, batched
/// fewer than ten at a time — once more than three repetitions of this
/// batch are done and the elapsed time has reached the deadline.
pub open spec fn spec_should_stop_rep(
    total_passed: int,
    batch_passed: int,
    n: int,
    elapsed: int,
    deadline: int,
) -> bool {
    total_passed + batch_passed >= MAX_ITERATIONS as int
        || (n < 10 && batch_passed > 3 && elapsed >= deadline)
}

/// Decide whether the current batch stops before another repetition.
pub fn should_stop_rep(
    total_passed: usize,
    batch_passed: usize,
    n: usize,
    elapsed: u128,
    deadline: u128,
) -> (r: bool)
    ensures
        r == spec_should_stop_rep(
            total_passed as int,
            batch_passed as int,
            n as int,
            elapsed as int,
            deadline as int,
        ),
{
    (total_passed as u128) + (batch_passed as u128) >= (MAX_ITERATIONS as u128)
        || (n < 10 && batch_passed > 3 && elapsed >= deadline)
}

/// The per-repetition allocation counts among a batch's observed deltas.
pub open spec fn deltas_allocs(ds: Seq<(usize, usize, usize)>) -> Seq<int> {
    ds.map_values(|d: (usize, usize, usize)| d.0 as int)
}

/// The per-repetition allocated bytes among a batch's observed deltas.
pub open spec fn deltas_allocated(ds: Seq<(usize, usize, usize)>) -> Seq<int> {
    ds.map_values(|d: (usize, usize, usize)| d.1 as int)
}

/// The per-repetition leaked bytes among a batch's observed deltas:
/// allocated minus deallocated, floored at zero.
pub open spec fn deltas_leaked(ds: Seq<(usize, usize, usize)>) -> Seq<int> {
    ds.map_values(
        |d: (usize, usize, usize)|
            if d.1 >= d.2 {
                d.1 - d.2
            } else {
                0
            },
    )
}

/// How a batch result relates to the (allocations, bytes allocated,
/// bytes deallocated) deltas that its repetitions observed: one delta per
/// completed repetition, and each returned metric the maximum over them —
/// never a sum or an average.
pub open spec fn batch_metrics_fold(
    ds: Seq<(usize, usize, usize)>,
    r: (u128, usize, usize, usize, usize),
) -> bool {
    &&& ds.len() == r.4 as nat
    &&& r.2 as int == crate::max_int(deltas_allocs(ds))
    &&& r.1 as int == crate::max_int(deltas_allocated(ds))
    &&& r.3 as int == crate::max_int(deltas_leaked(ds))
}

/// The counter trajectory of a fresh run whose batches hold ten or more
/// repetitions: every step came from one full batch until the ceiling cut
/// the last one short, so the counter is the number of new steps times
/// the batch size, capped at the ceiling, and one batch fewer stayed
/// strictly below the ceiling.
pub open spec fn spec_run_trajectory(new_steps: int, n: int, passed: int) -> bool {
    &&& passed == vstd::math::min(new_steps * n, MAX_ITERATIONS as int)
    &&& (new_steps - 1) * n < MAX_ITERATIONS as int
}

/// Appending one value extends the maximum fold by one comparison.
proof fn lemma_max_push(s: Seq<int>, v: int)
    ensures
        crate::max_int(s.push(v)) == vstd::math::max(crate::max_int(s), v),
{
    assert(s.push(v).drop_last() =~= s);
    assert(s.push(v).last() == v);
}

impl Bencher {
    /// A fresh run with the given configuration and empty run state.
    pub fn new(
        name: &str,
        count: usize,
        bytes: usize,
        display_bytes: bool,
        alloc: AllocHandle,
    ) -> (b: Bencher)
        requires
            count >= 1,
        ensures
            b.name@ == name@,
            b.count == count,
            b.steps@ == Seq::<Step>::empty(),
            b.bytes == bytes,
            b.n == 0,
            b.poll == 0,
            b.passed == 0,
            b.display_bytes == display_bytes,
            b.alloc == alloc,
            b.mem_track == ((0usize, 0usize, 0usize, 0usize)),
    {
        Bencher {
            name: name.to_owned(),
            count,
            steps: Vec::new(),
            bytes,
            n: 0,
            poll: 0,
            passed: 0,
            display_bytes,
            alloc,
            mem_track: (0, 0, 0, 0),
        }
    }

    /// Fail-fast construction: a configuration with a zero target sample
    /// count is refused, every other configuration is accepted.
    pub fn try_new(
        name: &str,
        count: usize,
        bytes: usize,
        display_bytes: bool,
        alloc: AllocHandle,
    ) -> (r: Option<Bencher>)
        ensures
            r.is_some() <==> count >= 1,
            r.is_some() ==> r.unwrap().name@ == name@ && r.unwrap().count == count
                && r.unwrap().steps@ == Seq::<Step>::empty() && r.unwrap().bytes == bytes
                && r.unwrap().n == 0 && r.unwrap().poll == 0 && r.unwrap().passed == 0
                && r.unwrap().display_bytes == display_bytes && r.unwrap().alloc == alloc
                && r.unwrap().mem_track == ((0usize, 0usize, 0usize, 0usize)),
    {
        if count >= 1 {
            Some(Bencher::new(name, count, bytes, display_bytes, alloc))
        } else {
            None
        }
    }

    /// Run one batch of up to `n` instrumented repetitions of `f`.
    /// Allocation metrics are tracked as the maximum observed over the
    /// batch's repetitions — worst-case allocation behaviour per call —
    /// with leaked bytes floored at zero. Returns the batch's elapsed
    /// nanoseconds, peak bytes allocated, peak allocation count, peak
    /// leaked bytes, and the number of repetitions completed. That number
    /// never drives the cumulative counter past the iteration ceiling;
    /// for batches of ten or more repetitions the deadline is never
    /// consulted, so the count is exactly `n` or whatever the ceiling
    /// still admits; in a slow batch the clock is consulted only after
    /// its first four repetitions, which therefore always run.
    pub fn bench_once<T, F: Fn() -> T>(
        &mut self,
        f: &F,
        n: usize,
        deadline: u128,
        started: &std::time::Instant,
    ) -> (r: (u128, usize, usize, usize, usize))
        requires
            call_requires(*f, ()),
        ensures
            r.4 <= n,
            old(self).passed + r.4 <= vstd::math::max(
                old(self).passed as int,
                MAX_ITERATIONS as int,
            ),
            r.4 as int >= vstd::math::min(
                vstd::math::min(n as int, 4),
                vstd::math::max(0, MAX_ITERATIONS as int - old(self).passed as int),
            ),
            n >= 10 ==> r.4 as int == vstd::math::min(
                n as int,
                vstd::math::max(0, MAX_ITERATIONS as int - old(self).passed as int),
            ),
            exists|ds: Seq<(usize, usize, usize)>| batch_metrics_fold(ds, r),
            final(self).name == old(self).name,
            final(self).count == old(self).count,
            final(self).steps == old(self).steps,
            final(self).bytes == old(self).bytes,
            final(self).n == old(self).n,
            final(self).poll == old(self).poll,
            final(self).passed == old(self).passed,
            final(self).display_bytes == old(self).display_bytes,
            final(self).alloc == old(self).alloc,
            final(self).mem_track == ((0usize, 0usize, 0usize, 0usize)),
    {
        self.reset_mem();

        let mut allocations: usize = 0;
        let mut allocated_bytes: usize = 0;
        let mut leaked_bytes: usize = 0;
        let now: u128 = nanos_since(started);
        let mut passed: usize = 0;
        let ghost mut ds: Seq<(usize, usize, usize)> = Seq::empty();
        let mut reg = region_open(&self.alloc);

        let mut i: usize = 0;
        while i < n
            invariant
                call_requires(*f, ()),
                0 <= i <= n,
                passed == i,
                passed as int <= vstd::math::max(
                    0,
                    MAX_ITERATIONS as int - self.passed as int,
                ),
                ds.len() == passed as nat,
                allocations as int == crate::max_int(deltas_allocs(ds)),
                allocated_bytes as int == crate::max_int(deltas_allocated(ds)),
                leaked_bytes as int == crate::max_int(deltas_leaked(ds)),
            ensures
                passed as int >= vstd::math::min(
                    vstd::math::min(n as int, 4),
                    vstd::math::max(0, MAX_ITERATIONS as int - self.passed as int),
                ),
                n >= 10 ==> passed as int == vstd::math::min(
                    n as int,
                    vstd::math::max(0, MAX_ITERATIONS as int - self.passed as int),
                ),
            decreases n - i,
        {
            // Repetitions are checked against the total ceiling; slow
            // repetitions (n < 10) are also checked against the deadline,
            // once more than three of this batch are done.
            let ceiling_hit: bool =
                (self.passed as u128) + (passed as u128) >= (MAX_ITERATIONS as u128);
            let slow_deadline_hit: bool = if n < 10 && passed > 3 {
                nanos_since(started) >= deadline
            } else {
                false
            };
            if ceiling_hit || slow_deadline_hit {
                break;
            }

            region_reset(&mut reg);
            let output = f();
            sink(output);
            let (d_allocs, d_allocated, d_deallocated) = region_change(&reg);
            proof {
                lemma_max_push(deltas_allocs(ds), d_allocs as int);
                lemma_max_push(deltas_allocated(ds), d_allocated as int);
                lemma_max_push(
                    deltas_leaked(ds),
                    if d_allocated >= d_deallocated {
                        d_allocated - d_deallocated
                    } else {
                        0
                    },
                );
                assert(deltas_allocs(ds.push((d_allocs, d_allocated, d_deallocated)))
                    =~= deltas_allocs(ds).push(d_allocs as int));
                assert(deltas_allocated(ds.push((d_allocs, d_allocated, d_deallocated)))
                    =~= deltas_allocated(ds).push(d_allocated as int));
                assert(deltas_leaked(ds.push((d_allocs, d_allocated, d_deallocated)))
                    =~= deltas_leaked(ds).push(
                    if d_allocated >= d_deallocated {
                        d_allocated - d_deallocated
                    } else {
                        0
                    },
                ));
            }
            if d_allocs > allocations {
                allocations = d_allocs;
            }
            if d_allocated > allocated_bytes {
                allocated_bytes = d_allocated;
            }
            let leaked: usize = if d_allocated >= d_deallocated {
                d_allocated - d_deallocated
            } else {
                0
            };
            if leaked > leaked_bytes {
                leaked_bytes = leaked;
            }
            proof {
                ds = ds.push((d_allocs, d_allocated, d_deallocated));
            }
            passed = passed + 1;
            i = i + 1;
        }

        let after: u128 = nanos_since(started);
        let batch_elapsed: u128 = if after >= now {
            after - now
        } else {
            0
        };
        let r = (batch_elapsed, allocated_bytes, allocations, leaked_bytes, passed);
        proof {
            assert(batch_metrics_fold(ds, r));
        }
        r
    }

    /// Fold one batch result into the run: a batch that completed at
    /// least one repetition appends a step whose per-operation time is
    /// the batch's elapsed nanoseconds divided by its repetitions and
    /// whose remaining fields are the batch's peak metrics, and advances
    /// the cumulative counter by those repetitions; a batch that
    /// completed none changes nothing.
    pub fn apply_batch(&mut self, res: (u128, usize, usize, usize, usize))
        requires
            old(self).passed + res.4 <= usize::MAX,
        ensures
            res.4 == 0 ==> *final(self) == *old(self),
            res.4 >= 1 ==> final(self).steps@ == old(self).steps@.push(
                (Step {
                    time: res.0 / res.4 as u128,
                    mem: res.1,
                    allocations: res.2,
                    leaked_bytes: res.3,
                }),
            ),
            res.4 >= 1 ==> final(self).passed == old(self).passed + res.4,
            final(self).name == old(self).name,
            final(self).count == old(self).count,
            final(self).bytes == old(self).bytes,
            final(self).n == old(self).n,
            final(self).poll == old(self).poll,
            final(self).display_bytes == old(self).display_bytes,
            final(self).alloc == old(self).alloc,
            final(self).mem_track == old(self).mem_track,
    {
        if res.4 != 0 {
            let time: u128 = res.0 / (res.4 as u128);
            self.steps.push(Step {
                time,
                mem: res.1,
                allocations: res.2,
                leaked_bytes: res.3,
            });
            self.passed = self.passed + res.4;
        }
    }

    /// Calibrate against one measured call of `f`, then sample up to
    /// `count` batches, folding each batch in through `apply_batch`: one
    /// step per batch that completed at least one repetition, earlier
    /// steps kept in order, the cumulative repetition counter advanced by
    /// each batch's repetitions and never past the iteration ceiling. A
    /// run that starts below the ceiling with a positive batch count
    /// always yields its first step, and a fresh run whose batches hold
    /// ten or more repetitions advances the counter by exactly one batch
    /// size per step until the ceiling cuts the last batch short — so
    /// such a run stops at the ceiling exactly.
    pub fn iter<T, F: Fn() -> T>(&mut self, f: F)
        requires
            call_requires(f, ()),
        ensures
            old(self).steps@.is_prefix_of(final(self).steps@),
            final(self).steps@.len() <= old(self).steps@.len() + old(self).count,
            final(self).passed as int <= vstd::math::max(
                old(self).passed as int,
                MAX_ITERATIONS as int,
            ),
            final(self).passed >= old(self).passed,
            final(self).passed as int - old(self).passed as int >= final(self).steps@.len() as int
                - old(self).steps@.len() as int,
            final(self).steps@.len() == old(self).steps@.len() ==> final(self).passed == old(
                self,
            ).passed,
            old(self).passed < MAX_ITERATIONS && old(self).count >= 1
                ==> final(self).steps@.len() >= old(self).steps@.len() + 1,
            final(self).n >= 10 && old(self).passed == 0 ==> spec_run_trajectory(
                final(self).steps@.len() - old(self).steps@.len(),
                final(self).n as int,
                final(self).passed as int,
            ),
            1 <= final(self).n <= 1000000,
            final(self).name == old(self).name,
            final(self).count == old(self).count,
            final(self).bytes == old(self).bytes,
            final(self).poll == old(self).poll,
            final(self).display_bytes == old(self).display_bytes,
            final(self).alloc == old(self).alloc,
            final(self).mem_track == ((0usize, 0usize, 0usize, 0usize)),
    {
        let started = monotonic_now();
        let deadline: u128 = DEFAULT_DEADLINE_NS;

        let single = self.bench_once(&f, 1, deadline, &started);
        self.n = calibrate(single.0);
        let ghost n0: int = self.n as int;

        let mut b: usize = 0;
        while b < self.count
            invariant
                call_requires(f, ()),
                0 <= b <= self.count,
                self.n as int == n0,
                1 <= n0 <= 1000000,
                self.name == old(self).name,
                self.count == old(self).count,
                self.bytes == old(self).bytes,
                self.poll == old(self).poll,
                self.display_bytes == old(self).display_bytes,
                self.alloc == old(self).alloc,
                self.mem_track == ((0usize, 0usize, 0usize, 0usize)),
                old(self).steps@.is_prefix_of(self.steps@),
                self.steps@.len() <= old(self).steps@.len() + b,
                self.passed as int <= vstd::math::max(
                    old(self).passed as int,
                    MAX_ITERATIONS as int,
                ),
                self.passed >= old(self).passed,
                self.passed as int - old(self).passed as int >= self.steps@.len() as int - old(
                    self,
                ).steps@.len() as int,
                self.steps@.len() == old(self).steps@.len() ==> self.passed == old(self).passed,
                b == 0 ==> self.passed == old(self).passed && self.steps@ == old(self).steps@,
                b >= 1 && old(self).passed < MAX_ITERATIONS ==> self.steps@.len() >= old(
                    self,
                ).steps@.len() + 1,
                n0 >= 10 && old(self).passed == 0 ==> spec_run_trajectory(
                    self.steps@.len() - old(self).steps@.len(),
                    n0,
                    self.passed as int,
                ),
            ensures
                old(self).passed < MAX_ITERATIONS && self.count >= 1 ==> self.steps@.len() >= old(
                    self,
                ).steps@.len() + 1,
            decreases self.count - b,
        {
            let elapsed: u128 = nanos_since(&started);
            if should_stop_run(b, self.passed, elapsed, deadline) {
                break;
            }
            let ghost k: int = self.steps@.len() as int - old(self).steps@.len() as int;
            let inner = self.n;
            let res = self.bench_once(&f, inner, deadline, &started);
            proof {
                assert((k + 1) * n0 == k * n0 + n0) by (nonlinear_arith);
                assert(k * n0 >= 0) by (nonlinear_arith)
                    requires k >= 0, n0 >= 1;
            }
            self.apply_batch(res);
            b = b + 1;
        }
    }

    /// Reduce the collected steps to their summary.
    pub fn finish(&self) -> (stats: Stats)
        ensures
            stats == spec_stats(self.steps@),
    {
        Stats::from_steps(&self.steps)
    }

    /// Reduce the collected steps to their summary and hand it, together
    /// with the run state, to the given reporting hook.
    pub fn finish_with<F: Fn(&Stats, &Bencher)>(&self, hook: &F) -> (stats: Stats)
        requires
            forall|s: &Stats, b: &Bencher| call_requires(*hook, (s, b)),
        ensures
            stats == spec_stats(self.steps@),
    {
        let stats = Stats::from_steps(&self.steps);
        hook(&stats, self);
        stats
    }

    /// Zero the auxiliary memory counters; every other field is kept.
    pub fn reset_mem(&mut self)
        ensures
            final(self).mem_track == ((0usize, 0usize, 0usize, 0usize)),
            final(self).name == old(self).name,
            final(self).count == old(self).count,
            final(self).steps == old(self).steps,
            final(self).bytes == old(self).bytes,
            final(self).n == old(self).n,
            final(self).poll == old(self).poll,
            final(self).passed == old(self).passed,
            final(self).display_bytes == old(self).display_bytes,
            final(self).alloc == old(self).alloc,
    {
        self.mem_track = (0, 0, 0, 0);
    }

    /// The auxiliary memory counters: bytes, allocations, leaked.
    pub fn get_mem(&self) -> (r: (usize, usize, usize))
        ensures
            r == ((self.mem_track.1, self.mem_track.2, self.mem_track.3)),
    {
        (self.mem_track.1, self.mem_track.2, self.mem_track.3)
    }

    /// Append the step that one completed batch yields — per-operation
    /// time is the batch's accumulated time divided by its repetitions —
    /// and add those repetitions to the cumulative counter.
    pub fn push_step(&mut self, batch: &AsyncBatch)
        requires
            batch.passed >= 1,
            old(self).passed + batch.passed <= usize::MAX,
        ensures
            final(self).steps@ == old(self).steps@.push(
                Step {
                    time: batch.mtime / batch.passed as u128,
                    mem: batch.allocated_bytes,
                    allocations: batch.allocations,
                    leaked_bytes: batch.leaked_bytes,
                },
            ),
            final(self).passed == old(self).passed + batch.passed,
            final(self).name == old(self).name,
            final(self).count == old(self).count,
            final(self).bytes == old(self).bytes,
            final(self).n == old(self).n,
            final(self).poll == old(self).poll,
            final(self).display_bytes == old(self).display_bytes,
            final(self).alloc == old(self).alloc,
            final(self).mem_track == old(self).mem_track,
    {
        let time: u128 = batch.mtime / (batch.passed as u128);
        self.steps.push(Step {
            time,
            mem: batch.allocated_bytes,
            allocations: batch.allocations,
            leaked_bytes: batch.leaked_bytes,
        });
        self.passed = self.passed + batch.passed;
    }
}

/// Accumulators for one batch whose repetitions are timed one by one (the
/// asynchronous path): total measured time, peak allocation metrics, and
/// the number of repetitions completed.
pub struct AsyncBatch {
    pub mtime: u128,
    pub allocations: usize,
    pub allocated_bytes: usize,
    pub leaked_bytes: usize,
    pub passed: usize,
}

impl AsyncBatch {
    /// A batch with nothing recorded yet.
    pub fn new() -> (b: AsyncBatch)
        ensures
            b.mtime == 0,
            b.allocations == 0,
            b.allocated_bytes == 0,
            b.leaked_bytes == 0,
            b.passed == 0,
    {
        AsyncBatch { mtime: 0, allocations: 0, allocated_bytes: 0, leaked_bytes: 0, passed: 0 }
    }

    /// Fold one driven repetition into the batch: its measured time
    /// accumulates (saturating at the counter's range), the allocation
    /// metrics keep their maxima, and leaked bytes — allocated minus
    /// deallocated — are floored at zero.
    pub fn record(
        &mut self,
        elapsed: u128,
        allocations: usize,
        allocated: usize,
        deallocated: usize,
    )
        requires
            old(self).passed < usize::MAX,
        ensures
            final(self).mtime as int == (if old(self).mtime as int + elapsed as int
                <= u128::MAX as int {
                old(self).mtime as int + elapsed as int
            } else {
                u128::MAX as int
            }),
            final(self).allocations as int == vstd::math::max(
                old(self).allocations as int,
                allocations as int,
            ),
            final(self).allocated_bytes as int == vstd::math::max(
                old(self).allocated_bytes as int,
                allocated as int,
            ),
            final(self).leaked_bytes as int == vstd::math::max(
                old(self).leaked_bytes as int,
                (if allocated >= deallocated {
                    allocated - deallocated
                } else {
                    0
                }) as int,
            ),
            final(self).passed == old(self).passed + 1,
    {
        self.mtime = if self.mtime <= u128::MAX - elapsed {
            self.mtime + elapsed
        } else {
            u128::MAX
        };
        if allocations > self.allocations {
            self.allocations = allocations;
        }
        if allocated > self.allocated_bytes {
            self.allocated_bytes = allocated;
        }
        let leaked: usize = if allocated >= deallocated {
            allocated - deallocated
        } else {
            0
        };
        if leaked > self.leaked_bytes {
            self.leaked_bytes = leaked;
        }
        self.passed = self.passed + 1;
    }
}

pub open spec fn polls_of(s: Seq<usize>) -> Seq<int> {
    s.map_values(|p: usize| p as int)
}

/// The average poll count over a run: the floored mean of the recorded
/// per-repetition poll counts, zero when nothing was recorded.
pub open spec fn spec_poll_average(s: Seq<usize>) -> int {
    if s.len() == 0 {
        0
    } else {
        sum_int(polls_of(s)) / s.len() as int
    }
}

/// Reduce the recorded per-repetition poll counts to their average.
pub fn poll_average(polls: &Vec<usize>) -> (r: usize)
    ensures
        r as int == spec_poll_average(polls@),
{
    let n = polls.len();
    if n == 0 {
        return 0;
    }
    let ghost ps = polls_of(polls@);
    let mut total: u128 = 0;
    let mut i: usize = 0;
    while i < n
        invariant
            0 <= i <= n,
            n == polls@.len(),
            1 <= n,
            ps == polls_of(polls@),
            total as int == sum_int(ps.take(i as int)),
            total as int <= i as int * (usize::MAX as int),
        decreases n - i,
    {
        let p: usize = polls[i];
        proof {
            crate::lemma_fold_step(ps, 1, i as int);
            assert((i as int + 1) * (usize::MAX as int)
                == i as int * (usize::MAX as int) + usize::MAX as int) by (nonlinear_arith);
            assert(n as int * (usize::MAX as int) <= u128::MAX as int) by (nonlinear_arith)
                requires 1 <= n as int <= u64::MAX as int;
            assert((i as int + 1) * (usize::MAX as int) <= n as int * (usize::MAX as int))
                by (nonlinear_arith)
                requires i as int + 1 <= n as int, 0 <= usize::MAX as int;
        }
        total = total + (p as u128);
        i = i + 1;
    }
    proof {
        assert(ps.take(n as int) =~= ps);
        crate::lemma_sum_bounds(ps);
        crate::lemma_max_le(ps, usize::MAX as int);
        vstd::arithmetic::div_mod::lemma_div_is_ordered(
            sum_int(ps),
            n as int * crate::max_int(ps),
            n as int,
        );
        vstd::arithmetic::div_mod::lemma_div_multiples_vanish(crate::max_int(ps), n as int);
        vstd::arithmetic::div_mod::lemma_div_is_ordered(0, sum_int(ps), n as int);
    }
    let avg: u128 = total / (n as u128);
    avg as usize
}

/// Law: when every repetition of a run records the same poll count `k`,
/// the reported average poll count is exactly `k`.
pub proof fn lemma_poll_average_constant(s: Seq<usize>, k: usize)
    requires
        s.len() > 0,
        forall|i: int| 0 <= i < s.len() ==> s[i] == k,
    ensures
        spec_poll_average(s) == k as int,
{
    lemma_sum_constant(polls_of(s), k as int);
    vstd::arithmetic::div_mod::lemma_div_multiples_vanish(k as int, s.len() as int);
    assert(s.len() as int * k as int == k as int * s.len() as int) by (nonlinear_arith);
}

/// The sum of a constant sequence is its length times the constant.
proof fn lemma_sum_constant(s: Seq<int>, k: int)
    requires
        forall|i: int| 0 <= i < s.len() ==> s[i] == k,
    ensures
        sum_int(s) == s.len() * k,
    decreases s.len(),
{
    if s.len() == 0 {
        assert(0int * k == 0) by (nonlinear_arith);
    } else {
        lemma_sum_constant(s.drop_last(), k);
        assert(s.last() == k);
        assert(s.len() as int * k == (s.len() - 1) * k + k) by (nonlinear_arith);
    }
}

} // verus!
