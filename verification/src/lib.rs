use vstd::prelude::*;

pub mod bencher;
pub mod fmt;
pub mod probe;

pub use bencher::AsyncBatch;
pub use bencher::Bencher;
pub use bencher::calibrate;
pub use bencher::poll_average;
pub use bencher::should_stop_rep;
pub use bencher::should_stop_run;
pub use probe::instrumented_system;

pub use fmt::format_duration;
pub use fmt::format_name;
pub use fmt::format_ops;

verus! {

use vstd::arithmetic::div_mod::lemma_fundamental_div_mod;
use vstd::arithmetic::div_mod::lemma_div_is_ordered;
use vstd::arithmetic::div_mod::lemma_div_multiples_vanish_fancy;

/// One reduced measurement produced by one batch of repetitions:
/// per-operation time in nanoseconds, peak memory observed over the
/// batch, peak allocation count, and peak leaked bytes.
#[derive(Debug, Clone, Copy, PartialEq, Eq, Structural)]
pub struct Step {
    pub time: u128,
    pub mem: usize,
    pub allocations: usize,
    pub leaked_bytes: usize,
}

/// Summary of an ordered sequence of `Step`s: average/min/max time,
/// average/min/max memory, and the worst observed allocation count and
/// leaked bytes.
#[derive(Debug, Clone, Copy, PartialEq, Eq, Structural)]
pub struct Stats {
    pub times_average: usize,
    pub times_min: usize,
    pub times_max: usize,

    pub mem_average: usize,
    pub mem_min: usize,
    pub mem_max: usize,

    pub allocations: usize,
    pub leaked_bytes: usize,
}

/// Sum of a sequence of integers.
pub open spec fn sum_int(s: Seq<int>) -> int
    decreases s.len(),
{
    if s.len() == 0 {
        0
    } else {
        sum_int(s.drop_last()) + s.last()
    }
}

/// Maximum of a sequence of integers, floored at zero; 0 for the empty
/// sequence.
pub open spec fn max_int(s: Seq<int>) -> int
    decreases s.len(),
{
    if s.len() == 0 {
        0
    } else {
        vstd::math::max(max_int(s.drop_last()), s.last())
    }
}

/// Minimum of a non-empty sequence of integers; 0 for the empty sequence.
pub open spec fn min_int(s: Seq<int>) -> int
    decreases s.len(),
{
    if s.len() == 0 {
        0
    } else if s.len() == 1 {
        s.last()
    } else {
        vstd::math::min(min_int(s.drop_last()), s.last())
    }
}

pub open spec fn times_of(s: Seq<Step>) -> Seq<int> {
    s.map_values(|st: Step| st.time as int)
}

pub open spec fn mems_of(s: Seq<Step>) -> Seq<int> {
    s.map_values(|st: Step| st.mem as int)
}

pub open spec fn allocs_of(s: Seq<Step>) -> Seq<int> {
    s.map_values(|st: Step| st.allocations as int)
}

pub open spec fn leakeds_of(s: Seq<Step>) -> Seq<int> {
    s.map_values(|st: Step| st.leaked_bytes as int)
}

/// Clamp a mathematical integer into the `usize` range.
pub open spec fn sat_usize(x: int) -> usize {
    if x > usize::MAX as int {
        usize::MAX
    } else if x < 0 {
        0
    } else {
        x as usize
    }
}

/// The summary that an empty sequence of steps reduces to: all fields zero.
pub open spec fn zero_stats() -> Stats {
    Stats {
        times_average: 0,
        times_min: 0,
        times_max: 0,
        mem_average: 0,
        mem_min: 0,
        mem_max: 0,
        allocations: 0,
        leaked_bytes: 0,
    }
}

/// The summary of a sequence of steps: averages are the floored mean,
/// minima and maxima are taken per field, and `allocations` and
/// `leaked_bytes` are maxima (worst observed), never sums or averages.
/// Values beyond the `usize` range are clamped to `usize::MAX`.
pub open spec fn spec_stats(s: Seq<Step>) -> Stats {
    if s.len() == 0 {
        zero_stats()
    } else {
        Stats {
            times_average: sat_usize(sum_int(times_of(s)) / s.len() as int),
            times_min: sat_usize(min_int(times_of(s))),
            times_max: sat_usize(max_int(times_of(s))),
            mem_average: sat_usize(sum_int(mems_of(s)) / s.len() as int),
            mem_min: sat_usize(min_int(mems_of(s))),
            mem_max: sat_usize(max_int(mems_of(s))),
            allocations: sat_usize(max_int(allocs_of(s))),
            leaked_bytes: sat_usize(max_int(leakeds_of(s))),
        }
    }
}

/// Sum of the floored quotients of a sequence of integers by `d`.
pub open spec fn sum_div(s: Seq<int>, d: int) -> int
    decreases s.len(),
{
    if s.len() == 0 {
        0
    } else {
        sum_div(s.drop_last(), d) + s.last() / d
    }
}

/// Sum of the remainders of a sequence of integers modulo `d`.
pub open spec fn sum_mod(s: Seq<int>, d: int) -> int
    decreases s.len(),
{
    if s.len() == 0 {
        0
    } else {
        sum_mod(s.drop_last(), d) + s.last() % d
    }
}

/// Extending a prefix by one element extends each fold by that element.
pub(crate) proof fn lemma_fold_step(s: Seq<int>, d: int, i: int)
    requires
        0 <= i < s.len(),
        d >= 1,
    ensures
        sum_int(s.take(i + 1)) == sum_int(s.take(i)) + s[i],
        max_int(s.take(i + 1)) == vstd::math::max(max_int(s.take(i)), s[i]),
        min_int(s.take(i + 1)) == (if i == 0 {
            s[i]
        } else {
            vstd::math::min(min_int(s.take(i)), s[i])
        }),
        sum_div(s.take(i + 1), d) == sum_div(s.take(i), d) + s[i] / d,
        sum_mod(s.take(i + 1), d) == sum_mod(s.take(i), d) + s[i] % d,
{
    assert(s.take(i + 1).drop_last() =~= s.take(i));
    assert(s.take(i + 1).last() == s[i]);
}

/// A bound on every element bounds the maximum fold.
pub(crate) proof fn lemma_max_le(s: Seq<int>, bound: int)
    requires
        bound >= 0,
        forall|i: int| 0 <= i < s.len() ==> s[i] <= bound,
    ensures
        max_int(s) <= bound,
    decreases s.len(),
{
    if s.len() > 0 {
        lemma_max_le(s.drop_last(), bound);
        assert(s.last() == s[s.len() - 1]);
    }
}

/// The sum of a sequence lies between `len * min` and `len * max`.
pub(crate) proof fn lemma_sum_bounds(s: Seq<int>)
    ensures
        s.len() * min_int(s) <= sum_int(s),
        sum_int(s) <= s.len() * max_int(s),
    decreases s.len(),
{
    if s.len() == 0 {
    } else if s.len() == 1 {
        assert(sum_int(s) == sum_int(s.drop_last()) + s.last());
        assert(max_int(s) >= s.last());
        assert(s.len() * min_int(s) == min_int(s)) by (nonlinear_arith)
            requires s.len() == 1;
        assert(s.len() * max_int(s) == max_int(s)) by (nonlinear_arith)
            requires s.len() == 1;
    } else {
        let t = s.drop_last();
        lemma_sum_bounds(t);
        let k = t.len() as int;
        assert(k * min_int(t) >= k * min_int(s)) by (nonlinear_arith)
            requires k >= 0, min_int(t) >= min_int(s);
        assert(k * max_int(t) <= k * max_int(s)) by (nonlinear_arith)
            requires k >= 0, max_int(t) <= max_int(s);
        assert((k + 1) * min_int(s) == k * min_int(s) + min_int(s)) by (nonlinear_arith);
        assert((k + 1) * max_int(s) == k * max_int(s) + max_int(s)) by (nonlinear_arith);
    }
}

/// A sum decomposes into `d` times the sum of quotients plus the sum of
/// remainders.
pub(crate) proof fn lemma_sum_div_mod(s: Seq<int>, d: int)
    requires
        d >= 1,
    ensures
        sum_int(s) == d * sum_div(s, d) + sum_mod(s, d),
    decreases s.len(),
{
    if s.len() == 0 {
        assert(d * 0 == 0) by (nonlinear_arith);
    } else {
        let t = s.drop_last();
        lemma_sum_div_mod(t, d);
        lemma_fundamental_div_mod(s.last(), d);
        assert(d * (sum_div(t, d) + s.last() / d) == d * sum_div(t, d) + d * (s.last() / d))
            by (nonlinear_arith);
    }
}

/// Dividing `d * a + b` by `d` shifts out the multiple: the result is
/// `a + b / d`.
pub(crate) proof fn lemma_div_shift(a: int, b: int, d: int)
    requires
        d >= 1,
        b >= 0,
    ensures
        (d * a + b) / d == a + b / d,
{
    lemma_fundamental_div_mod(b, d);
    assert(0 <= b % d < d) by {
        vstd::arithmetic::div_mod::lemma_mod_bound(b, d);
    }
    assert(d * a + b == d * (a + b / d) + b % d) by (nonlinear_arith)
        requires b == d * (b / d) + b % d;
    lemma_div_multiples_vanish_fancy(a + b / d, b % d, d);
}

/// Law: for every non-empty step sequence, the summary keeps
/// `times_min <= times_average <= times_max`, and the same order for the
/// memory fields.
pub proof fn lemma_stats_ordered(s: Seq<Step>)
    requires
        s.len() > 0,
    ensures
        spec_stats(s).times_min <= spec_stats(s).times_average,
        spec_stats(s).times_average <= spec_stats(s).times_max,
        spec_stats(s).mem_min <= spec_stats(s).mem_average,
        spec_stats(s).mem_average <= spec_stats(s).mem_max,
{
    let len = s.len() as int;
    let ts = times_of(s);
    let ms = mems_of(s);
    lemma_sum_bounds(ts);
    lemma_sum_bounds(ms);
    lemma_div_is_ordered(len * min_int(ts), sum_int(ts), len);
    lemma_div_is_ordered(sum_int(ts), len * max_int(ts), len);
    lemma_div_is_ordered(len * min_int(ms), sum_int(ms), len);
    lemma_div_is_ordered(sum_int(ms), len * max_int(ms), len);
    vstd::arithmetic::div_mod::lemma_div_multiples_vanish(min_int(ts), len);
    vstd::arithmetic::div_mod::lemma_div_multiples_vanish(max_int(ts), len);
    vstd::arithmetic::div_mod::lemma_div_multiples_vanish(min_int(ms), len);
    vstd::arithmetic::div_mod::lemma_div_multiples_vanish(max_int(ms), len);
}

impl Stats {
    /// Reduce an ordered sequence of steps to its summary. The empty
    /// sequence reduces to the all-zero summary rather than dividing by
    /// zero.
    pub fn from_steps(steps: &Vec<Step>) -> (r: Stats)
        ensures
            r == spec_stats(steps@),
            steps@.len() > 0 ==> r.allocations == sat_usize(max_int(allocs_of(steps@))),
            steps@.len() > 0 ==> r.leaked_bytes == sat_usize(max_int(leakeds_of(steps@))),
    {
        let n = steps.len();
        if n == 0 {
            return Stats {
                times_average: 0,
                times_min: 0,
                times_max: 0,
                mem_average: 0,
                mem_min: 0,
                mem_max: 0,
                allocations: 0,
                leaked_bytes: 0,
            };
        }
        let ghost ts = times_of(steps@);
        let ghost ms = mems_of(steps@);
        let ghost als = allocs_of(steps@);
        let ghost lks = leakeds_of(steps@);
        let n128 = n as u128;
        let ghost nd = n as int;
        let mut tq: u128 = 0;
        let mut tr: u128 = 0;
        let mut tmin: u128 = 0;
        let mut tmax: u128 = 0;
        let mut msum: u128 = 0;
        let mut mmin: usize = 0;
        let mut mmax: usize = 0;
        let mut amax: usize = 0;
        let mut lmax: usize = 0;
        let mut i: usize = 0;
        while i < n
            invariant
                1 <= n <= usize::MAX,
                0 <= i <= n,
                n == steps@.len(),
                n128 == n as u128,
                nd == n as int,
                ts == times_of(steps@),
                ms == mems_of(steps@),
                als == allocs_of(steps@),
                lks == leakeds_of(steps@),
                tq as int == sum_div(ts.take(i as int), n as int),
                tq as int <= i as int * (u128::MAX as int / n as int),
                tr as int == sum_mod(ts.take(i as int), n as int),
                tr as int <= i as int * (n as int - 1),
                tmax as int == max_int(ts.take(i as int)),
                i > 0 ==> tmin as int == min_int(ts.take(i as int)),
                msum as int == sum_int(ms.take(i as int)),
                msum as int <= i as int * (usize::MAX as int),
                mmax as int == max_int(ms.take(i as int)),
                i > 0 ==> mmin as int == min_int(ms.take(i as int)),
                amax as int == max_int(als.take(i as int)),
                lmax as int == max_int(lks.take(i as int)),
            decreases n - i,
        {
            let t: u128 = steps[i].time;
            let m: usize = steps[i].mem;
            let a: usize = steps[i].allocations;
            let l: usize = steps[i].leaked_bytes;
            proof {
                lemma_fold_step(ts, nd, i as int);
                lemma_fold_step(ms, nd, i as int);
                lemma_fold_step(als, nd, i as int);
                lemma_fold_step(lks, nd, i as int);
                lemma_div_is_ordered(t as int, u128::MAX as int, nd);
                vstd::arithmetic::div_mod::lemma_mod_bound(t as int, nd);
                assert((i as int + 1) * (u128::MAX as int / nd) <= nd * (u128::MAX as int / nd))
                    by (nonlinear_arith)
                    requires i as int + 1 <= nd, 0 <= u128::MAX as int / nd;
                assert(nd * (u128::MAX as int / nd) <= u128::MAX as int) by {
                    lemma_fundamental_div_mod(u128::MAX as int, nd);
                    vstd::arithmetic::div_mod::lemma_mod_bound(u128::MAX as int, nd);
                }
                assert((i as int + 1) * (u128::MAX as int / nd)
                    == i as int * (u128::MAX as int / nd) + u128::MAX as int / nd)
                    by (nonlinear_arith);
                assert((i as int + 1) * (nd - 1) == i as int * (nd - 1) + (nd - 1))
                    by (nonlinear_arith);
                assert((i as int + 1) * (nd - 1) <= u128::MAX as int) by (nonlinear_arith)
                    requires 1 <= nd <= usize::MAX as int + 1, 0 <= i as int + 1 <= nd;
                assert((i as int + 1) * (usize::MAX as int)
                    == i as int * (usize::MAX as int) + usize::MAX as int) by (nonlinear_arith);
                assert(nd * (usize::MAX as int) <= u128::MAX as int) by (nonlinear_arith)
                    requires 1 <= nd <= usize::MAX as int;
                assert(i as int * (usize::MAX as int) <= nd * (usize::MAX as int))
                    by (nonlinear_arith)
                    requires i as int <= nd, 0 <= usize::MAX as int;
                assert(i as int * (u128::MAX as int / nd) >= 0) by (nonlinear_arith)
                    requires i as int >= 0, u128::MAX as int / nd >= 0;
                assert(i as int * (nd - 1) >= 0) by (nonlinear_arith)
                    requires i as int >= 0, nd - 1 >= 0;
                assert(i as int * (usize::MAX as int) >= 0) by (nonlinear_arith)
                    requires i as int >= 0;
                assert((i as int) * (u128::MAX as int / nd) + u128::MAX as int / nd
                    <= nd * (u128::MAX as int / nd)) by (nonlinear_arith)
                    requires i as int + 1 <= nd, 0 <= u128::MAX as int / nd;
            }
            tq = tq + t / n128;
            tr = tr + t % n128;
            if t > tmax {
                tmax = t;
            }
            if i == 0 || t < tmin {
                tmin = t;
            }
            msum = msum + (m as u128);
            if m > mmax {
                mmax = m;
            }
            if i == 0 || m < mmin {
                mmin = m;
            }
            if a > amax {
                amax = a;
            }
            if l > lmax {
                lmax = l;
            }
            i = i + 1;
        }
        proof {
            assert(ts.take(n as int) =~= ts);
            assert(ms.take(n as int) =~= ms);
            assert(als.take(n as int) =~= als);
            assert(lks.take(n as int) =~= lks);
            lemma_sum_div_mod(ts, nd);
            lemma_div_shift(tq as int, tr as int, nd);
            lemma_sum_bounds(ts);
            lemma_sum_bounds(ms);
            assert(sum_int(ts) / nd <= (nd * max_int(ts)) / nd) by {
                lemma_div_is_ordered(sum_int(ts), nd * max_int(ts), nd);
            }
            assert((nd * max_int(ts)) / nd == max_int(ts)) by {
                vstd::arithmetic::div_mod::lemma_div_multiples_vanish(max_int(ts), nd);
            }
            assert(sum_int(ms) / nd <= (nd * max_int(ms)) / nd) by {
                lemma_div_is_ordered(sum_int(ms), nd * max_int(ms), nd);
            }
            assert((nd * max_int(ms)) / nd == max_int(ms)) by {
                vstd::arithmetic::div_mod::lemma_div_multiples_vanish(max_int(ms), nd);
            }
            assert(tr as int / nd >= 0) by {
                lemma_div_is_ordered(0, tr as int, nd);
            }
            assert(max_int(ts) <= u128::MAX as int);
            assert(max_int(ms) <= usize::MAX as int);
        }
        let tavg: u128 = tq + tr / n128;
        let mavg: u128 = msum / n128;
        let times_average: usize = if tavg > usize::MAX as u128 {
            usize::MAX
        } else {
            tavg as usize
        };
        let times_min: usize = if tmin > usize::MAX as u128 {
            usize::MAX
        } else {
            tmin as usize
        };
        let times_max: usize = if tmax > usize::MAX as u128 {
            usize::MAX
        } else {
            tmax as usize
        };
        Stats {
            times_average,
            times_min,
            times_max,
            mem_average: mavg as usize,
            mem_min: mmin,
            mem_max: mmax,
            allocations: amax,
            leaked_bytes: lmax,
        }
    }
}

impl<'a> From<&'a Vec<Step>> for Stats {
    /// Reduce a step sequence to its summary; see `Stats::from_steps`.
    fn from(steps: &'a Vec<Step>) -> (r: Stats)
        ensures
            r == spec_stats(steps@),
    {
        Stats::from_steps(steps)
    }
}

impl<'a> vstd::std_specs::convert::FromSpecImpl<&'a Vec<Step>> for Stats {
    open spec fn obeys_from_spec() -> bool {
        true
    }

    open spec fn from_spec(steps: &'a Vec<Step>) -> Stats {
        spec_stats(steps@)
    }
}

} // verus!
