//! Timing statistics: the least, the greatest and the average of a set of
//! elapsed times, each held as a whole number of nanoseconds.

use vstd::prelude::*;

verus! {

/// The number of timing passes per digit-length class. The average divides
/// by this number, whatever the length of the sample set.
pub const BENCH_ITER: usize = 100;

/// The sum of the samples.
pub open spec fn total(samples: Seq<u64>) -> nat
    decreases samples.len(),
{
    if samples.len() == 0 {
        0
    } else {
        total(samples.drop_last()) + samples.last() as nat
    }
}

/// Whether `m` is one of the samples and none is smaller.
pub open spec fn is_least(samples: Seq<u64>, m: u64) -> bool {
    &&& samples.contains(m)
    &&& forall|i: int| 0 <= i < samples.len() ==> m <= #[trigger] samples[i]
}

/// Whether `m` is one of the samples and none is greater.
pub open spec fn is_greatest(samples: Seq<u64>, m: u64) -> bool {
    &&& samples.contains(m)
    &&& forall|i: int| 0 <= i < samples.len() ==> #[trigger] samples[i] <= m
}

/// The average: the sum of the samples divided by `BENCH_ITER`, rounded
/// down to a whole nanosecond.
pub open spec fn average(samples: Seq<u64>) -> nat {
    total(samples) / (BENCH_ITER as nat)
}

/// Average, minimum and maximum of a timing sample set, in nanoseconds.
#[derive(Debug, Clone, Copy)]
pub struct Stats {
    pub avg: u128,
    pub min: u64,
    pub max: u64,
}

impl Stats {
    /// Whether these are the statistics of `samples`.
    pub open spec fn summarizes(&self, samples: Seq<u64>) -> bool {
        &&& is_least(samples, self.min)
        &&& is_greatest(samples, self.max)
        &&& self.avg == average(samples)
    }
}

/// The sum of a sample set lies between its length times any lower bound of
/// the samples and its length times any upper bound.
pub proof fn lemma_total_bounds(samples: Seq<u64>, low: nat, high: nat)
    requires
        forall|i: int| 0 <= i < samples.len() ==> low <= #[trigger] samples[i] <= high,
    ensures
        samples.len() * low <= total(samples) <= samples.len() * high,
    decreases samples.len(),
{
    if samples.len() > 0 {
        let init = samples.drop_last();
        assert forall|i: int| 0 <= i < init.len() implies low <= #[trigger] init[i] <= high by {
            assert(init[i] == samples[i]);
        }
        lemma_total_bounds(init, low, high);
        assert(low <= samples.last() <= high);
        assert(samples.len() * low == init.len() * low + low) by (nonlinear_arith)
            requires
                samples.len() == init.len() + 1,
        ;
        assert(samples.len() * high == init.len() * high + high) by (nonlinear_arith)
            requires
                samples.len() == init.len() + 1,
        ;
    }
}

/// The statistics of a sample set are ordered as far as its length allows:
/// the minimum never exceeds the maximum; with at least `BENCH_ITER` samples
/// the minimum does not exceed the average; with at most `BENCH_ITER`
/// samples the average does not exceed the maximum. A set of exactly
/// `BENCH_ITER` samples therefore has `min <= avg <= max`.
pub proof fn lemma_stats_ordered(samples: Seq<u64>, stats: Stats)
    requires
        stats.summarizes(samples),
    ensures
        stats.min <= stats.max,
        samples.len() >= BENCH_ITER ==> stats.min <= stats.avg,
        samples.len() <= BENCH_ITER ==> stats.avg <= stats.max,
{
    let n = samples.len();
    let lo = stats.min as nat;
    let hi = stats.max as nat;
    let i = choose|i: int| 0 <= i < samples.len() && samples[i] == stats.min;
    assert(stats.min <= samples[i] <= stats.max);
    lemma_total_bounds(samples, lo, hi);
    if n >= BENCH_ITER {
        assert(100 * lo <= n * lo) by (nonlinear_arith)
            requires
                n >= 100,
        ;
    }
    if n <= BENCH_ITER {
        assert(n * hi <= 100 * hi) by (nonlinear_arith)
            requires
                n <= 100,
        ;
    }
}

/// The statistics of a sample set that is not empty.
pub fn stats(vs: &[u64]) -> (st: Stats)
    requires
        vs@.len() > 0,
    ensures
        st.summarizes(vs@),
{
    let n = vs.len();
    let mut min: u64 = vs[0];
    let mut max: u64 = vs[0];
    let mut sum: u128 = vs[0] as u128;
    let mut i: usize = 1;
    proof {
        let first = vs@.take(1);
        assert(first.drop_last() =~= Seq::<u64>::empty());
        assert(total(first.drop_last()) == 0);
        assert(first[0] == vs@[0]);
    }
    while i < n
        invariant
            1 <= i <= n,
            n == vs@.len(),
            sum == total(vs@.take(i as int)),
            sum <= i * u64::MAX,
            is_least(vs@.take(i as int), min),
            is_greatest(vs@.take(i as int), max),
        decreases n - i,
    {
        let v = vs[i];
        proof {
            let before = vs@.take(i as int);
            let after = vs@.take(i + 1);
            assert(after.drop_last() =~= before);
            assert(after[i as int] == v);
            let k = choose|k: int| 0 <= k < before.len() && before[k] == min;
            assert(after[k] == min);
            let l = choose|l: int| 0 <= l < before.len() && before[l] == max;
            assert(after[l] == max);
            assert forall|j: int| 0 <= j < i implies after[j] == before[j] by {}
            assert((i + 1) * u64::MAX == i * u64::MAX + u64::MAX) by (nonlinear_arith);
            assert(i * u64::MAX <= usize::MAX * u64::MAX) by (nonlinear_arith)
                requires
                    i <= usize::MAX,
            ;
        }
        if v < min {
            min = v;
        }
        if v > max {
            max = v;
        }
        sum = sum + v as u128;
        i += 1;
    }
    assert(vs@.take(n as int) =~= vs@);
    Stats { avg: sum / (BENCH_ITER as u128), min, max }
}

} // verus!
