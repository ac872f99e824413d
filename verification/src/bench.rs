//! The benchmark harness: for one digit-length class, repeated passes that
//! draw a fresh batch, render it with the converter and with the baseline,
//! time both, and check that the two outputs are the same bytes.

use rand_xorshift::XorShiftRng;
use vstd::prelude::*;
use crate::baseline::{baseline_fmt, same_bytes};
use crate::class::{class_high, class_low, class_range, is_class};
use crate::clock::Stopwatch;
use crate::decimal::decimal;
use crate::display::SimpleDisplay;
use crate::sampling::{draw_many, sample_batch, seeded_words, state_words};
use crate::sink::Sink;
use crate::stats::{lemma_stats_ordered, stats, Stats, BENCH_ITER};

verus! {

/// The number of values in a batch.
pub const BENCH_SIZE: usize = 1_000_000;

/// The byte that follows each value in an output buffer.
pub const SEPARATOR: u8 = 44;

/// The most bytes that one value takes up in an output buffer: twenty digits
/// and the separator.
pub const ENTRY_BYTES: usize = 21;

/// The output buffer of a batch: the decimal text of each value in turn,
/// each followed by the separator.
pub open spec fn batch_text(values: Seq<u64>) -> Seq<u8>
    decreases values.len(),
{
    if values.len() == 0 {
        Seq::empty()
    } else {
        batch_text(values.drop_last()) + decimal(values.last() as nat).push(SEPARATOR)
    }
}

/// The state words of a generator after `passes` batches of `size` values
/// from the closed range from `low` to `high` have been drawn from a
/// generator that held `words`.
pub open spec fn words_after(words: Seq<u32>, low: u64, high: u64, size: nat, passes: nat) -> Seq<
    u32,
>
    decreases passes,
{
    if passes == 0 {
        words
    } else {
        draw_many(words_after(words, low, high, size, (passes - 1) as nat), low, high, size).1
    }
}

/// The batch drawn in pass number `pass`, counted from zero, by a harness
/// whose generator held `words` at the start.
pub open spec fn batch_of_pass(words: Seq<u32>, low: u64, high: u64, size: nat, pass: nat) -> Seq<
    u64,
> {
    draw_many(words_after(words, low, high, size, pass), low, high, size).0
}

/// Two runs of the harness whose generators come from the same seed draw
/// the same batch in every pass and leave their generators in the same
/// state.
pub proof fn lemma_same_seed_same_batches(
    first: XorShiftRng,
    second: XorShiftRng,
    seed: u64,
    low: u64,
    high: u64,
    size: nat,
    passes: nat,
)
    requires
        state_words(first) == seeded_words(seed),
        state_words(second) == seeded_words(seed),
    ensures
        forall|pass: nat|
            pass < passes ==> #[trigger] batch_of_pass(state_words(first), low, high, size, pass)
                == batch_of_pass(state_words(second), low, high, size, pass),
        words_after(state_words(first), low, high, size, passes) == words_after(
            state_words(second),
            low,
            high,
            size,
            passes,
        ),
{
}

/// An empty sink with room for a batch of `n` values, where that much room
/// can be asked for at once; else a sink that grows as it is written to.
fn batch_sink(n: usize) -> (sink: Sink)
    ensures
        sink.bytes@ == Seq::<u8>::empty(),
        sink.width == 0,
{
    if n <= (isize::MAX as usize) / ENTRY_BYTES {
        Sink::with_capacity(n * ENTRY_BYTES)
    } else {
        Sink::new()
    }
}

/// Renders a batch with the converter.
pub fn render_simple(values: &[u64]) -> (out: Vec<u8>)
    ensures
        out@ == batch_text(values@),
{
    let n = values.len();
    let mut sink = batch_sink(n);
    let mut i: usize = 0;
    while i < n
        invariant
            i <= n,
            n == values@.len(),
            sink.width == 0,
            sink.bytes@ == batch_text(values@.take(i as int)),
        decreases n - i,
    {
        proof {
            assert(values@.take(i + 1).drop_last() =~= values@.take(i as int));
        }
        SimpleDisplay(values[i]).fmt(&mut sink);
        sink.write_byte(SEPARATOR);
        i += 1;
    }
    assert(values@.take(n as int) =~= values@);
    sink.bytes
}

/// Renders a batch with the baseline formatter.
pub fn render_std(values: &[u64]) -> (out: Vec<u8>)
    ensures
        out@ == batch_text(values@),
{
    let n = values.len();
    let mut sink = batch_sink(n);
    let mut i: usize = 0;
    while i < n
        invariant
            i <= n,
            n == values@.len(),
            sink.width == 0,
            sink.bytes@ == batch_text(values@.take(i as int)),
        decreases n - i,
    {
        proof {
            assert(values@.take(i + 1).drop_last() =~= values@.take(i as int));
        }
        baseline_fmt(values[i], &mut sink);
        sink.write_byte(SEPARATOR);
        i += 1;
    }
    assert(values@.take(n as int) =~= values@);
    sink.bytes
}

/// The two elapsed times of one pass, in nanoseconds.
#[derive(Debug, Clone, Copy)]
pub struct PassTimes {
    pub simple: u64,
    pub std: u64,
}

/// What stops a benchmark.
#[derive(Debug, Clone, Copy, PartialEq, Eq)]
pub enum BenchError {
    /// The converter and the baseline rendered a batch differently.
    OutputMismatch,
}

/// The correctness check of a pass: the two output buffers must be the same
/// bytes.
pub fn check_outputs(simple: &[u8], std: &[u8]) -> (verdict: Result<(), BenchError>)
    ensures
        verdict is Ok <==> simple@ == std@,
        verdict is Err ==> verdict == Err::<(), BenchError>(BenchError::OutputMismatch),
{
    if same_bytes(simple, std) {
        Ok(())
    } else {
        Err(BenchError::OutputMismatch)
    }
}

/// One pass over a batch: renders it with the converter, then with the
/// baseline, timing each, and checks the two outputs against each other.
///
/// The check is made on every pass. It cannot fail as long as the baseline
/// renders as it is trusted to, so the pass always succeeds. The clock
/// decides the two times.
pub fn time_pass(values: &[u64]) -> (pass: Result<PassTimes, BenchError>)
    ensures
        pass is Ok,
{
    let watch = Stopwatch::start();
    let w_simple = render_simple(values);
    let simple = watch.elapsed_nanos();

    let watch = Stopwatch::start();
    let w_std = render_std(values);
    let std = watch.elapsed_nanos();

    match check_outputs(w_simple.as_slice(), w_std.as_slice()) {
        Ok(()) => Ok(PassTimes { simple, std }),
        Err(e) => Err(e),
    }
}

/// The outcome of benchmarking one digit-length class: the class and its
/// bounds, the elapsed times of every pass, and the statistics of each
/// formatter's times.
pub struct ClassReport {
    pub digits: u32,
    pub low: u64,
    pub high: u64,
    pub simple_times: Vec<u64>,
    pub std_times: Vec<u64>,
    pub simple: Stats,
    pub std: Stats,
}

impl ClassReport {
    /// Whether the report is that of `passes` passes over the class of
    /// `digits`: the bounds are those of the class, each formatter has one
    /// time per pass, and the statistics are those of the times.
    pub open spec fn reports(&self, digits: u32, passes: nat) -> bool {
        &&& self.digits == digits
        &&& self.low == class_low(digits as nat)
        &&& self.high == class_high(digits as nat)
        &&& self.simple_times@.len() == passes
        &&& self.std_times@.len() == passes
        &&& self.simple.summarizes(self.simple_times@)
        &&& self.std.summarizes(self.std_times@)
    }

    /// Whether each formatter's average lies between its minimum and its
    /// maximum.
    pub open spec fn ordered(&self) -> bool {
        &&& self.simple.min <= self.simple.avg <= self.simple.max
        &&& self.std.min <= self.std.avg <= self.std.max
    }
}

/// Benchmarks the class of `digits` with `iters` passes over batches of
/// `size` values each, drawn afresh for every pass.
pub fn bench_with(rng: &mut XorShiftRng, digits: u32, size: usize, iters: usize) -> (outcome:
    Result<ClassReport, BenchError>)
    requires
        is_class(digits as nat),
        iters > 0,
    ensures
        outcome matches Ok(report) && report.reports(digits, iters as nat),
        state_words(*final(rng)) == words_after(
            state_words(*old(rng)),
            class_low(digits as nat) as u64,
            class_high(digits as nat) as u64,
            size as nat,
            iters as nat,
        ),
{
    let (low, high) = class_range(digits);
    let mut simple_times: Vec<u64> = Vec::new();
    let mut std_times: Vec<u64> = Vec::new();
    let mut pass: usize = 0;
    while pass < iters
        invariant
            pass <= iters,
            low <= high,
            simple_times@.len() == pass,
            std_times@.len() == pass,
            state_words(*rng) == words_after(
                state_words(*old(rng)),
                low,
                high,
                size as nat,
                pass as nat,
            ),
        decreases iters - pass,
    {
        let values = sample_batch(rng, low, high, size);
        match time_pass(values.as_slice()) {
            Ok(times) => {
                simple_times.push(times.simple);
                std_times.push(times.std);
            },
            Err(e) => {
                return Err(e);
            },
        }
        pass += 1;
    }
    let simple = stats(simple_times.as_slice());
    let std = stats(std_times.as_slice());
    Ok(ClassReport { digits, low, high, simple_times, std_times, simple, std })
}

/// Benchmarks the class of `digits` with `BENCH_ITER` passes over batches of
/// `BENCH_SIZE` values. With that many passes the average of each formatter
/// lies between its minimum and its maximum.
pub fn bench_for_digits(rng: &mut XorShiftRng, digits: u32) -> (outcome: Result<
    ClassReport,
    BenchError,
>)
    requires
        is_class(digits as nat),
    ensures
        outcome matches Ok(report) && report.reports(digits, BENCH_ITER as nat)
            && report.ordered(),
        state_words(*final(rng)) == words_after(
            state_words(*old(rng)),
            class_low(digits as nat) as u64,
            class_high(digits as nat) as u64,
            BENCH_SIZE as nat,
            BENCH_ITER as nat,
        ),
{
    let outcome = bench_with(rng, digits, BENCH_SIZE, BENCH_ITER);
    proof {
        let report = outcome->Ok_0;
        lemma_stats_ordered(report.simple_times@, report.simple);
        lemma_stats_ordered(report.std_times@, report.std);
    }
    outcome
}

} // verus!
