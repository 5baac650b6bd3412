//! Benchmarks: timing an operation over and over, and what the samples come
//! to.

use crate::error::TimerError;
use crate::simple::SimpleTimer;
use crate::text::decimal;
use crate::text::decimal_text;
use vstd::arithmetic::div_mod::lemma_fundamental_div_mod;
use vstd::arithmetic::div_mod::lemma_fundamental_div_mod_converse;
use vstd::prelude::*;
use vstd::seq_lib::lemma_multiset_commutative;
use vstd::seq_lib::to_multiset_build;
use vstd::seq_lib::to_multiset_contains;
use vstd::seq_lib::to_multiset_len;
use vstd::string::StringExecFns;

verus! {

/// The sum of the samples.
pub open spec fn total(samples: Seq<u128>) -> nat
    decreases samples.len(),
{
    if samples.len() == 0 {
        0
    } else {
        total(samples.drop_last()) + samples.last() as nat
    }
}

/// Whether the samples stand in ascending order.
pub open spec fn ascending(samples: Seq<u128>) -> bool {
    forall|i: int, j: int| 0 <= i < j < samples.len() ==> samples[i] <= samples[j]
}

/// Whether `value` is the least of the samples: one of them, and no greater
/// than any.
pub open spec fn is_least(samples: Seq<u128>, value: u128) -> bool {
    &&& samples.contains(value)
    &&& forall|i: int| 0 <= i < samples.len() ==> value <= #[trigger] samples[i]
}

/// Whether `value` is the greatest of the samples: one of them, and no less
/// than any.
pub open spec fn is_greatest(samples: Seq<u128>, value: u128) -> bool {
    &&& samples.contains(value)
    &&& forall|i: int| 0 <= i < samples.len() ==> value >= #[trigger] samples[i]
}

/// The mean of the samples, the remainder cut off.
pub open spec fn mean(samples: Seq<u128>) -> nat
    recommends
        samples.len() > 0,
{
    total(samples) / samples.len()
}

/// What a benchmark found: the fastest and the slowest iteration and the
/// average over all of them, in nanoseconds.
#[derive(Clone, Copy, Debug, PartialEq, Eq, Structural)]
pub struct RunThroughReport {
    fastest: u128,
    slowest: u128,
    avg: u128,
}

impl RunThroughReport {
    /// The shortest sample.
    pub closed spec fn fastest(&self) -> u128 {
        self.fastest
    }

    /// The longest sample.
    pub closed spec fn slowest(&self) -> u128 {
        self.slowest
    }

    /// The mean of the samples.
    pub closed spec fn average(&self) -> u128 {
        self.avg
    }

    /// Whether this is the report on `samples`: their least, their greatest
    /// and their mean.
    pub open spec fn summarizes(&self, samples: Seq<u128>) -> bool {
        &&& samples.len() > 0
        &&& is_least(samples, self.fastest())
        &&& is_greatest(samples, self.slowest())
        &&& self.average() == mean(samples)
    }

    /// The report as text: three lines, with no line break after the last.
    pub open spec fn stats(&self) -> Seq<char> {
        "Slowest: "@ + decimal(self.slowest() as nat) + " ns\nFastest: "@ + decimal(
            self.fastest() as nat,
        ) + " ns\nAverage: "@ + decimal(self.average() as nat) + " ns/iter"@
    }

    /// Writes the report out as text: the slowest, the fastest and the
    /// average, each on a line of its own, in nanoseconds.
    pub fn stats_text(&self) -> (text: String)
        ensures
            text@ == self.stats(),
    {
        let mut text = String::from_str("Slowest: ");
        text.append(decimal_text(self.slowest).as_str());
        text.append(" ns\nFastest: ");
        text.append(decimal_text(self.fastest).as_str());
        text.append(" ns\nAverage: ");
        text.append(decimal_text(self.avg).as_str());
        text.append(" ns/iter");
        text
    }

    /// The shortest sample, in nanoseconds.
    pub fn get_fastest(&self) -> (nanos: u128)
        ensures
            nanos == self.fastest(),
    {
        self.fastest
    }

    /// The longest sample, in nanoseconds.
    pub fn get_slowest(&self) -> (nanos: u128)
        ensures
            nanos == self.slowest(),
    {
        self.slowest
    }

    /// The mean of the samples, in nanoseconds.
    pub fn get_average(&self) -> (nanos: u128)
        ensures
            nanos == self.average(),
    {
        self.avg
    }
}

/// The sum of the first `n + 1` samples is the sum of the first `n` and the
/// sample that follows them.
proof fn total_of_next(samples: Seq<u128>, n: int)
    requires
        0 <= n < samples.len(),
    ensures
        total(samples.take(n + 1)) == total(samples.take(n)) + samples[n],
{
    assert(samples.take(n + 1).drop_last() =~= samples.take(n));
}

/// The sum of samples that all lie between `low` and `high` lies between
/// `low` and `high` times their number.
pub proof fn total_is_bounded(samples: Seq<u128>, low: u128, high: u128)
    requires
        forall|i: int| 0 <= i < samples.len() ==> low <= #[trigger] samples[i] <= high,
    ensures
        low * samples.len() <= total(samples) <= high * samples.len(),
    decreases samples.len(),
{
    if samples.len() > 0 {
        let rest = samples.drop_last();
        total_is_bounded(rest, low, high);
        assert(low * samples.len() == low * rest.len() + low) by (nonlinear_arith)
            requires
                samples.len() == rest.len() + 1,
        ;
        assert(high * samples.len() == high * rest.len() + high) by (nonlinear_arith)
            requires
                samples.len() == rest.len() + 1,
        ;
    }
}

/// The mean of samples lies between their least and their greatest.
pub proof fn mean_is_between(samples: Seq<u128>, least: u128, greatest: u128)
    requires
        samples.len() > 0,
        is_least(samples, least),
        is_greatest(samples, greatest),
    ensures
        least <= mean(samples) <= greatest,
{
    total_is_bounded(samples, least, greatest);
    let n = samples.len() as int;
    let sum = total(samples) as int;
    assert(least <= sum / n <= greatest) by (nonlinear_arith)
        requires
            n > 0,
            least * n <= sum <= greatest * n,
    ;
}

/// The least, the greatest and the mean of samples are each unique: two
/// reports on the same samples are the same report.
pub proof fn summary_is_unique(samples: Seq<u128>, one: RunThroughReport, other: RunThroughReport)
    requires
        one.summarizes(samples),
        other.summarizes(samples),
    ensures
        one == other,
{
    let i = choose|i: int| 0 <= i < samples.len() && samples[i] == one.fastest();
    let j = choose|j: int| 0 <= j < samples.len() && samples[j] == other.fastest();
    assert(one.fastest() <= samples[j] && other.fastest() <= samples[i]);
    let k = choose|k: int| 0 <= k < samples.len() && samples[k] == one.slowest();
    let l = choose|l: int| 0 <= l < samples.len() && samples[l] == other.slowest();
    assert(one.slowest() >= samples[l] && other.slowest() >= samples[k]);
}

/// In the report on any samples, the fastest is no more than the average
/// and the average no more than the slowest.
pub proof fn report_is_ordered(samples: Seq<u128>, report: RunThroughReport)
    requires
        report.summarizes(samples),
    ensures
        report.fastest() <= report.average() <= report.slowest(),
{
    mean_is_between(samples, report.fastest(), report.slowest());
}

/// Among samples in ascending order the first is the least and the last the
/// greatest, also of the same samples in any other order.
pub proof fn ends_of_sorted_are_extremes(samples: Seq<u128>, sorted: Seq<u128>)
    requires
        samples.len() > 0,
        ascending(sorted),
        sorted.to_multiset() == samples.to_multiset(),
    ensures
        sorted.len() == samples.len(),
        is_least(samples, sorted.first()),
        is_greatest(samples, sorted.last()),
{
    to_multiset_len(samples);
    to_multiset_len(sorted);
    to_multiset_contains(samples, sorted.first());
    to_multiset_contains(sorted, sorted.first());
    assert(sorted.contains(sorted.first())) by {
        assert(sorted[0] == sorted.first());
    }
    to_multiset_contains(samples, sorted.last());
    to_multiset_contains(sorted, sorted.last());
    assert(sorted.contains(sorted.last())) by {
        assert(sorted[sorted.len() - 1] == sorted.last());
    }
    assert forall|i: int| 0 <= i < samples.len() implies sorted.first() <= #[trigger] samples[i]
        <= sorted.last() by {
        assert(samples.contains(samples[i]));
        to_multiset_contains(samples, samples[i]);
        to_multiset_contains(sorted, samples[i]);
        let j = choose|j: int| 0 <= j < sorted.len() && sorted[j] == samples[i];
        assert(sorted[0] <= sorted[j] <= sorted[sorted.len() - 1]);
    }
}

/// Merges two ascending runs into one ascending run that holds what both
/// held.
fn merge(left: &Vec<u128>, right: &Vec<u128>) -> (merged: Vec<u128>)
    requires
        ascending(left@),
        ascending(right@),
    ensures
        ascending(merged@),
        merged@.to_multiset() == left@.to_multiset().add(right@.to_multiset()),
{
    let mut merged: Vec<u128> = Vec::new();
    let mut i: usize = 0;
    let mut j: usize = 0;
    assert(merged@.to_multiset() =~= left@.take(0).to_multiset().add(
        right@.take(0).to_multiset(),
    )) by {
        assert(merged@ =~= left@.take(0));
        assert(merged@ =~= right@.take(0));
        assert(merged@ + merged@ =~= merged@);
        lemma_multiset_commutative(merged@, merged@);
    }
    while i < left.len() || j < right.len()
        invariant
            i <= left@.len(),
            j <= right@.len(),
            ascending(left@),
            ascending(right@),
            ascending(merged@),
            merged@.to_multiset() == left@.take(i as int).to_multiset().add(
                right@.take(j as int).to_multiset(),
            ),
            forall|k: int|
                0 <= k < merged@.len() && i < left@.len() ==> #[trigger] merged@[k]
                    <= left@[i as int],
            forall|k: int|
                0 <= k < merged@.len() && j < right@.len() ==> #[trigger] merged@[k]
                    <= right@[j as int],
        decreases left@.len() - i + right@.len() - j,
    {
        let ghost before = merged@;
        if j >= right.len() || (i < left.len() && left[i] <= right[j]) {
            let sample = left[i];
            proof {
                to_multiset_build(before, sample);
                to_multiset_build(left@.take(i as int), sample);
                assert(left@.take(i as int + 1) =~= left@.take(i as int).push(sample));
                assert(before.to_multiset().insert(sample) =~= left@.take(
                    i as int,
                ).to_multiset().insert(sample).add(right@.take(j as int).to_multiset()));
                if i + 1 < left@.len() {
                    assert(left@[i as int] <= left@[i as int + 1]);
                }
            }
            merged.push(sample);
            i += 1;
        } else {
            let sample = right[j];
            proof {
                to_multiset_build(before, sample);
                to_multiset_build(right@.take(j as int), sample);
                assert(right@.take(j as int + 1) =~= right@.take(j as int).push(sample));
                assert(before.to_multiset().insert(sample) =~= left@.take(
                    i as int,
                ).to_multiset().add(right@.take(j as int).to_multiset().insert(sample)));
                if j + 1 < right@.len() {
                    assert(right@[j as int] <= right@[j as int + 1]);
                }
            }
            merged.push(sample);
            j += 1;
        }
    }
    assert(left@.take(i as int) =~= left@);
    assert(right@.take(j as int) =~= right@);
    merged
}

/// The samples from place `from` up to place `to` in ascending order.
fn sort_range(samples: &Vec<u128>, from: usize, to: usize) -> (sorted: Vec<u128>)
    requires
        from <= to <= samples@.len(),
    ensures
        ascending(sorted@),
        sorted@.to_multiset() == samples@.subrange(from as int, to as int).to_multiset(),
    decreases to - from,
{
    if to - from <= 1 {
        let mut sorted: Vec<u128> = Vec::new();
        if from < to {
            sorted.push(samples[from]);
        }
        assert(sorted@ =~= samples@.subrange(from as int, to as int));
        sorted
    } else {
        let middle = from + (to - from) / 2;
        let left = sort_range(samples, from, middle);
        let right = sort_range(samples, middle, to);
        proof {
            let lower = samples@.subrange(from as int, middle as int);
            let upper = samples@.subrange(middle as int, to as int);
            assert(samples@.subrange(from as int, to as int) =~= lower + upper);
            lemma_multiset_commutative(lower, upper);
        }
        merge(&left, &right)
    }
}

/// The samples in ascending order: the same samples, each as often as
/// before.
pub fn sort_samples(samples: &Vec<u128>) -> (sorted: Vec<u128>)
    ensures
        ascending(sorted@),
        sorted@.to_multiset() == samples@.to_multiset(),
        sorted@.len() == samples@.len(),
{
    let sorted = sort_range(samples, 0, samples.len());
    proof {
        assert(samples@.subrange(0, samples@.len() as int) =~= samples@);
        to_multiset_len(samples@);
        to_multiset_len(sorted@);
    }
    sorted
}

/// Reduces the samples of a benchmark to a report: the samples are sorted,
/// the first is the fastest and the last the slowest, and the average is the
/// mean of all samples, its remainder cut off. Refused with
/// `InvalidIterationCount` where there is no sample.
pub fn summarize(samples: &Vec<u128>) -> (outcome: Result<RunThroughReport, TimerError>)
    ensures
        samples@.len() == 0 <==> outcome == Err::<RunThroughReport, TimerError>(
            TimerError::InvalidIterationCount,
        ),
        samples@.len() > 0 <==> outcome is Ok,
        outcome matches Ok(report) ==> report.summarizes(samples@) && report.fastest()
            <= report.average() <= report.slowest(),
{
    let count = samples.len();
    if count == 0 {
        return Err(TimerError::InvalidIterationCount);
    }
    let sorted = sort_samples(samples);
    let fastest = sorted[0];
    let slowest = sorted[count - 1];
    let avg = mean_of(samples);
    proof {
        ends_of_sorted_are_extremes(samples@, sorted@);
        mean_is_between(samples@, fastest, slowest);
    }
    Ok(RunThroughReport { fastest, slowest, avg })
}

/// The mean of the samples, the remainder cut off. The sum itself is never
/// held, only its quotient and remainder by the number of samples, so no
/// number of samples makes it overflow.
pub fn mean_of(samples: &Vec<u128>) -> (average: u128)
    requires
        samples@.len() > 0,
    ensures
        average == mean(samples@),
{
    let count = samples.len();
    let n: u128 = count as u128;
    let mut quotient: u128 = 0;
    let mut remainder: u128 = 0;
    let mut i: usize = 0;
    while i < count
        invariant
            count == samples@.len(),
            n == count,
            n > 0,
            i <= count,
            quotient * n + remainder == total(samples@.take(i as int)),
            remainder < n,
            total(samples@.take(i as int)) <= i * u128::MAX,
        decreases count - i,
    {
        let sample = samples[i];
        let whole = sample / n;
        let part = sample % n;
        proof {
            total_of_next(samples@, i as int);
            lemma_fundamental_div_mod(sample as int, n as int);
            let sum = total(samples@.take(i as int + 1)) as int;
            assert((quotient + whole) * n + (remainder + part) == sum) by (nonlinear_arith)
                requires
                    quotient * n + remainder + sample == sum,
                    sample == n * whole + part,
            ;
            assert(sum <= n * u128::MAX) by (nonlinear_arith)
                requires
                    sum <= (i + 1) * u128::MAX,
                    i + 1 <= n,
            ;
            assert(quotient + whole + (remainder + part) / (n as int) <= u128::MAX)
                by (nonlinear_arith)
                requires
                    (quotient + whole) * n + (remainder + part) == sum,
                    sum <= n * u128::MAX,
                    n > 0,
                    remainder + part >= 0,
            ;
            assert((remainder + part) / (n as int) == if remainder + part >= n {
                1int
            } else {
                0int
            }) by (nonlinear_arith)
                requires
                    0 <= remainder + part < 2 * n,
                    n > 0,
            ;
        }
        quotient = quotient + whole;
        remainder = remainder + part;
        if remainder >= n {
            quotient = quotient + 1;
            remainder = remainder - n;
            assert(quotient * n + remainder == total(samples@.take(i as int + 1)))
                by (nonlinear_arith)
                requires
                    (quotient - 1) * n + (remainder + n) == total(samples@.take(i as int + 1)),
            ;
        }
        i += 1;
    }
    proof {
        assert(samples@.take(count as int) =~= samples@);
        lemma_fundamental_div_mod_converse(
            total(samples@) as int,
            n as int,
            quotient as int,
            remainder as int,
        );
    }
    quotient
}

/// Times `operation` once for each index below `iterations`, in order, with
/// `timer`: before each call the timer is reset and started, after it
/// stopped, and the measured nanoseconds are one sample. The timer is left
/// stopped on the last measurement.
pub(crate) fn measure<F: Fn(usize)>(
    timer: &mut SimpleTimer,
    iterations: usize,
    operation: F,
) -> (samples: Vec<u128>)
    requires
        iterations > 0,
        forall|i: usize| i < iterations ==> call_requires(operation, (i,)),
    ensures
        samples@.len() == iterations,
        forall|i: usize| i < iterations ==> call_ensures(operation, (i,), ()),
        final(timer)@ is Stopped,
        final(timer)@.elapsed() == Some(samples@.last()),
        final(timer).spec_name() == old(timer).spec_name(),
{
    let mut samples: Vec<u128> = Vec::new();
    let mut i: usize = 0;
    while i < iterations
        invariant
            i <= iterations,
            samples@.len() == i,
            forall|k: usize| k < i ==> call_ensures(operation, (k,), ()),
            i > 0 ==> timer@ is Stopped && timer@.elapsed() == Some(samples@.last()),
            timer.spec_name() == old(timer).spec_name(),
            forall|k: usize| k < iterations ==> call_requires(operation, (k,)),
        decreases iterations - i,
    {
        timer.reset();
        let _ = timer.start();
        operation(i);
        let _ = timer.stop();
        samples.push(timer.time_in_nanos().unwrap());
        i += 1;
    }
    samples
}

/// Runs `function` once for each index below `iters`, in order, times each
/// call and reports the fastest, the slowest and the average of the samples.
/// Refused with `InvalidIterationCount` where `iters` is zero, without a call
/// of `function`: nothing is asked of `function` then, so none could be made.
/// Where the benchmark ran, what `function` ensures holds of every index.
pub fn run_benchmark<F: Fn(usize)>(iters: usize, function: F) -> (outcome: Result<
    RunThroughReport,
    TimerError,
>)
    requires
        forall|i: usize| i < iters ==> call_requires(function, (i,)),
    ensures
        iters == 0 <==> outcome == Err::<RunThroughReport, TimerError>(
            TimerError::InvalidIterationCount,
        ),
        iters > 0 <==> outcome is Ok,
        outcome is Ok ==> forall|i: usize| i < iters ==> call_ensures(function, (i,), ()),
        outcome matches Ok(report) ==> exists|samples: Seq<u128>|
            samples.len() == iters && #[trigger] report.summarizes(samples),
        outcome matches Ok(report) ==> report.fastest() <= report.average() <= report.slowest(),
{
    if iters == 0 {
        return Err(TimerError::InvalidIterationCount);
    }
    let mut timer = SimpleTimer::new();
    let samples = measure(&mut timer, iters, function);
    summarize(&samples)
}

} // verus!
