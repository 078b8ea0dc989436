//! The orchestrator's sequential half: merging worker results and reporting.
//!
//! Spawning and joining the worker threads is plain plumbing that stays
//! outside the library; once every worker has reached a terminal state, the
//! collected outcomes come here as a vector.  Failed workers are counted,
//! never silently dropped; surviving histograms are merged losslessly; and a
//! run in which no worker succeeded reports `NoResults` rather than an empty
//! percentile table.

use vstd::prelude::*;
use crate::errors::BenchError;
use crate::hist::DEFAULT_GROUPING;
use crate::hist::DEFAULT_MAX_POWER;
use crate::hist::LatencyHistogram;
use crate::hist::pw_add;
use crate::hist::spec_num_buckets;
use crate::hist::spec_percentile;
use crate::worker::WorkerResult;

verus! {

/// A sequence of zero bucket counts.
pub open spec fn zero_counts(n: nat) -> Seq<int> {
    Seq::new(n, |i: int| 0)
}

/// How many outcomes in the sequence are successes.
pub open spec fn count_ok(s: Seq<Result<WorkerResult, BenchError>>) -> int
    decreases s.len(),
{
    if s.len() == 0 {
        0
    } else {
        count_ok(s.drop_last()) + if s.last() is Ok {
            1int
        } else {
            0int
        }
    }
}

/// How many outcomes in the sequence are failures.
pub open spec fn count_err(s: Seq<Result<WorkerResult, BenchError>>) -> int
    decreases s.len(),
{
    if s.len() == 0 {
        0
    } else {
        count_err(s.drop_last()) + if s.last() is Err {
            1int
        } else {
            0int
        }
    }
}

/// The pointwise sum of the read-histogram counts of every successful worker.
pub open spec fn merged_read_counts(s: Seq<Result<WorkerResult, BenchError>>, n: nat) -> Seq<int>
    decreases s.len(),
{
    if s.len() == 0 {
        zero_counts(n)
    } else {
        match s.last() {
            Ok(w) => pw_add(merged_read_counts(s.drop_last(), n), w.read_hist.model()),
            Err(_) => merged_read_counts(s.drop_last(), n),
        }
    }
}

/// The pointwise sum of the write-histogram counts of every successful worker.
pub open spec fn merged_write_counts(s: Seq<Result<WorkerResult, BenchError>>, n: nat) -> Seq<int>
    decreases s.len(),
{
    if s.len() == 0 {
        zero_counts(n)
    } else {
        match s.last() {
            Ok(w) => pw_add(merged_write_counts(s.drop_last(), n), w.write_hist.model()),
            Err(_) => merged_write_counts(s.drop_last(), n),
        }
    }
}

/// The total read-sample count over every successful worker.
pub open spec fn total_ok_read(s: Seq<Result<WorkerResult, BenchError>>) -> int
    decreases s.len(),
{
    if s.len() == 0 {
        0
    } else {
        total_ok_read(s.drop_last()) + match s.last() {
            Ok(w) => w.read_hist.spec_total(),
            Err(_) => 0,
        }
    }
}

/// The total write-sample count over every successful worker.
pub open spec fn total_ok_write(s: Seq<Result<WorkerResult, BenchError>>) -> int
    decreases s.len(),
{
    if s.len() == 0 {
        0
    } else {
        total_ok_write(s.drop_last()) + match s.last() {
            Ok(w) => w.write_hist.spec_total(),
            Err(_) => 0,
        }
    }
}

/// A well-formed worker outcome: a success carries two valid histograms of
/// the default configuration, each holding at most `u32::MAX` samples.
pub open spec fn wf_outcome(r: Result<WorkerResult, BenchError>) -> bool {
    r matches Ok(w) ==> {
        &&& w.read_hist.inv()
        &&& w.write_hist.inv()
        &&& w.read_hist.grouping() == DEFAULT_GROUPING as nat
        &&& w.read_hist.max_power() == DEFAULT_MAX_POWER as nat
        &&& w.write_hist.grouping() == DEFAULT_GROUPING as nat
        &&& w.write_hist.max_power() == DEFAULT_MAX_POWER as nat
        &&& w.read_hist.spec_total() <= u32::MAX
        &&& w.write_hist.spec_total() <= u32::MAX
    }
}

/// What the join barrier produced: the merged histograms and how many
/// workers succeeded and failed.
pub struct MergeOutcome {
    pub read_hist: LatencyHistogram,
    pub write_hist: LatencyHistogram,
    pub succeeded: usize,
    pub failed: usize,
}

impl MergeOutcome {
    /// Well-formedness of the merged histograms.
    pub open spec fn inv(&self) -> bool {
        &&& self.read_hist.inv()
        &&& self.write_hist.inv()
    }
}

/// Merges every surviving worker's histograms into the run totals and counts
/// the failures.  No sample is lost and none is double-counted: the merged
/// bucket counts are exactly the pointwise sums over the successful workers,
/// and the merged totals are the sums of their totals.
pub fn merge_results(results: Vec<Result<WorkerResult, BenchError>>) -> (r: MergeOutcome)
    requires
        forall|i: int| 0 <= i < results@.len() ==> #[trigger] wf_outcome(results@[i]),
        results@.len() <= u32::MAX,
    ensures
        r.inv(),
        r.read_hist.grouping() == DEFAULT_GROUPING as nat,
        r.read_hist.max_power() == DEFAULT_MAX_POWER as nat,
        r.write_hist.grouping() == DEFAULT_GROUPING as nat,
        r.write_hist.max_power() == DEFAULT_MAX_POWER as nat,
        r.read_hist.model() == merged_read_counts(
            results@,
            spec_num_buckets(DEFAULT_GROUPING as nat, DEFAULT_MAX_POWER as nat),
        ),
        r.write_hist.model() == merged_write_counts(
            results@,
            spec_num_buckets(DEFAULT_GROUPING as nat, DEFAULT_MAX_POWER as nat),
        ),
        r.read_hist.spec_total() == total_ok_read(results@),
        r.write_hist.spec_total() == total_ok_write(results@),
        r.succeeded == count_ok(results@),
        r.failed == count_err(results@),
        r.succeeded + r.failed == results@.len(),
    {
    let ghost n = spec_num_buckets(DEFAULT_GROUPING as nat, DEFAULT_MAX_POWER as nat);
    let mut read_hist = LatencyHistogram::new();
    let mut write_hist = LatencyHistogram::new();
    let mut succeeded: usize = 0;
    let mut failed: usize = 0;
    let mut i: usize = 0;
    proof {
        crate::hist::lemma_model_facts(&read_hist);
        crate::hist::lemma_model_facts(&write_hist);
        assert(read_hist.model() =~= merged_read_counts(results@.take(0), n));
        assert(write_hist.model() =~= merged_write_counts(results@.take(0), n));
    }
    while i < results.len()
        invariant
            i <= results@.len() <= u32::MAX,
            forall|j: int| 0 <= j < results@.len() ==> #[trigger] wf_outcome(results@[j]),
            read_hist.inv(),
            write_hist.inv(),
            read_hist.grouping() == DEFAULT_GROUPING as nat,
            read_hist.max_power() == DEFAULT_MAX_POWER as nat,
            write_hist.grouping() == DEFAULT_GROUPING as nat,
            write_hist.max_power() == DEFAULT_MAX_POWER as nat,
            read_hist.model() == merged_read_counts(results@.take(i as int), n),
            write_hist.model() == merged_write_counts(results@.take(i as int), n),
            read_hist.spec_total() == total_ok_read(results@.take(i as int)),
            write_hist.spec_total() == total_ok_write(results@.take(i as int)),
            read_hist.spec_total() <= i * (u32::MAX as int),
            write_hist.spec_total() <= i * (u32::MAX as int),
            succeeded == count_ok(results@.take(i as int)),
            failed == count_err(results@.take(i as int)),
            succeeded + failed == i,
        decreases results@.len() - i,
    {
        proof {
            assert(results@.take(i as int + 1).drop_last() =~= results@.take(i as int));
            assert(results@.take(i as int + 1).last() == results@[i as int]);
            assert(wf_outcome(results@[i as int]));
            assert(i * (u32::MAX as int) + (u32::MAX as int) == (i + 1) * (u32::MAX as int))
                by (nonlinear_arith)
            ;
            assert(i * (u32::MAX as int) <= (i + 1) * (u32::MAX as int)) by (nonlinear_arith)
            ;
        }
        match &results[i] {
            Ok(w) => {
                let r1 = read_hist.merge(&w.read_hist);
                let r2 = write_hist.merge(&w.write_hist);
                proof {
                    assert(r1 is Ok);
                    assert(r2 is Ok);
                }
                succeeded = succeeded + 1;
            },
            Err(_) => {
                failed = failed + 1;
            },
        }
        i = i + 1;
    }
    proof {
        assert(results@.take(results@.len() as int) =~= results@);
    }
    MergeOutcome { read_hist, write_hist, succeeded, failed }
}

/// The four percentiles a run reports, in nanoseconds.
#[derive(Clone, Copy, Debug, PartialEq, Eq, Structural)]
pub struct PercentileSummary {
    pub p50: u64,
    pub p90: u64,
    pub p99: u64,
    pub p999: u64,
}

/// The p50/p90/p99/p99.9 summary of one histogram.  A histogram with no
/// samples has no percentiles and reports `EmptyHistogram`.
pub fn summarize(h: &LatencyHistogram) -> (r: Result<PercentileSummary, BenchError>)
    requires
        h.inv(),
    ensures
        h.spec_total() == 0 ==> r == Err::<PercentileSummary, BenchError>(
            BenchError::EmptyHistogram,
        ),
        h.spec_total() > 0 ==> (r matches Ok(s) && {
            &&& s.p50 == spec_percentile(h.grouping(), h.model(), 500) as u64
            &&& s.p90 == spec_percentile(h.grouping(), h.model(), 900) as u64
            &&& s.p99 == spec_percentile(h.grouping(), h.model(), 990) as u64
            &&& s.p999 == spec_percentile(h.grouping(), h.model(), 999) as u64
        }),
{
    let p50 = match h.percentile(500) {
        Ok(v) => v,
        Err(e) => {
            return Err(e);
        },
    };
    let p90 = match h.percentile(900) {
        Ok(v) => v,
        Err(e) => {
            return Err(e);
        },
    };
    let p99 = match h.percentile(990) {
        Ok(v) => v,
        Err(e) => {
            return Err(e);
        },
    };
    let p999 = match h.percentile(999) {
        Ok(v) => v,
        Err(e) => {
            return Err(e);
        },
    };
    Ok(PercentileSummary { p50, p90, p99, p999 })
}

/// What a finished run reports to the operator.
#[derive(Clone, Copy, Debug, PartialEq, Eq, Structural)]
pub struct RunReport {
    pub read: PercentileSummary,
    pub write: PercentileSummary,
    pub succeeded_workers: usize,
    pub failed_workers: usize,
}

/// Turns a merge outcome into the run's report.  A run with no surviving
/// worker reports `NoResults`; one whose survivors recorded no samples
/// reports `EmptyHistogram`; otherwise the report carries both percentile
/// summaries and the failure count.
pub fn report(outcome: &MergeOutcome) -> (r: Result<RunReport, BenchError>)
    requires
        outcome.inv(),
    ensures
        outcome.succeeded == 0 ==> r == Err::<RunReport, BenchError>(BenchError::NoResults),
        outcome.succeeded > 0 && (outcome.read_hist.spec_total() == 0
            || outcome.write_hist.spec_total() == 0) ==> r == Err::<RunReport, BenchError>(
            BenchError::EmptyHistogram,
        ),
        outcome.succeeded > 0 && outcome.read_hist.spec_total() > 0
            && outcome.write_hist.spec_total() > 0 ==> (r matches Ok(rep) && {
            &&& rep.read.p50 == spec_percentile(
                outcome.read_hist.grouping(),
                outcome.read_hist.model(),
                500,
            ) as u64
            &&& rep.write.p50 == spec_percentile(
                outcome.write_hist.grouping(),
                outcome.write_hist.model(),
                500,
            ) as u64
            &&& rep.succeeded_workers == outcome.succeeded
            &&& rep.failed_workers == outcome.failed
        }),
{
    if outcome.succeeded == 0 {
        return Err(BenchError::NoResults);
    }
    if outcome.read_hist.total_count() == 0 || outcome.write_hist.total_count() == 0 {
        return Err(BenchError::EmptyHistogram);
    }
    let read = match summarize(&outcome.read_hist) {
        Ok(s) => s,
        Err(e) => {
            return Err(e);
        },
    };
    let write = match summarize(&outcome.write_hist) {
        Ok(s) => s,
        Err(e) => {
            return Err(e);
        },
    };
    Ok(
        RunReport {
            read,
            write,
            succeeded_workers: outcome.succeeded,
            failed_workers: outcome.failed,
        },
    )
}

} // verus!
