//! The per-worker measurement state machine.
//!
//! A worker owns one database connection and two histograms.  Each iteration
//! generates a fresh record, runs one timed write transaction that inserts
//! it, then one timed read transaction that looks it up by its natural key.
//! The database edge drives the machine: it asks for the next statement,
//! executes it on the worker's own connection, and hands back the elapsed
//! nanoseconds — or reports failure, which halts the worker at once.  A
//! worker never returns partial results as success.

use vstd::prelude::*;
use vstd::string::StringExecFns;
use crate::errors::BenchError;
use crate::hist::DEFAULT_GROUPING;
use crate::hist::DEFAULT_MAX_POWER;
use crate::hist::LatencyHistogram;
use crate::hist::spec_bucket_index;
use crate::hist::spec_max_sample;
use crate::record::MantaObject;
use crate::record::NAME_LENGTH;
use crate::resolver::HierarchyTarget;
use crate::rng::RandomSource;
use crate::rng::is_alnum_char;

verus! {

/// Where a worker stands inside one iteration.
#[derive(Clone, Copy, Debug, PartialEq, Eq, Structural)]
pub enum WorkerPhase {
    /// Ready to generate the next record (or done, if no iterations remain).
    Generating,
    /// A record is generated; its timed write transaction is outstanding.
    Writing,
    /// The write is recorded; the timed read transaction is outstanding.
    Reading,
}

/// A count sequence with one more sample recorded into its bucket.
pub open spec fn recorded(g: nat, s: Seq<int>, v: nat) -> Seq<int> {
    let i = spec_bucket_index(g, v) as int;
    s.update(i, s[i] + 1)
}

/// The insert statement for a target relation.
pub open spec fn spec_insert_sql(t: HierarchyTarget) -> Seq<char> {
    "INSERT INTO "@ + t.spec_name()
        + " (id, owner, bucket_id, name, vnode, content_length, content_md5, content_type, headers, sharks) VALUES ($1, $2, $3, $4, $5, $6, $7, $8, $9, $10)"@
}

/// The natural-key lookup statement for a target relation.
pub open spec fn spec_lookup_sql(t: HierarchyTarget) -> Seq<char> {
    "SELECT * FROM "@ + t.spec_name() + " WHERE owner = $1 AND bucket_id = $2 AND name = $3"@
}

/// The two histograms a completed worker hands to the orchestrator.
pub struct WorkerResult {
    pub read_hist: LatencyHistogram,
    pub write_hist: LatencyHistogram,
}

/// One worker's measurement run.
pub struct WorkerTask {
    iterations: u32,
    completed: u32,
    failed: Option<BenchError>,
    phase: WorkerPhase,
    record: Option<MantaObject>,
    target: HierarchyTarget,
    read_hist: LatencyHistogram,
    write_hist: LatencyHistogram,
}

impl WorkerTask {
    /// How many iterations this worker was asked to run.
    pub closed spec fn spec_iterations(&self) -> int {
        self.iterations as int
    }

    /// How many iterations have fully completed.
    pub closed spec fn spec_completed(&self) -> int {
        self.completed as int
    }

    /// The error this worker halted with, if any.
    pub closed spec fn spec_failure(&self) -> Option<BenchError> {
        self.failed
    }

    /// Whether this worker has halted with an error.
    pub open spec fn spec_failed(&self) -> bool {
        self.spec_failure() is Some
    }

    /// Where the worker stands inside the current iteration.
    pub closed spec fn spec_phase(&self) -> WorkerPhase {
        self.phase
    }

    /// The target relation this worker operates against, fixed at start.
    pub closed spec fn spec_target(&self) -> HierarchyTarget {
        self.target
    }

    /// The current iteration's record, if one is outstanding.
    pub closed spec fn spec_record(&self) -> Option<MantaObject> {
        self.record
    }

    /// The read-latency bucket counts.
    pub closed spec fn read_model(&self) -> Seq<int> {
        self.read_hist.model()
    }

    /// The write-latency bucket counts.
    pub closed spec fn write_model(&self) -> Seq<int> {
        self.write_hist.model()
    }

    /// The number of read samples recorded so far.
    pub closed spec fn read_total(&self) -> int {
        self.read_hist.spec_total()
    }

    /// The number of write samples recorded so far.
    pub closed spec fn write_total(&self) -> int {
        self.write_hist.spec_total()
    }

    /// A worker is finished when it has failed or completed every iteration.
    pub open spec fn spec_finished(&self) -> bool {
        self.spec_failed() || self.spec_completed() == self.spec_iterations()
    }

    /// Well-formedness: the histograms are valid and carry the default
    /// configuration, and the sample totals track the iteration count
    /// exactly — one write and one read sample per completed iteration,
    /// plus the write sample of an iteration whose read is outstanding.
    pub closed spec fn inv(&self) -> bool {
        &&& self.completed <= self.iterations
        &&& self.read_hist.inv()
        &&& self.write_hist.inv()
        &&& self.read_hist.grouping() == DEFAULT_GROUPING as nat
        &&& self.read_hist.max_power() == DEFAULT_MAX_POWER as nat
        &&& self.write_hist.grouping() == DEFAULT_GROUPING as nat
        &&& self.write_hist.max_power() == DEFAULT_MAX_POWER as nat
        &&& !self.spec_failed() ==> {
            &&& (self.phase == WorkerPhase::Generating ==> self.write_total()
                == self.spec_completed() && self.record is None)
            &&& (self.phase == WorkerPhase::Writing ==> self.write_total()
                == self.spec_completed() && self.record is Some)
            &&& (self.phase == WorkerPhase::Reading ==> self.write_total()
                == self.spec_completed() + 1 && self.record is Some)
            &&& (self.phase != WorkerPhase::Generating ==> self.spec_completed()
                < self.spec_iterations())
            &&& self.read_total() == self.spec_completed()
        }
        &&& self.spec_failed() ==> self.read_total() <= self.spec_completed() + 1
            && self.write_total() <= self.spec_completed() + 1
    }

    /// A fresh worker: nothing run, nothing failed, histograms empty.
    pub fn new(iterations: u32, target: HierarchyTarget) -> (w: WorkerTask)
        ensures
            w.inv(),
            w.spec_iterations() == iterations as int,
            w.spec_completed() == 0,
            !w.spec_failed(),
            w.spec_phase() == WorkerPhase::Generating,
            w.spec_target() == target,
            w.read_total() == 0,
            w.write_total() == 0,
    {
        WorkerTask {
            iterations,
            completed: 0,
            failed: None,
            phase: WorkerPhase::Generating,
            record: None,
            target,
            read_hist: LatencyHistogram::new(),
            write_hist: LatencyHistogram::new(),
        }
    }

    /// Whether the worker has reached a terminal state.
    pub fn is_finished(&self) -> (b: bool)
        requires
            self.inv(),
        ensures
            b == self.spec_finished(),
    {
        self.failed.is_some() || self.completed == self.iterations
    }

    /// Generates this iteration's record; its write transaction is now
    /// outstanding.
    pub fn begin_iteration(&mut self, rng: &mut RandomSource)
        requires
            old(self).inv(),
            !old(self).spec_finished(),
            old(self).spec_phase() == WorkerPhase::Generating,
        ensures
            final(self).inv(),
            final(self).spec_phase() == WorkerPhase::Writing,
            !final(self).spec_failed(),
            final(self).spec_record() matches Some(o) && o.name@.len() == NAME_LENGTH as int
                && (forall|i: int| 0 <= i < o.name@.len() ==> is_alnum_char(o.name@[i])),
            final(self).spec_iterations() == old(self).spec_iterations(),
            final(self).spec_completed() == old(self).spec_completed(),
            final(self).spec_target() == old(self).spec_target(),
            final(self).read_model() == old(self).read_model(),
            final(self).write_model() == old(self).write_model(),
            final(self).read_total() == old(self).read_total(),
            final(self).write_total() == old(self).write_total(),
    {
        let o = MantaObject::new(rng);
        self.record = Some(o);
        self.phase = WorkerPhase::Writing;
    }

    /// The record whose transactions are outstanding.
    pub fn current_record(&self) -> (r: &MantaObject)
        requires
            self.inv(),
            !self.spec_failed(),
            self.spec_phase() != WorkerPhase::Generating,
        ensures
            self.spec_record() matches Some(o) && o == *r,
    {
        match &self.record {
            Some(o) => o,
            None => unreached(),
        }
    }

    /// The insert statement for this worker's target relation.
    pub fn insert_sql(&self) -> (s: String)
        ensures
            s@ == spec_insert_sql(self.spec_target()),
    {
        let mut s = "INSERT INTO ".to_owned();
        s.append(self.target.relation_name().as_str());
        s.append(
            " (id, owner, bucket_id, name, vnode, content_length, content_md5, content_type, headers, sharks) VALUES ($1, $2, $3, $4, $5, $6, $7, $8, $9, $10)",
        );
        s
    }

    /// The natural-key lookup statement for this worker's target relation.
    pub fn lookup_sql(&self) -> (s: String)
        ensures
            s@ == spec_lookup_sql(self.spec_target()),
    {
        let mut s = "SELECT * FROM ".to_owned();
        s.append(self.target.relation_name().as_str());
        s.append(" WHERE owner = $1 AND bucket_id = $2 AND name = $3");
        s
    }

    /// The write transaction committed in `elapsed_ns`: the sample goes into
    /// the write histogram and the read transaction is now outstanding.
    pub fn complete_write(&mut self, elapsed_ns: u64)
        requires
            old(self).inv(),
            !old(self).spec_failed(),
            old(self).spec_phase() == WorkerPhase::Writing,
            elapsed_ns <= spec_max_sample(DEFAULT_MAX_POWER as nat),
        ensures
            final(self).inv(),
            final(self).spec_phase() == WorkerPhase::Reading,
            !final(self).spec_failed(),
            final(self).spec_record() == old(self).spec_record(),
            final(self).spec_iterations() == old(self).spec_iterations(),
            final(self).spec_completed() == old(self).spec_completed(),
            final(self).spec_target() == old(self).spec_target(),
            final(self).read_model() == old(self).read_model(),
            final(self).read_total() == old(self).read_total(),
            final(self).write_model() == recorded(
                DEFAULT_GROUPING as nat,
                old(self).write_model(),
                elapsed_ns as nat,
            ),
            final(self).write_total() == old(self).write_total() + 1,
    {
        let r = self.write_hist.record(elapsed_ns);
        proof {
            assert(r is Ok);
        }
        self.phase = WorkerPhase::Reading;
    }

    /// The read transaction committed in `elapsed_ns`: the sample goes into
    /// the read histogram and the iteration is complete.
    pub fn complete_read(&mut self, elapsed_ns: u64)
        requires
            old(self).inv(),
            !old(self).spec_failed(),
            old(self).spec_phase() == WorkerPhase::Reading,
            elapsed_ns <= spec_max_sample(DEFAULT_MAX_POWER as nat),
        ensures
            final(self).inv(),
            final(self).spec_phase() == WorkerPhase::Generating,
            !final(self).spec_failed(),
            final(self).spec_record() is None,
            final(self).spec_iterations() == old(self).spec_iterations(),
            final(self).spec_completed() == old(self).spec_completed() + 1,
            final(self).spec_target() == old(self).spec_target(),
            final(self).write_model() == old(self).write_model(),
            final(self).write_total() == old(self).write_total(),
            final(self).read_model() == recorded(
                DEFAULT_GROUPING as nat,
                old(self).read_model(),
                elapsed_ns as nat,
            ),
            final(self).read_total() == old(self).read_total() + 1,
    {
        let r = self.read_hist.record(elapsed_ns);
        proof {
            assert(r is Ok);
        }
        self.record = None;
        self.phase = WorkerPhase::Generating;
        self.completed = self.completed + 1;
    }

    /// A transaction failed: the worker halts at once and keeps the error.
    /// Its remaining iterations are abandoned; its histograms are no longer
    /// meaningful and are never reported as success.
    pub fn fail(&mut self, error: BenchError)
        requires
            old(self).inv(),
            !old(self).spec_finished(),
        ensures
            final(self).inv(),
            final(self).spec_failed(),
            final(self).spec_failure() == Some(error),
            final(self).spec_iterations() == old(self).spec_iterations(),
    {
        self.failed = Some(error);
    }

    /// The worker's terminal outcome: its two histograms on success, its
    /// error on failure.  A successful worker holds exactly one write and
    /// one read sample per iteration.
    pub fn into_result(self) -> (r: Result<WorkerResult, BenchError>)
        requires
            self.inv(),
            self.spec_finished(),
        ensures
            self.spec_failed() ==> r == Err::<WorkerResult, BenchError>(
                self.spec_failure().unwrap(),
            ),
            !self.spec_failed() ==> (r matches Ok(w) && {
                &&& w.read_hist.inv()
                &&& w.write_hist.inv()
                &&& w.read_hist.grouping() == DEFAULT_GROUPING as nat
                &&& w.read_hist.max_power() == DEFAULT_MAX_POWER as nat
                &&& w.write_hist.grouping() == DEFAULT_GROUPING as nat
                &&& w.write_hist.max_power() == DEFAULT_MAX_POWER as nat
                &&& w.read_hist.model() == self.read_model()
                &&& w.write_hist.model() == self.write_model()
                &&& w.read_hist.spec_total() == self.spec_iterations()
                &&& w.write_hist.spec_total() == self.spec_iterations()
            }),
    {
        match self.failed {
            Some(e) => Err(e),
            None => Ok(WorkerResult { read_hist: self.read_hist, write_hist: self.write_hist }),
        }
    }
}

} // verus!
