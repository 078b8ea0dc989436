//! The update-contention harness: single-row counter updates against a
//! sharded-counter design, and transaction batching plans.
//!
//! Each contention worker repeatedly runs a timed read of the counter, then
//! a timed write transaction that inserts a row and bumps the counter —
//! either the one shared counter row, or a uniformly chosen counter bucket.
//! The same fail-fast rule applies as for the hierarchy workers: a failed
//! transaction halts the worker, which never reports partial results as
//! success.

use vstd::prelude::*;
use vstd::string::StringExecFns;
use crate::errors::BenchError;
use crate::hist::DEFAULT_GROUPING;
use crate::hist::DEFAULT_MAX_POWER;
use crate::hist::LatencyHistogram;
use crate::hist::spec_max_sample;
use crate::record::UuidValue;
use crate::rng::RandomSource;
use crate::worker::WorkerResult;
use crate::worker::recorded;

verus! {

/// The sum of a batching plan's entries.
pub open spec fn plan_sum(s: Seq<u32>) -> int
    decreases s.len(),
{
    if s.len() == 0 {
        0
    } else {
        plan_sum(s.drop_last()) + s.last()
    }
}

/// Splits a worker's inserts into transaction batches: full batches of
/// `batch_size`, then the remainder.  No insert is lost and no batch is
/// empty or oversized.
pub fn batch_plan(total_inserts: u32, batch_size: u32) -> (v: Vec<u32>)
    requires
        batch_size >= 1,
    ensures
        plan_sum(v@) == total_inserts as int,
        forall|i: int| 0 <= i < v@.len() ==> 1 <= #[trigger] v@[i] <= batch_size,
        v@.len() == total_inserts as int / batch_size as int + if total_inserts as int
            % batch_size as int > 0 {
            1int
        } else {
            0int
        },
{
    let full = total_inserts / batch_size;
    let rem = total_inserts % batch_size;
    proof {
        vstd::arithmetic::div_mod::lemma_fundamental_div_mod(
            total_inserts as int,
            batch_size as int,
        );
        vstd::arithmetic::div_mod::lemma_mod_division_less_than_divisor(
            total_inserts as int,
            batch_size as int,
        );
    }
    let mut v: Vec<u32> = Vec::new();
    let mut i: u32 = 0;
    while i < full
        invariant
            i <= full,
            batch_size >= 1,
            v@.len() == i,
            plan_sum(v@) == i as int * batch_size as int,
            forall|j: int| 0 <= j < v@.len() ==> 1 <= #[trigger] v@[j] <= batch_size,
        decreases full - i,
    {
        let ghost prev = v@;
        v.push(batch_size);
        proof {
            assert(v@.drop_last() =~= prev);
            assert((i as int + 1) * batch_size as int == i as int * batch_size as int
                + batch_size as int) by (nonlinear_arith);
        }
        i = i + 1;
    }
    if rem > 0 {
        let ghost prev = v@;
        v.push(rem);
        proof {
            assert(v@.drop_last() =~= prev);
        }
    }
    proof {
        assert(full as int * batch_size as int == batch_size as int * full as int)
            by (nonlinear_arith);
    }
    v
}

/// Draws the counter bucket for one write in the sharded-counter design:
/// uniform over `[1, bucket_count)`.  A bucket count that leaves that range
/// empty is a configuration error.
pub fn choose_bucket(rng: &mut RandomSource, bucket_count: u32) -> (r: Result<u32, BenchError>)
    ensures
        bucket_count <= 1 ==> r == Err::<u32, BenchError>(BenchError::InvalidConfiguration),
        bucket_count > 1 ==> (r matches Ok(b) && 1 <= b < bucket_count),
{
    if bucket_count <= 1 {
        Err(BenchError::InvalidConfiguration)
    } else {
        let b = rng.next_below(bucket_count - 1);
        Ok(b + 1)
    }
}

/// The row one contention insert writes.
pub struct Person {
    pub otherid: UuidValue,
    pub name: String,
    pub data: String,
}

/// The length of a person row's filler data.
pub const DATA_LENGTH: usize = 999;

/// A fresh person row: a random identifier, the fixed name the counter is
/// keyed by, and the fixed-length filler.
pub fn person_record(rng: &mut RandomSource) -> (p: Person)
    ensures
        p.name@ == "Steven"@,
        p.data@.len() == DATA_LENGTH as int,
        forall|i: int| 0 <= i < p.data@.len() ==> p.data@[i] == 'a',
{
    proof {
        reveal_strlit("a");
    }
    let mut data = String::new();
    let mut i: usize = 0;
    while i < DATA_LENGTH
        invariant
            i <= DATA_LENGTH,
            data@.len() == i,
            forall|j: int| 0 <= j < data@.len() ==> data@[j] == 'a',
            "a"@ =~= seq!['a'],
        decreases DATA_LENGTH - i,
    {
        data.append("a");
        i = i + 1;
    }
    Person { otherid: UuidValue::generate(rng), name: "Steven".to_owned(), data }
}

/// The insert statement for the person table.
pub fn person_insert_sql() -> (s: String)
    ensures
        s@ == "INSERT INTO person (otherid, name, data) VALUES ($1, $2, $3)"@,
{
    "INSERT INTO person (otherid, name, data) VALUES ($1, $2, $3)".to_owned()
}

/// The counter read for the single-row design.
pub fn count_read_sql() -> (s: String)
    ensures
        s@ == "SELECT count FROM person_count WHERE name = 'Steven'"@,
{
    "SELECT count FROM person_count WHERE name = 'Steven'".to_owned()
}

/// The counter read for the sharded design: the shards are summed.
pub fn sum_read_sql() -> (s: String)
    ensures
        s@ == "SELECT sum(count) FROM person_count WHERE name = 'Steven'"@,
{
    "SELECT sum(count) FROM person_count WHERE name = 'Steven'".to_owned()
}

/// The counter bump for the single-row design.
pub fn single_cell_update_sql() -> (s: String)
    ensures
        s@
            == "INSERT INTO person_count (name, count) VALUES ($1, 1) ON CONFLICT (name) DO UPDATE SET count = person_count.count + 1 WHERE person_count.name = $1"@,
{
    "INSERT INTO person_count (name, count) VALUES ($1, 1) ON CONFLICT (name) DO UPDATE SET count = person_count.count + 1 WHERE person_count.name = $1".to_owned()
}

/// The counter bump for the sharded design.
pub fn bucketed_update_sql() -> (s: String)
    ensures
        s@
            == "INSERT INTO person_count (name, count, bucket) VALUES ($1, 1, $2) ON CONFLICT (name) DO UPDATE SET count = person_count.count + 1 WHERE person_count.name = $1 AND person_count.bucket = $2"@,
{
    "INSERT INTO person_count (name, count, bucket) VALUES ($1, 1, $2) ON CONFLICT (name) DO UPDATE SET count = person_count.count + 1 WHERE person_count.name = $1 AND person_count.bucket = $2".to_owned()
}

/// The statements that clean both contention tables.
pub fn person_teardown_statements() -> (v: Vec<String>)
    ensures
        v@.len() == 2,
        v@[0]@ == "DELETE FROM person;"@,
        v@[1]@ == "DELETE FROM person_count;"@,
{
    let mut v: Vec<String> = Vec::new();
    v.push("DELETE FROM person;".to_owned());
    v.push("DELETE FROM person_count;".to_owned());
    v
}

/// Which counter design a contention worker measures.
#[derive(Clone, Copy, Debug, PartialEq, Eq, Structural)]
pub enum ContentionStrategy {
    /// Every write bumps the one shared counter row.
    SingleCell,
    /// Every write bumps one of the counter's bucket rows.
    Bucketed,
}

/// Where a contention worker stands inside one iteration.
#[derive(Clone, Copy, Debug, PartialEq, Eq, Structural)]
pub enum ContentionPhase {
    /// Ready to start the next iteration (or done).
    Idle,
    /// The timed counter read is outstanding.
    Reading,
    /// The timed insert-and-bump write transaction is outstanding.
    Writing,
}

/// One contention worker's measurement run.
pub struct ContentionTask {
    writes: u32,
    completed: u32,
    failed: Option<BenchError>,
    phase: ContentionPhase,
    strategy: ContentionStrategy,
    bucket_count: u32,
    person: Option<Person>,
    bucket: Option<u32>,
    read_hist: LatencyHistogram,
    write_hist: LatencyHistogram,
}

impl ContentionTask {
    /// How many write iterations this worker was asked to run.
    pub closed spec fn spec_writes(&self) -> int {
        self.writes as int
    }

    /// How many iterations have fully completed.
    pub closed spec fn spec_completed(&self) -> int {
        self.completed as int
    }

    /// The error this worker halted with, if any.
    pub closed spec fn spec_failure(&self) -> Option<BenchError> {
        self.failed
    }

    /// Whether this worker has halted with an error.
    pub open spec fn spec_failed(&self) -> bool {
        self.spec_failure() is Some
    }

    /// Where the worker stands inside the current iteration.
    pub closed spec fn spec_phase(&self) -> ContentionPhase {
        self.phase
    }

    /// The counter design under measurement.
    pub closed spec fn spec_strategy(&self) -> ContentionStrategy {
        self.strategy
    }

    /// The bucket chosen for the outstanding write, if the design shards.
    pub closed spec fn spec_bucket(&self) -> Option<u32> {
        self.bucket
    }

    /// How many counter buckets the sharded design draws from.
    pub closed spec fn spec_bucket_count(&self) -> int {
        self.bucket_count as int
    }

    /// The row generated for the current iteration, if one is outstanding.
    pub closed spec fn spec_person(&self) -> Option<Person> {
        self.person
    }

    /// The read-latency bucket counts.
    pub closed spec fn read_model(&self) -> Seq<int> {
        self.read_hist.model()
    }

    /// The write-latency bucket counts.
    pub closed spec fn write_model(&self) -> Seq<int> {
        self.write_hist.model()
    }

    /// The number of read samples recorded so far.
    pub closed spec fn read_total(&self) -> int {
        self.read_hist.spec_total()
    }

    /// The number of write samples recorded so far.
    pub closed spec fn write_total(&self) -> int {
        self.write_hist.spec_total()
    }

    /// A worker is finished when it has failed or completed every iteration.
    pub open spec fn spec_finished(&self) -> bool {
        self.spec_failed() || self.spec_completed() == self.spec_writes()
    }

    /// Well-formedness: valid default-configuration histograms whose totals
    /// track the iteration count — one read and one write sample per
    /// completed iteration, plus the read sample of an iteration whose
    /// write is outstanding.
    pub closed spec fn inv(&self) -> bool {
        &&& self.completed <= self.writes
        &&& self.read_hist.inv()
        &&& self.write_hist.inv()
        &&& self.read_hist.grouping() == DEFAULT_GROUPING as nat
        &&& self.read_hist.max_power() == DEFAULT_MAX_POWER as nat
        &&& self.write_hist.grouping() == DEFAULT_GROUPING as nat
        &&& self.write_hist.max_power() == DEFAULT_MAX_POWER as nat
        &&& (self.strategy == ContentionStrategy::Bucketed ==> self.bucket_count >= 2)
        &&& !self.spec_failed() ==> {
            &&& (self.phase == ContentionPhase::Idle ==> self.read_total()
                == self.spec_completed() && self.person is None)
            &&& (self.phase == ContentionPhase::Reading ==> self.read_total()
                == self.spec_completed() && self.person is Some)
            &&& (self.phase == ContentionPhase::Writing ==> self.read_total()
                == self.spec_completed() + 1 && self.person is Some && (self.strategy
                == ContentionStrategy::Bucketed ==> (self.bucket matches Some(b) && 1 <= b
                < self.bucket_count)))
            &&& (self.phase != ContentionPhase::Idle ==> self.spec_completed()
                < self.spec_writes())
            &&& self.write_total() == self.spec_completed()
        }
        &&& self.spec_failed() ==> self.read_total() <= self.spec_completed() + 1
            && self.write_total() <= self.spec_completed() + 1
    }

    /// A fresh contention worker.  A sharded design needs at least one
    /// bucket besides the shared row, or the run is rejected before any
    /// worker starts.
    pub fn new(writes: u32, strategy: ContentionStrategy, bucket_count: u32) -> (r: Result<
        ContentionTask,
        BenchError,
    >)
        ensures
            strategy == ContentionStrategy::Bucketed && bucket_count <= 1 ==> r == Err::<
                ContentionTask,
                BenchError,
            >(BenchError::InvalidConfiguration),
            !(strategy == ContentionStrategy::Bucketed && bucket_count <= 1) ==> (r matches Ok(w)
                && {
                &&& w.inv()
                &&& w.spec_writes() == writes as int
                &&& w.spec_completed() == 0
                &&& !w.spec_failed()
                &&& w.spec_phase() == ContentionPhase::Idle
                &&& w.spec_strategy() == strategy
                &&& w.read_total() == 0
                &&& w.write_total() == 0
            }),
    {
        if strategy == ContentionStrategy::Bucketed && bucket_count <= 1 {
            return Err(BenchError::InvalidConfiguration);
        }
        Ok(
            ContentionTask {
                writes,
                completed: 0,
                failed: None,
                phase: ContentionPhase::Idle,
                strategy,
                bucket_count,
                person: None,
                bucket: None,
                read_hist: LatencyHistogram::new(),
                write_hist: LatencyHistogram::new(),
            },
        )
    }

    /// Whether the worker has reached a terminal state.
    pub fn is_finished(&self) -> (b: bool)
        requires
            self.inv(),
        ensures
            b == self.spec_finished(),
    {
        self.failed.is_some() || self.completed == self.writes
    }

    /// Generates this iteration's row; its timed counter read is now
    /// outstanding.
    pub fn begin_iteration(&mut self, rng: &mut RandomSource)
        requires
            old(self).inv(),
            !old(self).spec_finished(),
            old(self).spec_phase() == ContentionPhase::Idle,
        ensures
            final(self).inv(),
            final(self).spec_phase() == ContentionPhase::Reading,
            !final(self).spec_failed(),
            final(self).spec_writes() == old(self).spec_writes(),
            final(self).spec_completed() == old(self).spec_completed(),
            final(self).spec_strategy() == old(self).spec_strategy(),
            final(self).read_model() == old(self).read_model(),
            final(self).write_model() == old(self).write_model(),
            final(self).read_total() == old(self).read_total(),
            final(self).write_total() == old(self).write_total(),
    {
        let p = person_record(rng);
        self.person = Some(p);
        self.phase = ContentionPhase::Reading;
    }

    /// The row whose transactions are outstanding.
    pub fn current_person(&self) -> (r: &Person)
        requires
            self.inv(),
            !self.spec_failed(),
            self.spec_phase() != ContentionPhase::Idle,
        ensures
            self.spec_person() matches Some(p) && p == *r,
    {
        match &self.person {
            Some(p) => p,
            None => unreached(),
        }
    }

    /// The counter-read statement this worker's design uses.
    pub fn read_sql(&self) -> (s: String)
        ensures
            self.spec_strategy() == ContentionStrategy::SingleCell ==> s@
                == "SELECT count FROM person_count WHERE name = 'Steven'"@,
            self.spec_strategy() == ContentionStrategy::Bucketed ==> s@
                == "SELECT sum(count) FROM person_count WHERE name = 'Steven'"@,
    {
        match self.strategy {
            ContentionStrategy::SingleCell => count_read_sql(),
            ContentionStrategy::Bucketed => sum_read_sql(),
        }
    }

    /// The counter read committed in `elapsed_ns`: the sample goes into the
    /// read histogram, the write bucket is drawn if the design shards, and
    /// the write transaction is now outstanding.
    pub fn complete_read(&mut self, elapsed_ns: u64, rng: &mut RandomSource)
        requires
            old(self).inv(),
            !old(self).spec_failed(),
            old(self).spec_phase() == ContentionPhase::Reading,
            elapsed_ns <= spec_max_sample(DEFAULT_MAX_POWER as nat),
        ensures
            final(self).inv(),
            final(self).spec_phase() == ContentionPhase::Writing,
            !final(self).spec_failed(),
            final(self).spec_writes() == old(self).spec_writes(),
            final(self).spec_completed() == old(self).spec_completed(),
            final(self).spec_strategy() == old(self).spec_strategy(),
            final(self).write_model() == old(self).write_model(),
            final(self).write_total() == old(self).write_total(),
            final(self).read_model() == recorded(
                DEFAULT_GROUPING as nat,
                old(self).read_model(),
                elapsed_ns as nat,
            ),
            final(self).read_total() == old(self).read_total() + 1,
            final(self).spec_strategy() == ContentionStrategy::Bucketed ==> (
            final(self).spec_bucket() matches Some(b) && 1 <= b
                && b < final(self).spec_bucket_count()),
    {
        let r = self.read_hist.record(elapsed_ns);
        proof {
            assert(r is Ok);
        }
        if matches!(self.strategy, ContentionStrategy::Bucketed) {
            let b = match choose_bucket(rng, self.bucket_count) {
                Ok(b) => b,
                Err(_) => unreached(),
            };
            self.bucket = Some(b);
        }
        self.phase = ContentionPhase::Writing;
    }

    /// The bucket for the outstanding write of a sharded-design worker.
    pub fn current_bucket(&self) -> (b: u32)
        requires
            self.inv(),
            !self.spec_failed(),
            self.spec_phase() == ContentionPhase::Writing,
            self.spec_strategy() == ContentionStrategy::Bucketed,
        ensures
            Some(b) == self.spec_bucket(),
            b >= 1,
    {
        match self.bucket {
            Some(b) => b,
            None => unreached(),
        }
    }

    /// The counter-bump statement this worker's design uses, run after the
    /// person insert inside the same write transaction.
    pub fn write_sql(&self) -> (s: String)
        ensures
            self.spec_strategy() == ContentionStrategy::SingleCell ==> s@
                == "INSERT INTO person_count (name, count) VALUES ($1, 1) ON CONFLICT (name) DO UPDATE SET count = person_count.count + 1 WHERE person_count.name = $1"@,
            self.spec_strategy() == ContentionStrategy::Bucketed ==> s@
                == "INSERT INTO person_count (name, count, bucket) VALUES ($1, 1, $2) ON CONFLICT (name) DO UPDATE SET count = person_count.count + 1 WHERE person_count.name = $1 AND person_count.bucket = $2"@,
    {
        match self.strategy {
            ContentionStrategy::SingleCell => single_cell_update_sql(),
            ContentionStrategy::Bucketed => bucketed_update_sql(),
        }
    }

    /// The write transaction committed in `elapsed_ns`: the sample goes into
    /// the write histogram and the iteration is complete.
    pub fn complete_write(&mut self, elapsed_ns: u64)
        requires
            old(self).inv(),
            !old(self).spec_failed(),
            old(self).spec_phase() == ContentionPhase::Writing,
            elapsed_ns <= spec_max_sample(DEFAULT_MAX_POWER as nat),
        ensures
            final(self).inv(),
            final(self).spec_phase() == ContentionPhase::Idle,
            !final(self).spec_failed(),
            final(self).spec_writes() == old(self).spec_writes(),
            final(self).spec_completed() == old(self).spec_completed() + 1,
            final(self).spec_strategy() == old(self).spec_strategy(),
            final(self).read_model() == old(self).read_model(),
            final(self).read_total() == old(self).read_total(),
            final(self).write_model() == recorded(
                DEFAULT_GROUPING as nat,
                old(self).write_model(),
                elapsed_ns as nat,
            ),
            final(self).write_total() == old(self).write_total() + 1,
    {
        let r = self.write_hist.record(elapsed_ns);
        proof {
            assert(r is Ok);
        }
        self.person = None;
        self.bucket = None;
        self.phase = ContentionPhase::Idle;
        self.completed = self.completed + 1;
    }

    /// A transaction failed: the worker halts at once and keeps the error.
    pub fn fail(&mut self, error: BenchError)
        requires
            old(self).inv(),
            !old(self).spec_finished(),
        ensures
            final(self).inv(),
            final(self).spec_failed(),
            final(self).spec_failure() == Some(error),
            final(self).spec_writes() == old(self).spec_writes(),
    {
        self.failed = Some(error);
    }

    /// The worker's terminal outcome: its two histograms on success, its
    /// error on failure.
    pub fn into_result(self) -> (r: Result<WorkerResult, BenchError>)
        requires
            self.inv(),
            self.spec_finished(),
        ensures
            self.spec_failed() ==> r == Err::<WorkerResult, BenchError>(
                self.spec_failure().unwrap(),
            ),
            !self.spec_failed() ==> (r matches Ok(w) && {
                &&& w.read_hist.inv()
                &&& w.write_hist.inv()
                &&& w.read_hist.grouping() == DEFAULT_GROUPING as nat
                &&& w.read_hist.max_power() == DEFAULT_MAX_POWER as nat
                &&& w.write_hist.grouping() == DEFAULT_GROUPING as nat
                &&& w.write_hist.max_power() == DEFAULT_MAX_POWER as nat
                &&& w.read_hist.model() == self.read_model()
                &&& w.write_hist.model() == self.write_model()
                &&& w.read_hist.spec_total() == self.spec_writes()
                &&& w.write_hist.spec_total() == self.spec_writes()
            }),
    {
        match self.failed {
            Some(e) => Err(e),
            None => Ok(WorkerResult { read_hist: self.read_hist, write_hist: self.write_hist }),
        }
    }
}

} // verus!
