//! The run configuration, built once at startup and shared read-only by
//! every worker.

use vstd::prelude::*;
use crate::errors::BenchError;
use crate::resolver::Mode;

verus! {

/// How many workers a run spawns unless told otherwise.
pub const DEFAULT_WORKER_COUNT: u32 = 16;

/// How many iterations each worker runs unless told otherwise.
pub const DEFAULT_ITERATIONS: u32 = 1000;

/// How many hierarchy units are provisioned unless told otherwise.
pub const DEFAULT_UNIT_COUNT: u32 = 10000;

/// Everything a run needs to know, fixed before any worker spawns and never
/// mutated afterwards, so workers share it without synchronization.
pub struct BenchmarkConfig {
    /// The connection target each worker opens its own connection to.
    pub url: String,
    /// How many workers to spawn.
    pub worker_count: u32,
    /// How many iterations each worker runs.
    pub iterations: u32,
    /// The hierarchy mode under test.
    pub mode: Mode,
    /// How many hierarchy units are provisioned.
    pub unit_count: u32,
}

impl BenchmarkConfig {
    /// Whether this configuration can run at all: the unit-based modes need
    /// at least one unit to resolve a target from.
    pub open spec fn spec_valid(&self) -> bool {
        self.mode == Mode::Baseline || self.unit_count > 0
    }

    /// Rejects an unusable configuration before any worker starts.
    pub fn validate(&self) -> (r: Result<(), BenchError>)
        ensures
            self.spec_valid() ==> r == Ok::<(), BenchError>(()),
            !self.spec_valid() ==> r == Err::<(), BenchError>(BenchError::InvalidConfiguration),
    {
        if matches!(self.mode, Mode::Baseline) || self.unit_count > 0 {
            Ok(())
        } else {
            Err(BenchError::InvalidConfiguration)
        }
    }
}

} // verus!
