//! A concurrent latency-benchmark core for a relational database.
//!
//! The library holds the verified logic of the benchmark: a mergeable
//! logarithmic-bucket latency histogram, a synthetic-record generator, a
//! relation-target resolver over the hierarchy modes, the per-worker
//! measurement state machine, the orchestrator's merge-and-report step, and
//! teardown statement generation.  Thread spawning, command-line parsing and
//! the database driver itself live outside the library and drive it through
//! plain values.

pub mod config;
pub mod contention;
pub mod errors;
pub mod hist;
pub mod orchestrator;
pub mod record;
pub mod resolver;
pub mod rng;
pub mod teardown;
pub mod text;
pub mod worker;
