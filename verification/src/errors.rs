//! The benchmark's error taxonomy.

use vstd::prelude::*;

verus! {

/// Every failure the benchmark core can report.
///
/// `Connection` and `Transaction` are fatal to the worker that hit them only;
/// `InvalidConfiguration` is fatal to the whole run and surfaces before any
/// worker starts; `EmptyHistogram` and `NoResults` are fatal to reporting
/// only; `IncompatibleHistogram` marks a merge of histograms built with
/// different bucket configurations.
#[derive(Clone, Copy, Debug, PartialEq, Eq, Structural)]
pub enum BenchError {
    /// A sample was outside the histogram's trackable range.
    InvalidSample,
    /// A percentile was asked of a histogram with no samples.
    EmptyHistogram,
    /// Two histograms with different bucket configurations were merged.
    IncompatibleHistogram,
    /// The run's configuration was rejected before any worker started.
    InvalidConfiguration,
    /// A worker's database connection could not be established or was lost.
    Connection,
    /// A transaction failed; the affected worker stops at once.
    Transaction,
    /// No worker produced data, so nothing can be reported.
    NoResults,
}

impl BenchError {
    /// A short description of the error, for the operator.
    pub fn message(&self) -> (r: &'static str)
        ensures
            r@.len() > 0,
    {
        proof {
            reveal_strlit("sample is outside the trackable range");
            reveal_strlit("histogram holds no samples");
            reveal_strlit("histogram bucket configurations differ");
            reveal_strlit("invalid benchmark configuration");
            reveal_strlit("database connection failed");
            reveal_strlit("transaction failed");
            reveal_strlit("no worker produced results");
        }
        match self {
            BenchError::InvalidSample => "sample is outside the trackable range",
            BenchError::EmptyHistogram => "histogram holds no samples",
            BenchError::IncompatibleHistogram => "histogram bucket configurations differ",
            BenchError::InvalidConfiguration => "invalid benchmark configuration",
            BenchError::Connection => "database connection failed",
            BenchError::Transaction => "transaction failed",
            BenchError::NoResults => "no worker produced results",
        }
    }
}

} // verus!
