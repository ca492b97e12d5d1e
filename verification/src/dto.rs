//! Response bodies of the HTTP API.
use vstd::prelude::*;

verus! {

/// Aggregated request counters.
#[derive(Debug, Clone, PartialEq, Eq)]
pub struct MetricsResponse {
    pub requests_total: u64,
    pub errors_total: u64,
    pub retries_total: u64,
    pub timeouts_total: u64,
}

} // verus!
