//! Read access to the metrics engine for the HTTP layer.
use vstd::prelude::*;

use crate::metrics::{percentiles_of, windows_wf, InMemoryMetricsEngine, NetworkMetricsSnapshot};

verus! {

/// The engine's current snapshot.
pub fn snapshot(metrics: &InMemoryMetricsEngine) -> (s: NetworkMetricsSnapshot)
    ensures
        s.requests_total == metrics@.requests,
        s.errors_total == metrics@.errors,
        s.retries_total == metrics@.retries,
        s.timeouts_total == metrics@.timeouts,
        s.latency_by_label@.len() == metrics@.windows.len(),
        forall|i: int| 0 <= i < metrics@.windows.len()
            ==> percentiles_of(#[trigger] s.latency_by_label@[i], metrics@.windows[i]),
        windows_wf(metrics@.windows, metrics@.max_samples),
{
    metrics.snapshot()
}

} // verus!
