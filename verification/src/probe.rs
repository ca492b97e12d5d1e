//! Probe events: one measurement of an outbound call, with its correlation data.
use vstd::prelude::*;

use crate::domain::{OutboundResult, RequestContext};

verus! {

/// A measured outbound call, keeping both the internal (source) and the
/// external (destination) address.
#[derive(Debug, Clone, PartialEq)]
pub struct ProbeEvent {
    pub trace_id: String,
    pub request_id: String,
    pub route: String,
    pub internal_ip: String,
    pub external_ip: String,
    pub status_code: u16,
    pub latency_ms: u64,
    pub retry_count: u32,
    pub timeout_count: u32,
}

/// Builds the probe event of a call from its context and its result.
pub fn map_probe_event(context: &RequestContext, result: &OutboundResult) -> (e: ProbeEvent)
    ensures
        e.trace_id == context.trace_id,
        e.request_id == context.request_id,
        e.route == context.route,
        e.internal_ip == context.internal_ip,
        e.external_ip == context.external_ip,
        e.status_code == result.status_code,
        e.latency_ms == result.latency_ms,
        e.retry_count == result.retry_count,
        e.timeout_count == result.timeout_count,
{
    ProbeEvent {
        trace_id: context.trace_id.clone(),
        request_id: context.request_id.clone(),
        route: context.route.clone(),
        internal_ip: context.internal_ip.clone(),
        external_ip: context.external_ip.clone(),
        status_code: result.status_code,
        latency_ms: result.latency_ms,
        retry_count: result.retry_count,
        timeout_count: result.timeout_count,
    }
}

} // verus!
