//! Outbound client: resilience policy and a stub gateway that measures each call.
use std::time::{Duration, Instant};
use vstd::prelude::*;

use crate::domain::{DomainError, OutboundGateway, OutboundResult, Outcome, RequestContext};

verus! {

#[verifier::external_type_specification]
#[verifier::external_body]
pub struct ExInstant(Instant);

/// Reads the monotonic clock: a call of `Instant::now`. Nothing is stated of
/// the value, which depends on the time of the call.
#[verifier::external_body]
fn monotonic_now() -> Instant {
    Instant::now()
}

/// Time elapsed since `start` on the monotonic clock: a call of
/// `Instant::elapsed`. Nothing is stated of the value, which depends on the
/// time of the call.
#[verifier::external_body]
fn elapsed_since(start: &Instant) -> Duration {
    start.elapsed()
}

/// Whole milliseconds of a duration: a call of `Duration::as_millis`.
/// Nothing is stated of the value, since a duration is opaque here.
#[verifier::external_body]
fn whole_millis(d: &Duration) -> u128 {
    d.as_millis()
}

/// Timeouts and retry budget for outbound calls.
#[derive(Debug, Clone, PartialEq, Eq)]
pub struct ResiliencePolicy {
    pub connect_timeout_ms: u64,
    pub read_timeout_ms: u64,
    pub global_timeout_ms: u64,
    pub max_attempts: u32,
}

/// An outbound gateway that answers every valid request at once.
#[derive(Debug, Clone, PartialEq, Eq)]
pub struct StubOutboundClient {
    pub policy: ResiliencePolicy,
}

impl Default for StubOutboundClient {
    fn default() -> (c: Self)
        ensures
            c.policy.connect_timeout_ms == 200,
            c.policy.read_timeout_ms == 1000,
            c.policy.global_timeout_ms == 1500,
            c.policy.max_attempts == 2,
    {
        StubOutboundClient {
            policy: ResiliencePolicy {
                connect_timeout_ms: 200,
                read_timeout_ms: 1000,
                global_timeout_ms: 1500,
                max_attempts: 2,
            },
        }
    }
}

/// The answer of the stub to a valid request that took `latency_ms`.
pub open spec fn stub_result_spec(latency_ms: u64) -> OutboundResult {
    OutboundResult {
        status_code: 200,
        latency_ms,
        bytes_sent: 256,
        bytes_received: 512,
        retry_count: 0,
        timeout_count: 0,
        outcome: Outcome::Success,
    }
}

/// The answer of the stub once the call has been timed.
pub fn stub_result(latency_ms: u64) -> (r: OutboundResult)
    ensures
        r == stub_result_spec(latency_ms),
{
    OutboundResult {
        status_code: 200,
        latency_ms,
        bytes_sent: 256,
        bytes_received: 512,
        retry_count: 0,
        timeout_count: 0,
        outcome: Outcome::Success,
    }
}

impl OutboundGateway for StubOutboundClient {
    /// Refuses a request without idempotency key; otherwise times the
    /// (immediate) call on the monotonic clock.
    fn execute(&self, context: &RequestContext) -> (r: Result<OutboundResult, DomainError>)
        ensures
            r is Err <==> context.idempotency_key@.len() == 0,
            r matches Err(e) ==> e matches DomainError::InvalidInput(m) && m@ == "idempotency_key is required"@,
            r matches Ok(res) ==> res == stub_result_spec(res.latency_ms),
    {
        if context.idempotency_key.as_str().is_empty() {
            return Err(DomainError::InvalidInput("idempotency_key is required".to_owned()));
        }
        let started_at = monotonic_now();
        let elapsed = elapsed_since(&started_at);
        let millis = whole_millis(&elapsed);
        let latency_ms: u64 = millis as u64;
        Ok(stub_result(latency_ms))
    }
}

} // verus!
