//! Shared domain types: request context, outcomes, events, errors and ports.
use vstd::prelude::*;

verus! {

/// Correlation data carried by every outbound request.
#[derive(Debug, Clone, PartialEq, Eq)]
pub struct RequestContext {
    pub trace_id: String,
    pub span_id: String,
    pub request_id: String,
    pub idempotency_key: String,
    pub route: String,
    pub internal_ip: String,
    pub external_ip: String,
}

/// Errors raised by the domain ports.
#[derive(Debug, Clone, PartialEq, Eq)]
pub enum DomainError {
    InvalidInput(String),
    UpstreamTimeout,
    UpstreamError(String),
    AuditSinkError(String),
}

/// Final result of an outbound call.
#[derive(Debug, Clone, Copy, PartialEq, Eq, Structural)]
pub enum Outcome {
    Success,
    Error,
}

/// What an outbound call produced, as measured by the client.
#[derive(Debug, Clone, PartialEq)]
pub struct OutboundResult {
    pub status_code: u16,
    pub latency_ms: u64,
    pub bytes_sent: usize,
    pub bytes_received: usize,
    pub retry_count: u32,
    pub timeout_count: u32,
    pub outcome: Outcome,
}

/// An audit record of one completed request.
#[derive(Debug, Clone, PartialEq)]
pub struct AuditEvent {
    pub event_version: String,
    pub event_type: String,
    pub timestamp: String,
    pub trace_id: String,
    pub request_id: String,
    pub route: String,
    pub status_code: u16,
    pub latency_ms: u64,
    pub retry_count: u32,
    pub timeout_count: u32,
    pub outcome: Outcome,
}

/// One measurement handed to the metrics engine. Both network dimensions
/// (internal and external address) are kept so that aggregation never hides
/// which node or which destination is degraded.
#[derive(Debug, Clone, PartialEq)]
pub struct RequestMetricPoint {
    pub route_group: String,
    pub internal_ip: String,
    pub external_ip: String,
    pub status_class: String,
    pub latency_ms: u64,
    pub retry_count: u32,
    pub timeout_count: u32,
    pub is_error: bool,
}

/// State of the outbound circuit breaker.
#[derive(Debug, Clone, Copy, PartialEq, Eq, Structural)]
pub enum CircuitState {
    Closed,
    HalfOpen,
    Open,
}

/// Performs an outbound call for a request.
pub trait OutboundGateway {
    fn execute(&self, context: &RequestContext) -> Result<OutboundResult, DomainError>;
}

/// Persists audit events.
pub trait AuditSink {
    fn persist(&mut self, event: &AuditEvent) -> Result<(), DomainError>;
}

/// Records request measurements.
pub trait MetricsRecorder {
    fn record(&mut self, point: &RequestMetricPoint);
}

/// Publishes JSON payloads on a topic.
pub trait EventBus {
    fn publish_json(&mut self, topic: &str, payload: &str) -> Result<(), DomainError>;
}

} // verus!
