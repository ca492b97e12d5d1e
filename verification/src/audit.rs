//! Audit sink that keeps every persisted event, in order.
use vstd::prelude::*;

use crate::domain::{AuditEvent, AuditSink, DomainError};

verus! {

/// An audit sink holding the events written so far. It is not `Clone`: a
/// copy would hold a store of its own, so writers that share one store share
/// one sink (the server keeps it behind a lock).
#[derive(Debug)]
pub struct CephAuditSink {
    events: Vec<AuditEvent>,
}

impl View for CephAuditSink {
    type V = Seq<AuditEvent>;

    closed spec fn view(&self) -> Seq<AuditEvent> {
        self.events@
    }
}

impl Default for CephAuditSink {
    fn default() -> (s: Self)
        ensures
            s@ == Seq::<AuditEvent>::empty(),
    {
        CephAuditSink { events: Vec::new() }
    }
}

impl CephAuditSink {
    /// Number of events persisted so far.
    pub fn stored_events(&self) -> (n: usize)
        ensures
            n == self@.len(),
    {
        self.events.len()
    }
}

impl AuditSink for CephAuditSink {
    /// Appends a copy of the event; persisting never fails.
    fn persist(&mut self, event: &AuditEvent) -> (r: Result<(), DomainError>)
        ensures
            r is Ok,
            final(self)@ == old(self)@.push(*event),
    {
        let copy = AuditEvent {
            event_version: event.event_version.clone(),
            event_type: event.event_type.clone(),
            timestamp: event.timestamp.clone(),
            trace_id: event.trace_id.clone(),
            request_id: event.request_id.clone(),
            route: event.route.clone(),
            status_code: event.status_code,
            latency_ms: event.latency_ms,
            retry_count: event.retry_count,
            timeout_count: event.timeout_count,
            outcome: event.outcome,
        };
        self.events.push(copy);
        Ok(())
    }
}

} // verus!
