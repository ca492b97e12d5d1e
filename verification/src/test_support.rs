//! A ready-made request context for examples and tests.
use vstd::prelude::*;

use crate::domain::RequestContext;

verus! {

/// A fixed, fully populated request context.
pub fn sample_request_context() -> (c: RequestContext)
    ensures
        c.trace_id@ == "trace-bootstrap"@,
        c.span_id@ == "span-bootstrap"@,
        c.request_id@ == "req-bootstrap"@,
        c.idempotency_key@ == "idem-bootstrap"@,
        c.route@ == "/v1/partner/send"@,
        c.internal_ip@ == "10.0.0.10"@,
        c.external_ip@ == "203.0.113.10"@,
{
    RequestContext {
        trace_id: "trace-bootstrap".to_owned(),
        span_id: "span-bootstrap".to_owned(),
        request_id: "req-bootstrap".to_owned(),
        idempotency_key: "idem-bootstrap".to_owned(),
        route: "/v1/partner/send".to_owned(),
        internal_ip: "10.0.0.10".to_owned(),
        external_ip: "203.0.113.10".to_owned(),
    }
}

} // verus!
