use netscope::{
    map_probe_event, normalize, sample_request_context, stub_result, AuditEvent, AuditSink,
    CephAuditSink, DomainError, IngressMessage, OutboundGateway, OutboundResult, Outcome,
    StubOutboundClient,
};

fn message(route: &str) -> IngressMessage {
    IngressMessage {
        request_id: "req-1".to_string(),
        route: route.to_string(),
        payload: "{\"amount\":12}".to_string(),
    }
}

#[test]
fn normalize_turns_route_into_group() {
    let n = normalize(message("/v1/partner/send"));
    assert_eq!(n.route_group, "v1-partner-send");
    assert_eq!(n.request_id, "req-1");
    assert_eq!(n.payload, "{\"amount\":12}");
}

#[test]
fn normalize_trims_edges_only() {
    assert_eq!(normalize(message("//orders//")).route_group, "orders");
    assert_eq!(normalize(message("a//b")).route_group, "a--b");
    assert_eq!(normalize(message("-a-")).route_group, "a");
    assert_eq!(normalize(message("---")).route_group, "");
    assert_eq!(normalize(message("")).route_group, "");
    assert_eq!(normalize(message("/é/ü/")).route_group, "é-ü");
}

#[test]
fn normalize_is_idempotent() {
    for route in ["/v1/partner/send", "//x/-/y//", "plain", "/-/"] {
        let once = normalize(message(route));
        let twice = normalize(message(&once.route_group));
        assert_eq!(once.route_group, twice.route_group);
        assert!(!once.route_group.contains('/'));
        assert!(!once.route_group.starts_with('-') && !once.route_group.ends_with('-'));
    }
}

#[test]
fn probe_event_keeps_both_addresses() {
    let context = sample_request_context();
    let result = OutboundResult {
        status_code: 503,
        latency_ms: 820,
        bytes_sent: 10,
        bytes_received: 20,
        retry_count: 1,
        timeout_count: 1,
        outcome: Outcome::Error,
    };
    let event = map_probe_event(&context, &result);
    assert_eq!(event.trace_id, "trace-bootstrap");
    assert_eq!(event.request_id, "req-bootstrap");
    assert_eq!(event.route, "/v1/partner/send");
    assert_eq!(event.internal_ip, "10.0.0.10");
    assert_eq!(event.external_ip, "203.0.113.10");
    assert_eq!(event.status_code, 503);
    assert_eq!(event.latency_ms, 820);
    assert_eq!(event.retry_count, 1);
    assert_eq!(event.timeout_count, 1);
}

#[test]
fn sample_context_is_populated() {
    let context = sample_request_context();
    assert_eq!(context.span_id, "span-bootstrap");
    assert_eq!(context.idempotency_key, "idem-bootstrap");
}

fn audit_event(request_id: &str) -> AuditEvent {
    AuditEvent {
        event_version: "1.0".to_string(),
        event_type: "request.completed".to_string(),
        timestamp: "2026-02-19T20:00:00Z".to_string(),
        trace_id: "trace-1".to_string(),
        request_id: request_id.to_string(),
        route: "/v1/partner/send".to_string(),
        status_code: 200,
        latency_ms: 142,
        retry_count: 1,
        timeout_count: 0,
        outcome: Outcome::Success,
    }
}

#[test]
fn audit_sink_counts_persisted_events() {
    let mut sink = CephAuditSink::default();
    assert_eq!(sink.stored_events(), 0);
    assert!(sink.persist(&audit_event("req-1")).is_ok());
    assert_eq!(sink.stored_events(), 1);
    assert!(sink.persist(&audit_event("req-2")).is_ok());
    assert_eq!(sink.stored_events(), 2);
}

#[test]
fn stub_client_answers_valid_request() {
    let client = StubOutboundClient::default();
    assert_eq!(client.policy.connect_timeout_ms, 200);
    assert_eq!(client.policy.read_timeout_ms, 1000);
    assert_eq!(client.policy.global_timeout_ms, 1500);
    assert_eq!(client.policy.max_attempts, 2);
    let result = client.execute(&sample_request_context()).unwrap();
    assert_eq!(result.status_code, 200);
    assert_eq!(result.bytes_sent, 256);
    assert_eq!(result.bytes_received, 512);
    assert_eq!(result.retry_count, 0);
    assert_eq!(result.timeout_count, 0);
    assert_eq!(result.outcome, Outcome::Success);
    assert!(result.latency_ms < 1000);
}

#[test]
fn stub_client_requires_idempotency_key() {
    let client = StubOutboundClient::default();
    let mut context = sample_request_context();
    context.idempotency_key = String::new();
    assert_eq!(
        client.execute(&context),
        Err(DomainError::InvalidInput("idempotency_key is required".to_string()))
    );
}

#[test]
fn stub_result_fields() {
    let r = stub_result(37);
    assert_eq!(r.latency_ms, 37);
    assert_eq!(r.status_code, 200);
    assert_eq!(r.outcome, Outcome::Success);
}
