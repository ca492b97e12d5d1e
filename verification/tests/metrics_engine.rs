use netscope::metrics_service;
use netscope::{InMemoryMetricsEngine, MetricsRecorder, RequestMetricPoint};

fn point(route: &str, internal: &str, external: &str, latency: u64, is_error: bool) -> RequestMetricPoint {
    RequestMetricPoint {
        route_group: route.to_string(),
        internal_ip: internal.to_string(),
        external_ip: external.to_string(),
        status_class: if is_error { "5xx".to_string() } else { "2xx".to_string() },
        latency_ms: latency,
        retry_count: 1,
        timeout_count: if is_error { 1 } else { 0 },
        is_error,
    }
}

#[test]
fn new_engine_reports_zero() {
    let engine = InMemoryMetricsEngine::new(16);
    let snap = engine.snapshot();
    assert_eq!(snap.requests_total, 0);
    assert_eq!(snap.errors_total, 0);
    assert_eq!(snap.retries_total, 0);
    assert_eq!(snap.timeouts_total, 0);
    assert!(snap.latency_by_label.is_empty());
}

#[test]
fn counters_follow_recorded_points() {
    let mut engine = InMemoryMetricsEngine::new(16);
    engine.record(&point("orders", "10.0.0.41", "185.12.5.67", 38, false));
    engine.record(&point("orders", "10.0.0.41", "185.12.5.67", 820, true));
    engine.record(&point("orders", "10.0.0.41", "185.12.5.67", 41, false));
    let snap = engine.snapshot();
    assert_eq!(snap.requests_total, 3);
    assert_eq!(snap.errors_total, 1);
    assert_eq!(snap.retries_total, 3);
    assert_eq!(snap.timeouts_total, 1);
    assert!(snap.errors_total <= snap.requests_total);
}

#[test]
fn window_keeps_latest_samples() {
    let mut engine = InMemoryMetricsEngine::new(3);
    for latency in [10u64, 20, 30, 40, 50] {
        engine.record(&point("orders", "10.0.0.41", "185.12.5.67", latency, false));
    }
    let snap = engine.snapshot();
    assert_eq!(snap.latency_by_label.len(), 1);
    let entry = &snap.latency_by_label[0];
    assert_eq!(entry.sample_count, 3);
    // Only 30, 40 and 50 remain: the smallest surviving sample is 30.
    assert_eq!(entry.p50_ms, Some(40));
    assert_eq!(entry.p95_ms, Some(50));
    assert_eq!(entry.p99_ms, Some(50));
}

#[test]
fn zero_capacity_window_keeps_one_sample() {
    let mut engine = InMemoryMetricsEngine::new(0);
    engine.record(&point("orders", "a", "b", 7, false));
    engine.record(&point("orders", "a", "b", 9, false));
    let snap = engine.snapshot();
    assert_eq!(snap.latency_by_label[0].sample_count, 1);
    assert_eq!(snap.latency_by_label[0].p50_ms, Some(9));
}

#[test]
fn nearest_rank_percentiles() {
    let mut engine = InMemoryMetricsEngine::new(1024);
    for latency in (1u64..=100).rev() {
        engine.record(&point("payments", "10.0.0.42", "185.12.5.67", latency, false));
    }
    let snap = engine.snapshot();
    let entry = &snap.latency_by_label[0];
    assert_eq!(entry.sample_count, 100);
    assert_eq!(entry.p50_ms, Some(50));
    assert_eq!(entry.p95_ms, Some(95));
    assert_eq!(entry.p99_ms, Some(99));
}

#[test]
fn percentiles_are_ordered_and_samples() {
    let mut engine = InMemoryMetricsEngine::new(1024);
    let latencies = [5u64, 900, 12, 12, 47, 300, 1, 64, 64, 2000, 33];
    for latency in latencies {
        engine.record(&point("orders", "n1", "gw", latency, false));
    }
    let snap = engine.snapshot();
    let entry = &snap.latency_by_label[0];
    let (p50, p95, p99) = (entry.p50_ms.unwrap(), entry.p95_ms.unwrap(), entry.p99_ms.unwrap());
    assert!(p50 <= p95 && p95 <= p99);
    assert!(latencies.contains(&p50) && latencies.contains(&p99));
    assert_eq!(p50, 47);
    assert_eq!(p99, 2000);
}

#[test]
fn labels_are_isolated_by_both_addresses() {
    let mut engine = InMemoryMetricsEngine::new(16);
    engine.record(&point("orders", "10.0.0.41", "185.12.5.67", 38, false));
    engine.record(&point("orders", "10.0.0.42", "185.12.5.67", 820, false));
    engine.record(&point("orders", "10.0.0.41", "185.12.5.99", 41, false));
    engine.record(&point("orders", "10.0.0.41", "185.12.5.67", 40, false));
    let snap = engine.snapshot();
    assert_eq!(snap.latency_by_label.len(), 3);
    let first = &snap.latency_by_label[0];
    assert_eq!(first.label.internal_ip, "10.0.0.41");
    assert_eq!(first.label.external_ip, "185.12.5.67");
    assert_eq!(first.sample_count, 2);
    let second = &snap.latency_by_label[1];
    assert_eq!(second.label.internal_ip, "10.0.0.42");
    assert_eq!(second.p50_ms, Some(820));
    assert_eq!(second.sample_count, 1);
    assert_eq!(snap.latency_by_label[2].label.external_ip, "185.12.5.99");
    assert_eq!(snap.latency_by_label[2].sample_count, 1);
}

#[test]
fn service_snapshot_matches_engine() {
    let mut engine = InMemoryMetricsEngine::new(8);
    engine.record(&point("orders", "a", "b", 3, true));
    let direct = engine.snapshot();
    let via_service = metrics_service::snapshot(&engine);
    assert_eq!(direct.requests_total, via_service.requests_total);
    assert_eq!(direct.errors_total, via_service.errors_total);
    assert_eq!(direct.latency_by_label.len(), via_service.latency_by_label.len());
    assert_eq!(via_service.latency_by_label[0].p50_ms, Some(3));
}
