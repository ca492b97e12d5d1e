//! NetScope: the verified core of a network observability pipeline.
//!
//! Ingress messages are normalized into route groups, outbound calls are
//! measured into probe events and metric points, the metrics engine keeps
//! counters and bounded latency windows per label, and the WebSocket session
//! logic decides what each client receives.
mod audit;
mod config;
mod domain;
mod dto;
mod extractors;
mod ingest;
mod json_text;
mod metrics;
pub mod metrics_service;
mod outbound;
mod probe;
mod test_support;
mod text;
mod timestamp;
mod websocket;
mod window;
mod ws_hub;

pub use audit::CephAuditSink;
pub use config::{
    config_problem, default_latency_buckets, lemma_config_accepted_iff_complete, AppConfig,
    CephConfig, ConfigError, KafkaConfig,
    MetricsConfig, ServiceConfig,
};
pub use domain::{
    AuditEvent, AuditSink, CircuitState, DomainError, EventBus, MetricsRecorder, OutboundGateway,
    OutboundResult, Outcome, RequestContext, RequestMetricPoint,
};
pub use dto::MetricsResponse;
pub use extractors::{
    extract_client_ip, extract_trace_id, first_header_value, header_as_text, header_entries,
    header_text, is_lowercase_header_name, is_visible_ascii, lemma_header_text_bytes, session_trace_id, session_trace_text,
};
pub use ingest::{
    dashed, lemma_route_group_idempotent, lemma_route_group_is_trimmed_route, lemma_route_group_shape, normalize, route_group_of,
    trim_end_dashes, trim_start_dashes, IngressMessage, NormalizedMessage,
};
pub use metrics::{
    counter_of, empty_model, error_count, is_first_with, latencies_for, lemma_record_counts,
    lemma_run_counters, lemma_run_snapshot_entry, lemma_run_windows, record_all, recorded_under,
    retry_sum, timeout_sum, lemma_record_isolates_labels, lemma_record_preserves_wf,
    lemma_snapshot_percentiles_ordered, percentiles_of, point_key, record_model, record_windows,
    window_position, windows_wf, InMemoryMetricsEngine, LabelKey, LatencyPercentiles, MetricLabel,
    MetricLabelSnapshot, MetricsModel, NetworkMetricsSnapshot,
};
pub use outbound::{stub_result, stub_result_spec, ResiliencePolicy, StubOutboundClient};
pub use probe::{map_probe_event, ProbeEvent};
pub use test_support::sample_request_context;
pub use json_text::{decimal, digit_char, escape_json_char, hex_char, json_escaped, json_string};
pub use timestamp::{
    civil_days, days_before_month_of, days_before_year, days_in_month, days_in_year, is_leap_year,
    leap_day, leap_years_through, lemma_utc_timestamp_gregorian, month_and_day, month_length,
    two_digits, utc_timestamp,
    utc_timestamp_text, year_and_day,
};
pub use websocket::{
    drop_notice_message, drop_notice_text, heartbeat_message, heartbeat_text, socket_step,
    OutgoingFrame, SocketAction, SocketEvent, SocketSession,
};
pub use window::{
    ascending, at_most, below, latest, lemma_ascending_total, lemma_percentile_nearest_rank, lemma_percentile_is_sample,
    lemma_percentile_monotone, lemma_rank_index_monotone, lemma_sorted_samples,
    lemma_window_keeps_latest, lemma_window_push_bounded, lemma_window_push_latest, rank_index, sorted_samples,
    window_after, window_capacity, window_percentile, window_push,
};
pub use ws_hub::{
    channel_capacity, is_power_of_two, lemma_power_of_two_bounds, power_of_two_at_least,
    receivers_reached, WsHub, DEFAULT_CAPACITY,
};
