use netscope::{AppConfig, ConfigError, MetricsConfig};

fn invalid_message(config: &AppConfig) -> String {
    match config.validate() {
        Err(ConfigError::Invalid(message)) => message,
        Ok(()) => panic!("expected an invalid configuration"),
    }
}

#[test]
fn default_config_is_valid() {
    let config = AppConfig::default();
    assert!(config.validate().is_ok());
    assert_eq!(config.service.bind_addr, "127.0.0.1:8080");
    assert_eq!(config.service.request_timeout_ms, 5_000);
    assert_eq!(config.service.max_concurrent_requests, 500);
    assert_eq!(config.service.ws_hub_capacity, 256);
    assert_eq!(config.kafka.brokers, "127.0.0.1:9092");
    assert_eq!(config.kafka.topic, "netscope.ingress");
    assert_eq!(config.ceph.endpoint, "http://127.0.0.1:7480");
    assert_eq!(config.ceph.bucket, "netscope-audit");
    assert_eq!(config.metrics.max_latency_samples, 1024);
}

#[test]
fn default_metrics_buckets() {
    let metrics = MetricsConfig::default();
    assert_eq!(metrics.latency_buckets_ms, vec![10, 25, 50, 100, 250, 500, 1000, 2500]);
    assert_eq!(metrics.max_latency_samples, 1024);
}

#[test]
fn empty_bind_addr_is_rejected() {
    let mut config = AppConfig::default();
    config.service.bind_addr = String::new();
    assert_eq!(invalid_message(&config), "service.bind_addr is empty");
}

#[test]
fn zero_timeout_is_rejected() {
    let mut config = AppConfig::default();
    config.service.request_timeout_ms = 0;
    assert_eq!(invalid_message(&config), "service.request_timeout_ms must be > 0");
}

#[test]
fn zero_concurrency_is_rejected() {
    let mut config = AppConfig::default();
    config.service.max_concurrent_requests = 0;
    assert_eq!(invalid_message(&config), "service.max_concurrent_requests must be > 0");
}

#[test]
fn incomplete_kafka_is_rejected() {
    let mut config = AppConfig::default();
    config.kafka.topic = String::new();
    assert_eq!(invalid_message(&config), "kafka config is incomplete");
    let mut config = AppConfig::default();
    config.kafka.brokers = String::new();
    assert_eq!(invalid_message(&config), "kafka config is incomplete");
}

#[test]
fn incomplete_ceph_is_rejected() {
    let mut config = AppConfig::default();
    config.ceph.bucket = String::new();
    assert_eq!(invalid_message(&config), "ceph config is incomplete");
}

#[test]
fn empty_buckets_are_rejected() {
    let mut config = AppConfig::default();
    config.metrics.latency_buckets_ms.clear();
    assert_eq!(invalid_message(&config), "metrics.latency_buckets_ms must not be empty");
}

#[test]
fn zero_window_is_rejected() {
    let mut config = AppConfig::default();
    config.metrics.max_latency_samples = 0;
    assert_eq!(invalid_message(&config), "metrics.max_latency_samples must be > 0");
}

#[test]
fn first_problem_is_reported() {
    let mut config = AppConfig::default();
    config.service.bind_addr = String::new();
    config.metrics.max_latency_samples = 0;
    assert_eq!(invalid_message(&config), "service.bind_addr is empty");
}
