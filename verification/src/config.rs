//! Application configuration, its defaults and its validation.
use vstd::prelude::*;

verus! {

/// HTTP service settings.
#[derive(Debug, Clone, PartialEq, Eq)]
pub struct ServiceConfig {
    pub bind_addr: String,
    /// Longest time a request may take before the server answers 408 (ms).
    pub request_timeout_ms: u64,
    /// Most requests handled at once.
    pub max_concurrent_requests: usize,
    /// Capacity of the broadcast channel of the WebSocket hub (drop-oldest when full).
    pub ws_hub_capacity: usize,
}

/// Latency histogram buckets and sliding-window size. The buckets must be the
/// same in every environment so that percentiles stay comparable.
#[derive(Debug, Clone, PartialEq, Eq)]
pub struct MetricsConfig {
    /// Upper bounds of the latency buckets, in whole milliseconds.
    pub latency_buckets_ms: Vec<u64>,
    /// Most samples kept per label in the sliding window.
    pub max_latency_samples: usize,
}

/// Ingress topic settings.
#[derive(Debug, Clone, PartialEq, Eq)]
pub struct KafkaConfig {
    pub brokers: String,
    pub topic: String,
}

/// Audit object store settings.
#[derive(Debug, Clone, PartialEq, Eq)]
pub struct CephConfig {
    pub endpoint: String,
    pub bucket: String,
}

/// The whole application configuration.
#[derive(Debug, Clone, PartialEq, Eq)]
pub struct AppConfig {
    pub service: ServiceConfig,
    pub kafka: KafkaConfig,
    pub ceph: CephConfig,
    pub metrics: MetricsConfig,
}

/// A configuration that cannot be used, with the reason.
#[derive(Debug, Clone, PartialEq, Eq)]
pub enum ConfigError {
    Invalid(String),
}

/// The default latency buckets, in milliseconds.
pub open spec fn default_latency_buckets() -> Seq<u64> {
    seq![10u64, 25, 50, 100, 250, 500, 1000, 2500]
}

impl Default for MetricsConfig {
    fn default() -> (c: Self)
        ensures
            c.latency_buckets_ms@ == default_latency_buckets(),
            c.max_latency_samples == 1024,
    {
        let c = MetricsConfig {
            latency_buckets_ms: vec![10, 25, 50, 100, 250, 500, 1000, 2500],
            max_latency_samples: 1024,
        };
        assert(c.latency_buckets_ms@ =~= default_latency_buckets());
        c
    }
}

impl Default for AppConfig {
    fn default() -> (c: Self)
        ensures
            c.service.bind_addr@ == "127.0.0.1:8080"@,
            c.service.request_timeout_ms == 5000,
            c.service.max_concurrent_requests == 500,
            c.service.ws_hub_capacity == 256,
            c.kafka.brokers@ == "127.0.0.1:9092"@,
            c.kafka.topic@ == "netscope.ingress"@,
            c.ceph.endpoint@ == "http://127.0.0.1:7480"@,
            c.ceph.bucket@ == "netscope-audit"@,
            c.metrics.latency_buckets_ms@ == default_latency_buckets(),
            c.metrics.max_latency_samples == 1024,
            config_problem(c) is None,
    {
        let c = AppConfig {
            service: ServiceConfig {
                bind_addr: "127.0.0.1:8080".to_owned(),
                request_timeout_ms: 5_000,
                max_concurrent_requests: 500,
                ws_hub_capacity: 256,
            },
            kafka: KafkaConfig {
                brokers: "127.0.0.1:9092".to_owned(),
                topic: "netscope.ingress".to_owned(),
            },
            ceph: CephConfig {
                endpoint: "http://127.0.0.1:7480".to_owned(),
                bucket: "netscope-audit".to_owned(),
            },
            metrics: MetricsConfig::default(),
        };
        proof {
            reveal_strlit("127.0.0.1:8080");
            reveal_strlit("127.0.0.1:9092");
            reveal_strlit("netscope.ingress");
            reveal_strlit("http://127.0.0.1:7480");
            reveal_strlit("netscope-audit");
        }
        c
    }
}

/// The first problem found in a configuration, checked in this order, or
/// `None` when it can be used.
pub open spec fn config_problem(c: AppConfig) -> Option<Seq<char>> {
    if c.service.bind_addr@.len() == 0 {
        Some("service.bind_addr is empty"@)
    } else if c.service.request_timeout_ms == 0 {
        Some("service.request_timeout_ms must be > 0"@)
    } else if c.service.max_concurrent_requests == 0 {
        Some("service.max_concurrent_requests must be > 0"@)
    } else if c.kafka.brokers@.len() == 0 || c.kafka.topic@.len() == 0 {
        Some("kafka config is incomplete"@)
    } else if c.ceph.endpoint@.len() == 0 || c.ceph.bucket@.len() == 0 {
        Some("ceph config is incomplete"@)
    } else if c.metrics.latency_buckets_ms@.len() == 0 {
        Some("metrics.latency_buckets_ms must not be empty"@)
    } else if c.metrics.max_latency_samples == 0 {
        Some("metrics.max_latency_samples must be > 0"@)
    } else {
        None
    }
}

/// Validity law: a configuration is accepted exactly when every required
/// field is set: the bind address, brokers, topic, endpoint and bucket are
/// non-empty, there is at least one latency bucket, and the timeout, the
/// concurrency limit and the window size are positive.
pub proof fn lemma_config_accepted_iff_complete(c: AppConfig)
    ensures
        config_problem(c) is None <==> (
            c.service.bind_addr@.len() > 0
            && c.service.request_timeout_ms > 0
            && c.service.max_concurrent_requests > 0
            && c.kafka.brokers@.len() > 0
            && c.kafka.topic@.len() > 0
            && c.ceph.endpoint@.len() > 0
            && c.ceph.bucket@.len() > 0
            && c.metrics.latency_buckets_ms@.len() > 0
            && c.metrics.max_latency_samples > 0
        ),
{
}

fn invalid(message: &str) -> (e: ConfigError)
    ensures
        e->Invalid_0@ == message@,
{
    ConfigError::Invalid(message.to_owned())
}

impl AppConfig {
    /// Checks the configuration; the error names the first problem found.
    pub fn validate(&self) -> (r: Result<(), ConfigError>)
        ensures
            r is Ok <==> config_problem(*self) is None,
            r matches Err(ConfigError::Invalid(m)) ==> config_problem(*self) == Some(m@),
    {
        if self.service.bind_addr.as_str().is_empty() {
            return Err(invalid("service.bind_addr is empty"));
        }
        if self.service.request_timeout_ms == 0 {
            return Err(invalid("service.request_timeout_ms must be > 0"));
        }
        if self.service.max_concurrent_requests == 0 {
            return Err(invalid("service.max_concurrent_requests must be > 0"));
        }
        if self.kafka.brokers.as_str().is_empty() || self.kafka.topic.as_str().is_empty() {
            return Err(invalid("kafka config is incomplete"));
        }
        if self.ceph.endpoint.as_str().is_empty() || self.ceph.bucket.as_str().is_empty() {
            return Err(invalid("ceph config is incomplete"));
        }
        if self.metrics.latency_buckets_ms.len() == 0 {
            return Err(invalid("metrics.latency_buckets_ms must not be empty"));
        }
        if self.metrics.max_latency_samples == 0 {
            return Err(invalid("metrics.max_latency_samples must be > 0"));
        }
        Ok(())
    }
}

} // verus!
