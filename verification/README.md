# netscope

The verified core of NetScope, a network observability pipeline
(ingress → outbound calls → metrics, audit and real-time dashboard).

- `src/` is the Verus library: route normalization, probe events, the
  metrics engine (counters and bounded per-label latency windows with
  nearest-rank percentiles), configuration validation, the audit sink, the
  outbound stub, header extraction, the WebSocket hub and the per-event
  decisions of a WebSocket session.
- `app/` is the HTTP/WebSocket server (axum, tower, tokio) around it.
- `tests/` exercises the library on concrete values.
