use axum::http::{HeaderMap, HeaderValue};
use netscope::{
    drop_notice_message, extract_client_ip, extract_trace_id, heartbeat_message, receivers_reached,
    session_trace_id, socket_step, utc_timestamp, OutgoingFrame, SocketAction, SocketEvent,
    SocketSession, WsHub, DEFAULT_CAPACITY,
};

fn session() -> SocketSession {
    SocketSession { trace_id: "2b6f".to_string() }
}

#[test]
fn publish_without_subscribers_reaches_nobody() {
    let hub = WsHub::new(4);
    assert_eq!(hub.subscriber_count(), 0);
    assert_eq!(hub.publish("{\"event_type\":\"x\"}".to_string()), 0);
}

#[test]
fn publish_reaches_subscribers() {
    let hub = WsHub::default();
    let mut first = hub.subscribe();
    let _second = hub.subscribe();
    assert_eq!(hub.subscriber_count(), 2);
    assert_eq!(hub.publish("event-1".to_string()), 2);
    assert_eq!(first.try_recv().unwrap(), "event-1");
    assert_eq!(DEFAULT_CAPACITY, 256);
}

#[test]
fn slow_subscriber_loses_oldest_events() {
    let hub = WsHub::new(2);
    let mut rx = hub.subscribe();
    for i in 0..4 {
        hub.publish(format!("e{}", i));
    }
    assert!(rx.try_recv().is_err());
    assert_eq!(rx.try_recv().unwrap(), "e2");
    assert_eq!(rx.try_recv().unwrap(), "e3");
}

#[test]
fn receivers_reached_counts() {
    assert_eq!(receivers_reached(None), 0);
    assert_eq!(receivers_reached(Some(3)), 3);
}

#[test]
fn client_ip_from_forwarded_header() {
    let mut headers = HeaderMap::new();
    assert_eq!(extract_client_ip(&headers), None);
    headers.insert("x-forwarded-for", HeaderValue::from_static("203.0.113.7"));
    assert_eq!(extract_client_ip(&headers), Some("203.0.113.7".to_string()));
    headers.append("x-forwarded-for", HeaderValue::from_static("10.0.0.1"));
    assert_eq!(extract_client_ip(&headers), Some("203.0.113.7".to_string()));
}

#[test]
fn trace_id_header_must_be_visible_ascii() {
    let mut headers = HeaderMap::new();
    headers.insert("x-trace-id", HeaderValue::from_bytes(b"abc\x80def").unwrap());
    assert_eq!(extract_trace_id(&headers), None);
    headers.insert("x-trace-id", HeaderValue::from_static("2b6f\tab"));
    assert_eq!(extract_trace_id(&headers), Some("2b6f\tab".to_string()));
    assert_eq!(extract_client_ip(&headers), None);
}

#[test]
fn socket_forwards_hub_events() {
    assert_eq!(
        socket_step(&session(), SocketEvent::Broadcast("payload".to_string())),
        SocketAction::Send { frame: OutgoingFrame::Text("payload".to_string()), disconnect_on_failure: true }
    );
}

#[test]
fn socket_sends_heartbeat_with_trace_id() {
    let expected =
        "{\"event_type\":\"system.heartbeat\",\"event_version\":\"1.0\",\"trace_id\":\"2b6f\"}".to_string();
    assert_eq!(heartbeat_message(&session()), expected);
    assert_eq!(
        socket_step(&session(), SocketEvent::HeartbeatDue),
        SocketAction::Send { frame: OutgoingFrame::Text(expected), disconnect_on_failure: true }
    );
}

#[test]
fn heartbeat_is_valid_json_with_trace_id() {
    let s = SocketSession { trace_id: "a\"b\\c\nd\u{1}".to_string() };
    let text = heartbeat_message(&s);
    let value: serde_json::Value = serde_json::from_str(&text).unwrap();
    assert_eq!(value["event_type"], "system.heartbeat");
    assert_eq!(value["event_version"], "1.0");
    assert_eq!(value["trace_id"], "a\"b\\c\nd\u{1}");
}

#[test]
fn socket_sends_drop_notice_on_lag() {
    let expected = "{\"dropped_events\":120,\"event_type\":\"system.ws.drop_notice\",\"event_version\":\"1.0\",\"reason\":\"client_slow_consumer\",\"timestamp\":\"2026-02-20T09:11:00Z\",\"trace_id\":\"2b6f\"}".to_string();
    assert_eq!(drop_notice_message(&session(), 120, 1771578660), expected);
    assert_eq!(
        socket_step(&session(), SocketEvent::Lagged { dropped: 120, at_unix_seconds: 1771578660 }),
        SocketAction::Send { frame: OutgoingFrame::Text(expected.clone()), disconnect_on_failure: true }
    );
    let value: serde_json::Value = serde_json::from_str(&expected).unwrap();
    assert_eq!(value["dropped_events"], 120);
}

#[test]
fn utc_timestamps() {
    assert_eq!(utc_timestamp(0), "1970-01-01T00:00:00Z");
    assert_eq!(utc_timestamp(951782400), "2000-02-29T00:00:00Z");
    assert_eq!(utc_timestamp(1771578660), "2026-02-20T09:11:00Z");
    assert_eq!(utc_timestamp(1798761599), "2026-12-31T23:59:59Z");
    assert_eq!(utc_timestamp(4107542400), "2100-03-01T00:00:00Z");
}

#[test]
fn session_trace_id_prefers_trace_header() {
    let mut headers = HeaderMap::new();
    assert_eq!(session_trace_id(&headers), "");
    headers.insert("x-request-id", HeaderValue::from_static("req-42"));
    assert_eq!(session_trace_id(&headers), "req-42");
    headers.insert("x-trace-id", HeaderValue::from_static("trace-7"));
    assert_eq!(session_trace_id(&headers), "trace-7");
}

#[test]
fn socket_answers_ping_with_pong() {
    assert_eq!(
        socket_step(&session(), SocketEvent::ClientPing(vec![1, 2, 3])),
        SocketAction::Send { frame: OutgoingFrame::Pong(vec![1, 2, 3]), disconnect_on_failure: false }
    );
}

#[test]
fn socket_ignores_client_text() {
    assert_eq!(socket_step(&session(), SocketEvent::ClientOther), SocketAction::Continue);
}

#[test]
fn socket_ends_on_close() {
    assert_eq!(socket_step(&session(), SocketEvent::ClientClosed), SocketAction::Disconnect);
    assert_eq!(socket_step(&session(), SocketEvent::HubClosed), SocketAction::Disconnect);
}

#[test]
fn capacity_rounds_up_to_power_of_two() {
    let hub = WsHub::new(3);
    let mut rx = hub.subscribe();
    for i in 0..5 {
        hub.publish(format!("e{}", i));
    }
    // Four events fit (3 rounded up to 4); the oldest one is lost.
    assert!(rx.try_recv().is_err());
    for i in 1..5 {
        assert_eq!(rx.try_recv().unwrap(), format!("e{}", i));
    }
}
