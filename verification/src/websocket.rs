//! Decisions of a WebSocket client session: what to do on each thing that
//! happens (a hub event, a heartbeat tick, a lag, a client frame).
use vstd::prelude::*;

use crate::json_text::{decimal, json_string, push_decimal, push_json_string};
use crate::timestamp::{utc_timestamp, utc_timestamp_text};

verus! {

/// What a session knows of itself: the trace identifier its control events carry.
#[derive(Debug, Clone, PartialEq, Eq)]
pub struct SocketSession {
    pub trace_id: String,
}

/// Something that happened to a client session.
#[derive(Debug, Clone, PartialEq, Eq)]
pub enum SocketEvent {
    /// The hub delivered an event payload.
    Broadcast(String),
    /// The client fell behind: `dropped` hub events were lost for it,
    /// noticed at `at_unix_seconds`.
    Lagged { dropped: u64, at_unix_seconds: u64 },
    /// The hub channel is closed.
    HubClosed,
    /// The heartbeat interval elapsed.
    HeartbeatDue,
    /// The client sent a ping with this payload.
    ClientPing(Vec<u8>),
    /// The client sent a close frame, or its stream ended.
    ClientClosed,
    /// The client sent anything else (text, binary, pong): ignored, the
    /// server only pushes.
    ClientOther,
}

/// A frame to send to the client.
#[derive(Debug, Clone, PartialEq, Eq)]
pub enum OutgoingFrame {
    Text(String),
    Pong(Vec<u8>),
}

/// What the session does next.
#[derive(Debug, Clone, PartialEq, Eq)]
pub enum SocketAction {
    /// Send a frame; when sending fails, end the session if told so.
    Send { frame: OutgoingFrame, disconnect_on_failure: bool },
    /// Nothing to send; keep going.
    Continue,
    /// End the session.
    Disconnect,
}

/// The heartbeat control event, as JSON text.
pub open spec fn heartbeat_text(trace_id: Seq<char>) -> Seq<char> {
    "{\"event_type\":\"system.heartbeat\",\"event_version\":\"1.0\",\"trace_id\":"@ + json_string(trace_id)
        + "}"@
}

/// The control event telling a slow client how many events it lost, as JSON text.
pub open spec fn drop_notice_text(dropped: nat, timestamp: Seq<char>, trace_id: Seq<char>) -> Seq<char> {
    "{\"dropped_events\":"@ + decimal(dropped)
        + ",\"event_type\":\"system.ws.drop_notice\",\"event_version\":\"1.0\",\"reason\":\"client_slow_consumer\",\"timestamp\":"@
        + json_string(timestamp) + ",\"trace_id\":"@ + json_string(trace_id) + "}"@
}

/// The heartbeat message of a session.
pub fn heartbeat_message(session: &SocketSession) -> (s: String)
    ensures
        s@ == heartbeat_text(session.trace_id@),
{
    let mut out = String::new();
    out.append("{\"event_type\":\"system.heartbeat\",\"event_version\":\"1.0\",\"trace_id\":");
    push_json_string(&mut out, session.trace_id.as_str());
    out.append("}");
    out
}

/// The drop notice of a session for `dropped` lost events, dated `at_unix_seconds`.
pub fn drop_notice_message(session: &SocketSession, dropped: u64, at_unix_seconds: u64) -> (s: String)
    ensures
        s@ == drop_notice_text(dropped as nat, utc_timestamp_text(at_unix_seconds as nat), session.trace_id@),
{
    let timestamp = utc_timestamp(at_unix_seconds);
    let mut out = String::new();
    out.append("{\"dropped_events\":");
    push_decimal(&mut out, dropped);
    out.append(
        ",\"event_type\":\"system.ws.drop_notice\",\"event_version\":\"1.0\",\"reason\":\"client_slow_consumer\",\"timestamp\":",
    );
    push_json_string(&mut out, timestamp.as_str());
    out.append(",\"trace_id\":");
    push_json_string(&mut out, session.trace_id.as_str());
    out.append("}");
    out
}

/// The action the session takes for one event: hub events, heartbeats and
/// drop notices are sent as text (a failed send ends the session), pings are
/// answered with a pong carrying the same payload (a failed pong is
/// ignored), and a closed hub or a closing client ends the session.
pub fn socket_step(session: &SocketSession, event: SocketEvent) -> (a: SocketAction)
    ensures
        match event {
            SocketEvent::Broadcast(payload) => a == SocketAction::Send {
                frame: OutgoingFrame::Text(payload),
                disconnect_on_failure: true,
            },
            SocketEvent::Lagged { dropped, at_unix_seconds } => a matches SocketAction::Send {
                frame: OutgoingFrame::Text(t),
                disconnect_on_failure: true,
            } && t@ == drop_notice_text(
                dropped as nat,
                utc_timestamp_text(at_unix_seconds as nat),
                session.trace_id@,
            ),
            SocketEvent::HubClosed => a == SocketAction::Disconnect,
            SocketEvent::HeartbeatDue => a matches SocketAction::Send {
                frame: OutgoingFrame::Text(t),
                disconnect_on_failure: true,
            } && t@ == heartbeat_text(session.trace_id@),
            SocketEvent::ClientPing(payload) => a == SocketAction::Send {
                frame: OutgoingFrame::Pong(payload),
                disconnect_on_failure: false,
            },
            SocketEvent::ClientClosed => a == SocketAction::Disconnect,
            SocketEvent::ClientOther => a == SocketAction::Continue,
        },
{
    match event {
        SocketEvent::Broadcast(payload) => SocketAction::Send {
            frame: OutgoingFrame::Text(payload),
            disconnect_on_failure: true,
        },
        SocketEvent::Lagged { dropped, at_unix_seconds } => SocketAction::Send {
            frame: OutgoingFrame::Text(drop_notice_message(session, dropped, at_unix_seconds)),
            disconnect_on_failure: true,
        },
        SocketEvent::HubClosed => SocketAction::Disconnect,
        SocketEvent::HeartbeatDue => SocketAction::Send {
            frame: OutgoingFrame::Text(heartbeat_message(session)),
            disconnect_on_failure: true,
        },
        SocketEvent::ClientPing(payload) => SocketAction::Send {
            frame: OutgoingFrame::Pong(payload),
            disconnect_on_failure: false,
        },
        SocketEvent::ClientClosed => SocketAction::Disconnect,
        SocketEvent::ClientOther => SocketAction::Continue,
    }
}

} // verus!
