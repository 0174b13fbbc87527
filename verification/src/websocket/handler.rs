//! What a WebSocket connection does with each thing that happens on it: answer pings, forward
//! broadcasts, and close on errors.
use vstd::prelude::*;
use crate::json::{members_view, push_member, string, JsonValue, JsonView};

verus! {

/// Something that happened on a connection: a client message, or a broadcast from the hub.
#[derive(Debug, Clone)]
pub enum SocketEvent {
    /// The client sent a text message.
    ClientText(String),
    /// The client sent a ping frame.
    ClientPing(Vec<u8>),
    /// The client closed the connection, or it ended.
    ClientClosed,
    /// Reading from the client failed.
    ClientError,
    /// Another kind of client frame.
    ClientOther,
    /// The hub broadcast a message.
    Broadcast(String),
    /// The hub's channel closed.
    BroadcastClosed,
    /// The connection fell behind the hub and missed messages.
    BroadcastLagged,
    /// Sending a broadcast to the client failed.
    SendFailed,
}

/// What the connection does next.
#[derive(Debug, Clone, PartialEq, Eq)]
pub enum SocketAction {
    /// Send a text message to the client.
    SendText(String),
    /// Answer a ping with a pong carrying the same data.
    SendPong(Vec<u8>),
    /// Count the client as gone and stop.
    Disconnect,
    /// Nothing; keep going.
    Continue,
}

/// The step of a connection: `ping` is answered with `pong`, pings with pongs, broadcasts are
/// forwarded, lag is ignored, and a close, an error or a closed hub ends the connection.
pub fn socket_step(event: SocketEvent) -> (r: SocketAction)
    ensures
        match event {
            SocketEvent::ClientText(t) => if t@ == "ping"@ {
                r matches SocketAction::SendText(p) && p@ == "pong"@
            } else {
                r == SocketAction::Continue
            },
            SocketEvent::ClientPing(d) => r matches SocketAction::SendPong(p) && p@ == d@,
            SocketEvent::ClientClosed | SocketEvent::ClientError | SocketEvent::BroadcastClosed
                | SocketEvent::SendFailed => r == SocketAction::Disconnect,
            SocketEvent::Broadcast(m) => r matches SocketAction::SendText(t) && t@ == m@,
            SocketEvent::ClientOther | SocketEvent::BroadcastLagged => r == SocketAction::Continue,
        },
{
    match event {
        SocketEvent::ClientText(t) => {
            if crate::text::str_eq(t.as_str(), "ping") {
                SocketAction::SendText(crate::text::owned("pong"))
            } else {
                SocketAction::Continue
            }
        },
        SocketEvent::ClientPing(d) => SocketAction::SendPong(d),
        SocketEvent::ClientClosed => SocketAction::Disconnect,
        SocketEvent::ClientError => SocketAction::Disconnect,
        SocketEvent::BroadcastClosed => SocketAction::Disconnect,
        SocketEvent::SendFailed => SocketAction::Disconnect,
        SocketEvent::Broadcast(m) => SocketAction::SendText(m),
        SocketEvent::ClientOther => SocketAction::Continue,
        SocketEvent::BroadcastLagged => SocketAction::Continue,
    }
}

/// The greeting document sent when a connection opens.
pub open spec fn welcome_view() -> JsonView {
    JsonView::Object(seq![("type"@, JsonView::Str("connected"@)), ("message"@, JsonView::Str("WebSocket connected successfully"@))])
}

/// The greeting sent when a connection opens, as compact JSON.
pub fn welcome_message() -> (r: String)
    ensures
        r@ == crate::json::compact_text(welcome_view()),
{
    let mut m: Vec<(String, JsonValue)> = Vec::new();
    push_member(&mut m, "type", string("connected"));
    push_member(&mut m, "message", string("WebSocket connected successfully"));
    assert(members_view(m@) =~= welcome_view()->Object_0);
    crate::json::to_text(&JsonValue::Object(m))
}

} // verus!
