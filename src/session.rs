use vstd::prelude::*;

verus! {

/// What happened on an event socket of the admin surface.
#[derive(Debug, Clone, Copy, PartialEq, Eq, Structural)]
pub enum SocketEvent {
    /// The client sent a text or binary message.
    Message,
    /// The client sent a close frame.
    CloseFrame,
    /// Receiving failed.
    Failed,
    /// The client's stream ended.
    Ended,
    /// The periodic timer fired.
    Tick,
    /// Sending to the client failed.
    SendFailed,
}

/// What the session does next.
#[derive(Debug, Clone, Copy, PartialEq, Eq, Structural)]
pub enum SocketAction {
    /// Keep the session open; nothing to send.
    Continue,
    /// Send the current metrics, then keep the session open.
    SendMetrics,
    /// End the session.
    Close,
}

/// The session's rule: metrics go out on every tick, incoming messages are
/// only logged, and a close frame, a failure or the end of the stream ends
/// the session.
pub open spec fn action_for(e: SocketEvent) -> SocketAction {
    match e {
        SocketEvent::Message => SocketAction::Continue,
        SocketEvent::Tick => SocketAction::SendMetrics,
        _ => SocketAction::Close,
    }
}

pub fn socket_action(e: SocketEvent) -> (r: SocketAction)
    ensures
        r == action_for(e),
{
    match e {
        SocketEvent::Message => SocketAction::Continue,
        SocketEvent::Tick => SocketAction::SendMetrics,
        SocketEvent::CloseFrame | SocketEvent::Failed | SocketEvent::Ended
        | SocketEvent::SendFailed => SocketAction::Close,
    }
}

} // verus!
