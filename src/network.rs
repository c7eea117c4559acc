//! Decisions of the network role. The thread that owns the socket performs the
//! action each step returns and reports what came of it as the next event.
use vstd::prelude::*;

verus! {

/// Where the network role stands.
#[derive(Debug, Clone, Copy, PartialEq, Eq)]
pub enum NetState {
    /// The one connection attempt is under way.
    Connecting,
    /// Connected: the send-then-read loop runs.
    Running,
    /// Finished for good; there is no retry and no reconnection.
    Stopped,
}

/// What the transport reported.
#[derive(Debug, Clone, Copy, PartialEq, Eq)]
pub enum NetEvent {
    ConnectOk,
    ConnectFailed,
    /// A pending outbound message was written.
    SendOk,
    SendFailed,
    /// A text frame was read.
    ReadText,
    /// A frame that is not text was read.
    ReadOther,
    /// Nothing to read yet.
    ReadWouldBlock,
    ReadFailed,
}

/// What the network thread does next.
#[derive(Debug, Clone, Copy, PartialEq, Eq)]
pub enum NetAction {
    /// Record "connected" in the status and enter the loop.
    ReportConnected,
    /// Record the connect failure in the status and end the thread.
    ReportConnectFailure,
    /// Record the send failure in the status and end the thread.
    ReportSendFailure,
    /// Record the receive failure in the status and end the thread.
    ReportReceiveFailure,
    /// Hand the text frame to the UI thread and go on.
    Deliver,
    /// Sleep briefly before the next attempt.
    Backoff,
    /// Go on with the loop.
    Proceed,
    /// Nothing more to do.
    Halt,
}

/// The transition table of the network role.
pub open spec fn net_transition(state: NetState, event: NetEvent) -> (NetState, NetAction) {
    match state {
        NetState::Connecting => match event {
            NetEvent::ConnectOk => (NetState::Running, NetAction::ReportConnected),
            NetEvent::ConnectFailed => (NetState::Stopped, NetAction::ReportConnectFailure),
            _ => (NetState::Connecting, NetAction::Proceed),
        },
        NetState::Running => match event {
            NetEvent::SendOk => (NetState::Running, NetAction::Proceed),
            NetEvent::SendFailed => (NetState::Stopped, NetAction::ReportSendFailure),
            NetEvent::ReadText => (NetState::Running, NetAction::Deliver),
            NetEvent::ReadOther => (NetState::Running, NetAction::Proceed),
            NetEvent::ReadWouldBlock => (NetState::Running, NetAction::Backoff),
            NetEvent::ReadFailed => (NetState::Stopped, NetAction::ReportReceiveFailure),
            _ => (NetState::Running, NetAction::Proceed),
        },
        NetState::Stopped => (NetState::Stopped, NetAction::Halt),
    }
}

/// One step of the network role.
pub fn net_step(state: NetState, event: NetEvent) -> (r: (NetState, NetAction))
    ensures
        r == net_transition(state, event),
{
    match state {
        NetState::Connecting => match event {
            NetEvent::ConnectOk => (NetState::Running, NetAction::ReportConnected),
            NetEvent::ConnectFailed => (NetState::Stopped, NetAction::ReportConnectFailure),
            _ => (NetState::Connecting, NetAction::Proceed),
        },
        NetState::Running => match event {
            NetEvent::SendOk => (NetState::Running, NetAction::Proceed),
            NetEvent::SendFailed => (NetState::Stopped, NetAction::ReportSendFailure),
            NetEvent::ReadText => (NetState::Running, NetAction::Deliver),
            NetEvent::ReadOther => (NetState::Running, NetAction::Proceed),
            NetEvent::ReadWouldBlock => (NetState::Running, NetAction::Backoff),
            NetEvent::ReadFailed => (NetState::Stopped, NetAction::ReportReceiveFailure),
            _ => (NetState::Running, NetAction::Proceed),
        },
        NetState::Stopped => (NetState::Stopped, NetAction::Halt),
    }
}

/// Once stopped, the network role stays stopped whatever is reported.
pub proof fn lemma_stopped_is_final(event: NetEvent)
    ensures
        net_transition(NetState::Stopped, event).0 == NetState::Stopped,
{
}

} // verus!
