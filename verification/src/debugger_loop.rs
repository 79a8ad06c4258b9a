//! The states that the server goes through with one debugger: it waits for
//! the debugger to connect, serves it, now and then from a diversion of the
//! replay, and is left in the end.
//!
//! A diversion is a copy of the replay session that is allowed to go its own
//! way, so that the debugger can call functions of the debuggee. It ends when
//! the debugger says so, or when its session is used up; the request that it
//! could not answer is then the next request to the replay.

use crate::gdb_command_handler::GdbCommandHandler;
use vstd::prelude::*;

verus! {

/// Where the server is with its debugger.
#[derive(Clone, Copy, Debug, PartialEq, Eq, Structural)]
pub enum DebuggerLoopState {
    AwaitingConnection,
    /// Requests are answered from the replay.
    Serving,
    /// Requests are answered from a diversion of the replay.
    Diverting,
    Disconnected,
}

/// What happens to the server.
#[derive(Clone, Copy, Debug, PartialEq, Eq, Structural)]
pub enum DebuggerLoopEvent {
    /// A debugger has connected.
    Connected,
    /// A request was answered.
    RequestServed,
    /// The debugger asked for something that needs a diversion.
    DiversionStarted,
    /// The diversion has ended.
    DiversionEnded,
    /// The debugger has detached, or its connection has ended.
    ClientGone,
}

/// The state that follows `state` when `event` happens, if it can happen
/// there.
pub open spec fn next_state_spec(state: DebuggerLoopState, event: DebuggerLoopEvent) -> Option<
    DebuggerLoopState,
> {
    match (state, event) {
        (DebuggerLoopState::AwaitingConnection, DebuggerLoopEvent::Connected) => Some(
            DebuggerLoopState::Serving,
        ),
        (DebuggerLoopState::Serving, DebuggerLoopEvent::RequestServed) => Some(
            DebuggerLoopState::Serving,
        ),
        (DebuggerLoopState::Serving, DebuggerLoopEvent::DiversionStarted) => Some(
            DebuggerLoopState::Diverting,
        ),
        (DebuggerLoopState::Diverting, DebuggerLoopEvent::RequestServed) => Some(
            DebuggerLoopState::Diverting,
        ),
        (DebuggerLoopState::Diverting, DebuggerLoopEvent::DiversionEnded) => Some(
            DebuggerLoopState::Serving,
        ),
        (DebuggerLoopState::Serving, DebuggerLoopEvent::ClientGone) => Some(
            DebuggerLoopState::Disconnected,
        ),
        (DebuggerLoopState::Diverting, DebuggerLoopEvent::ClientGone) => Some(
            DebuggerLoopState::Disconnected,
        ),
        _ => None,
    }
}

/// The state that follows `state` when `event` happens; `None` if it cannot
/// happen there.
pub fn next_state(state: DebuggerLoopState, event: DebuggerLoopEvent) -> (r: Option<
    DebuggerLoopState,
>)
    ensures
        r == next_state_spec(state, event),
{
    match (state, event) {
        (DebuggerLoopState::AwaitingConnection, DebuggerLoopEvent::Connected) => Some(
            DebuggerLoopState::Serving,
        ),
        (DebuggerLoopState::Serving, DebuggerLoopEvent::RequestServed) => Some(
            DebuggerLoopState::Serving,
        ),
        (DebuggerLoopState::Serving, DebuggerLoopEvent::DiversionStarted) => Some(
            DebuggerLoopState::Diverting,
        ),
        (DebuggerLoopState::Diverting, DebuggerLoopEvent::RequestServed) => Some(
            DebuggerLoopState::Diverting,
        ),
        (DebuggerLoopState::Diverting, DebuggerLoopEvent::DiversionEnded) => Some(
            DebuggerLoopState::Serving,
        ),
        (DebuggerLoopState::Serving, DebuggerLoopEvent::ClientGone) => Some(
            DebuggerLoopState::Disconnected,
        ),
        (DebuggerLoopState::Diverting, DebuggerLoopEvent::ClientGone) => Some(
            DebuggerLoopState::Disconnected,
        ),
        _ => None,
    }
}

/// The state after all of `events`, from `state` on; `None` if one of them
/// cannot happen where it does.
pub open spec fn state_after(state: DebuggerLoopState, events: Seq<DebuggerLoopEvent>) -> Option<
    DebuggerLoopState,
>
    decreases events.len(),
{
    if events.len() == 0 {
        Some(state)
    } else {
        match state_after(state, events.drop_last()) {
            Some(s) => next_state_spec(s, events.last()),
            None => None,
        }
    }
}

/// A server always starts by being connected to, serves or diverts from
/// then on, and does nothing any more once its debugger has gone: whatever
/// happens to a server that waits for its debugger, the first thing is a
/// connection, nothing happens after the debugger has gone, and until then
/// the server serves or diverts.
pub proof fn law_server_is_connected_then_serves_then_is_left(events: Seq<DebuggerLoopEvent>)
    requires
        events.len() > 0,
        state_after(DebuggerLoopState::AwaitingConnection, events) is Some,
    ensures
        events[0] == DebuggerLoopEvent::Connected,
        state_after(DebuggerLoopState::AwaitingConnection, events)->Some_0
            != DebuggerLoopState::AwaitingConnection,
        forall|i: int|
            0 <= i < events.len() - 1 ==> #[trigger] events[i] != DebuggerLoopEvent::ClientGone,
        events.last() == DebuggerLoopEvent::ClientGone <==> state_after(
            DebuggerLoopState::AwaitingConnection,
            events,
        ) == Some(DebuggerLoopState::Disconnected),
    decreases events.len(),
{
    let start = DebuggerLoopState::AwaitingConnection;
    let head = events.drop_last();
    if head.len() > 0 {
        law_server_is_connected_then_serves_then_is_left(head);
        assert(head[0] == events[0]);
        assert forall|i: int| 0 <= i < events.len() - 1 implies #[trigger] events[i]
            != DebuggerLoopEvent::ClientGone by {
            assert(events[i] == head[i]);
            if i == head.len() - 1 {
                assert(head.last() == events[i]);
            }
        }
    } else {
        assert(state_after(start, head) == Some(start));
    }
}

/// What a diversion does about a request.
#[derive(Clone, Copy, Debug, PartialEq, Eq, Structural)]
pub enum DiversionStep {
    /// The diversion answers the request and goes on.
    Serve,
    /// The diversion ends, and the request is answered by the replay.
    EndAndHandOver,
    /// The diversion ends with the request, which asked for just that.
    End,
}

/// What a diversion does about a request. `ends_diversion` says whether
/// the request is a command of the server that answered with the word that
/// ends a diversion; `consumed` says whether the diversion's session is used
/// up, so that it cannot answer the request. The diversion ends on the word;
/// it ends, and hands the request over to the replay, when it is used up; any
/// other request it answers itself.
pub fn divert_step(ends_diversion: bool, consumed: bool) -> (r: DiversionStep)
    ensures
        r == if ends_diversion {
            DiversionStep::End
        } else if consumed {
            DiversionStep::EndAndHandOver
        } else {
            DiversionStep::Serve
        },
{
    if ends_diversion {
        DiversionStep::End
    } else if consumed {
        DiversionStep::EndAndHandOver
    } else {
        DiversionStep::Serve
    }
}

/// Whether `reply`, the answer of a command of the server, is the word that
/// ends a diversion.
pub fn is_end_of_diversion(reply: &String) -> (r: bool)
    ensures
        r == (reply@ == "RDCmd_EndDiversion"@),
{
    let word = GdbCommandHandler::cmd_end_diversion().to_owned();
    *reply == word
}

} // verus!
