//! The per-connection handler: a state machine driven by the connection's
//! inbound events. The first inbound message is the handshake and registers
//! its `from` identity; each later one is stamped with the server's receive
//! time and routed; the stream's end, however it comes, removes the
//! registration exactly once. A stream-routed message whose target is
//! unreachable is dropped, not reported back to the sender (the stream has no
//! per-message reply); the outcome is handed to the caller for logging only.

use vstd::prelude::*;

use crate::message::{stamped, ChatMessage};
use crate::registry::{
    register_post, route_post, unregister_post, Registry, RouteOutcome,
};
use crate::router::{now_seconds, route_stamped, RelayError};

verus! {

/// Where one connection's handler stands.
#[derive(Debug)]
pub enum HandlerState {
    /// No message has arrived yet; the next one is the handshake.
    AwaitingHandshake,
    /// The handshake registered `identity` as session `sid`; inbound messages
    /// are now routed.
    Active { identity: String, sid: u64 },
    /// The connection is over and its registration is gone. Terminal.
    Terminated,
}

/// What the connection's inbound side produced.
#[derive(Debug)]
pub enum StreamEvent {
    /// A message arrived.
    Inbound(ChatMessage),
    /// The stream closed normally.
    Closed,
    /// The stream failed.
    Failed,
}

/// What a step asks its caller to do.
#[derive(Debug)]
pub enum StepAction {
    /// The handshake was accepted: start the output adapter for the new
    /// session.
    Registered,
    /// The stream ended before any handshake: report this protocol
    /// violation to the opener.
    Rejected(RelayError),
    /// An inbound message was routed, with this outcome, stamped `sent_at`.
    Routed { outcome: RouteOutcome, sent_at: i64 },
    /// The session ended and its registration was removed.
    CleanedUp,
    /// Nothing: the handler had already terminated.
    Idle,
}

/// Everything one handler step does to the registry and to its own state,
/// case by case over the state machine.
pub open spec fn step_post(
    state: HandlerState,
    event: StreamEvent,
    pre: Registry,
    post: Registry,
    r: (HandlerState, StepAction),
) -> bool {
    match state {
        HandlerState::AwaitingHandshake => match event {
            StreamEvent::Inbound(m) => {
                &&& r.0 matches HandlerState::Active { identity, sid } && identity@
                    == m.from@ && register_post(pre, post, m.from@, sid)
                &&& r.1 is Registered
            },
            _ => {
                &&& r.0 is Terminated
                &&& (r.1 matches StepAction::Rejected(e) && e is InvalidHandshake)
                &&& post == pre
            },
        },
        HandlerState::Active { identity, sid } => match event {
            StreamEvent::Inbound(m) => {
                &&& r.0 == state
                &&& r.1 matches StepAction::Routed { outcome, sent_at } && route_post(
                    pre,
                    post,
                    stamped(m@, sent_at as int),
                    outcome is Delivered,
                )
            },
            _ => {
                &&& r.0 is Terminated
                &&& r.1 is CleanedUp
                &&& unregister_post(pre, post, identity@)
            },
        },
        HandlerState::Terminated => {
            &&& r.0 is Terminated
            &&& r.1 is Idle
            &&& post == pre
        },
    }
}

/// One handler step, with the server receive time supplied by the caller;
/// stream-routed messages are stamped with it.
pub fn handle_event(
    state: HandlerState,
    event: StreamEvent,
    registry: &mut Registry,
    now: i64,
) -> (r: (HandlerState, StepAction))
    requires
        old(registry).wf(),
        state is AwaitingHandshake && event is Inbound ==> old(registry).next_sid_spec()
            < u64::MAX,
    ensures
        final(registry).wf(),
        step_post(state, event, *old(registry), *final(registry), r),
        r.1 matches StepAction::Routed { sent_at, .. } ==> sent_at == now,
{
    match state {
        HandlerState::AwaitingHandshake => match event {
            StreamEvent::Inbound(m) => {
                let identity = m.from.clone();
                let sid = registry.register(identity);
                (HandlerState::Active { identity: m.from, sid }, StepAction::Registered)
            },
            _ => (
                HandlerState::Terminated,
                StepAction::Rejected(RelayError::InvalidHandshake),
            ),
        },
        HandlerState::Active { identity, sid } => match event {
            StreamEvent::Inbound(m) => {
                let outcome = route_stamped(registry, m, now);
                (
                    HandlerState::Active { identity, sid },
                    StepAction::Routed { outcome, sent_at: now },
                )
            },
            _ => {
                registry.unregister(&identity);
                (HandlerState::Terminated, StepAction::CleanedUp)
            },
        },
        HandlerState::Terminated => (HandlerState::Terminated, StepAction::Idle),
    }
}

/// One handler step, stamping stream-routed messages with the server clock.
pub fn handle_event_now(
    state: HandlerState,
    event: StreamEvent,
    registry: &mut Registry,
) -> (r: (HandlerState, StepAction))
    requires
        old(registry).wf(),
        state is AwaitingHandshake && event is Inbound ==> old(registry).next_sid_spec()
            < u64::MAX,
    ensures
        final(registry).wf(),
        step_post(state, event, *old(registry), *final(registry), r),
{
    let now = now_seconds();
    handle_event(state, event, registry, now)
}

} // verus!
