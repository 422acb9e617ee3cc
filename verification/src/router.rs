//! The message router's two entry points: the unary one-shot send, which
//! keeps the sender's own timestamp, and the stream-path step, which stamps
//! the message with the server's receive time before routing it.

use vstd::prelude::*;

use crate::message::{stamped, ChatMessage};
use crate::registry::{route_post, Registry, RouteOutcome};

verus! {

/// Why a relay operation failed.
#[derive(Debug)]
pub enum RelayError {
    /// The target identity has no live registration.
    TargetNotFound,
    /// The stream ended before any handshake message arrived.
    InvalidHandshake,
}

/// The unary send's reply.
#[derive(Debug)]
pub struct ChatResponse {
    pub delivered: bool,
    pub info: String,
}

/// Relies on chrono's `Utc::now` and `DateTime::timestamp`: the wall clock as
/// whole seconds since the Unix epoch. Nothing is assumed of the value; the
/// clock may move arbitrarily between calls.
#[verifier::external_body]
pub(crate) fn now_seconds() -> i64 {
    chrono::Utc::now().timestamp()
}

/// The unary entry point: deliver one directed message, keeping the sender's
/// own timestamp. Succeeds exactly when the target identity is registered;
/// an unreachable target is reported as not found and changes nothing.
pub fn send_message(registry: &mut Registry, msg: ChatMessage) -> (r: Result<
    ChatResponse,
    RelayError,
>)
    requires
        old(registry).wf(),
    ensures
        final(registry).wf(),
        r is Ok <==> old(registry).has(msg.to@),
        r matches Ok(resp) ==> resp.delivered && resp.info@ == "Message delivered"@
            && route_post(*old(registry), *final(registry), msg@, true),
        r is Err ==> (r matches Err(e) && e is TargetNotFound) && *final(registry) == *old(
            registry,
        ),
{
    match registry.route(msg) {
        RouteOutcome::Delivered => Ok(
            ChatResponse { delivered: true, info: "Message delivered".to_owned() },
        ),
        RouteOutcome::NotFound => Err(RelayError::TargetNotFound),
    }
}

/// The stream path's routing step: overwrite the message's timestamp with the
/// server receive time `now`, then route it.
pub fn route_stamped(registry: &mut Registry, msg: ChatMessage, now: i64) -> (outcome:
    RouteOutcome)
    requires
        old(registry).wf(),
    ensures
        final(registry).wf(),
        route_post(*old(registry), *final(registry), stamped(msg@, now as int), outcome
            is Delivered),
{
    registry.route(msg.stamp(now))
}

/// Stream routing as the connection handler performs it: the server clock
/// supplies the stamp, which is returned beside the outcome.
pub fn route_now(registry: &mut Registry, msg: ChatMessage) -> (r: (RouteOutcome, i64))
    requires
        old(registry).wf(),
    ensures
        final(registry).wf(),
        route_post(*old(registry), *final(registry), stamped(msg@, r.1 as int), r.0
            is Delivered),
{
    let now = now_seconds();
    let outcome = route_stamped(registry, msg, now);
    (outcome, now)
}

} // verus!
