use chat_relay::handler::{handle_event, handle_event_now, HandlerState, StepAction, StreamEvent};
use chat_relay::message::ChatMessage;
use chat_relay::registry::{OutputEvent, Registry, RouteOutcome};
use chat_relay::router::{route_now, route_stamped, send_message, RelayError};

fn msg(from: &str, to: &str, body: &str, timestamp: i64) -> ChatMessage {
    ChatMessage {
        from: from.to_owned(),
        to: to.to_owned(),
        body: body.to_owned(),
        timestamp,
    }
}

#[test]
fn test_delivery_between_two_identities() {
    let mut r = Registry::new();
    let _sid_a = r.register("a".to_owned());
    let sid_b = r.register("b".to_owned());
    let outcome = r.route(msg("a", "b", "ping", 3));
    assert!(matches!(outcome, RouteOutcome::Delivered));
    match r.poll_output(&"b".to_owned(), sid_b) {
        OutputEvent::Message(m) => {
            assert_eq!(m.to, "b");
            assert_eq!(m.body, "ping");
        }
        _ => panic!("b's output must contain the routed message"),
    }
}

#[test]
fn test_unary_not_found() {
    let mut r = Registry::new();
    let sid_a = r.register("a".to_owned());
    let res = send_message(&mut r, msg("a", "nobody", "hello", 1));
    assert!(matches!(res, Err(RelayError::TargetNotFound)));
    // no output appeared anywhere
    assert!(matches!(r.poll_output(&"a".to_owned(), sid_a), OutputEvent::Pending));
    assert!(r.lookup(&"nobody".to_owned()).is_none());
}

#[test]
fn test_unary_delivers_and_keeps_client_timestamp() {
    let mut r = Registry::new();
    let sid_b = r.register("b".to_owned());
    let res = send_message(&mut r, msg("a", "b", "hi", 1234));
    match res {
        Ok(resp) => {
            assert!(resp.delivered);
            assert_eq!(resp.info, "Message delivered");
        }
        Err(_) => panic!("target is registered, so the send must succeed"),
    }
    match r.poll_output(&"b".to_owned(), sid_b) {
        OutputEvent::Message(m) => assert_eq!(m.timestamp, 1234),
        _ => panic!("the unary send must reach b's queue"),
    }
}

#[test]
fn test_unregister_then_reregister() {
    let mut r = Registry::new();
    let st = HandlerState::AwaitingHandshake;
    let (st, act) = handle_event(st, StreamEvent::Inbound(msg("a", "", "", 0)), &mut r, 1);
    assert!(matches!(act, StepAction::Registered));
    assert!(r.lookup(&"a".to_owned()).is_some());
    // the stream closes: the identity must be absent from later lookups
    let (st2, act2) = handle_event(st, StreamEvent::Closed, &mut r, 2);
    assert!(matches!(st2, HandlerState::Terminated));
    assert!(matches!(act2, StepAction::CleanedUp));
    assert!(r.lookup(&"a".to_owned()).is_none());
    // a second session may then register under the same identity
    let sid2 = r.register("a".to_owned());
    assert_eq!(r.lookup(&"a".to_owned()), Some(sid2));
    assert!(matches!(r.route(msg("x", "a", "back", 0)), RouteOutcome::Delivered));
}

#[test]
fn test_last_writer_wins() {
    let mut r = Registry::new();
    let sid_old = r.register("a".to_owned());
    let sid_new = r.register("a".to_owned());
    assert_ne!(sid_old, sid_new);
    assert!(matches!(r.route(msg("x", "a", "latest", 7)), RouteOutcome::Delivered));
    // the superseded session's output is closed
    assert!(matches!(r.poll_output(&"a".to_owned(), sid_old), OutputEvent::Closed));
    // only the most recent session receives the message
    match r.poll_output(&"a".to_owned(), sid_new) {
        OutputEvent::Message(m) => assert_eq!(m.body, "latest"),
        _ => panic!("the newest session must receive the message"),
    }
}

#[test]
fn test_stream_timestamps_non_decreasing() {
    let mut r = Registry::new();
    let sid_b = r.register("b".to_owned());
    // two messages from one sender's stream, server clock at 100 then 105;
    // the clients' own timestamps (9, 2) are overwritten
    assert!(matches!(
        route_stamped(&mut r, msg("a", "b", "first", 9), 100),
        RouteOutcome::Delivered
    ));
    assert!(matches!(
        route_stamped(&mut r, msg("a", "b", "second", 2), 105),
        RouteOutcome::Delivered
    ));
    let t1 = match r.poll_output(&"b".to_owned(), sid_b) {
        OutputEvent::Message(m) => {
            assert_eq!(m.body, "first");
            m.timestamp
        }
        _ => panic!("first message missing"),
    };
    let t2 = match r.poll_output(&"b".to_owned(), sid_b) {
        OutputEvent::Message(m) => {
            assert_eq!(m.body, "second");
            m.timestamp
        }
        _ => panic!("second message missing"),
    };
    assert_eq!(t1, 100);
    assert_eq!(t2, 105);
    assert!(t1 <= t2);
}

#[test]
fn test_server_clock_stamps_stream_messages() {
    let mut r = Registry::new();
    let sid_b = r.register("b".to_owned());
    let (outcome, sent_at) = route_now(&mut r, msg("a", "b", "now", -5));
    assert!(matches!(outcome, RouteOutcome::Delivered));
    match r.poll_output(&"b".to_owned(), sid_b) {
        OutputEvent::Message(m) => {
            assert_eq!(m.timestamp, sent_at);
            // the client's own timestamp (-5) was overwritten with the server
            // clock, which cannot be that old
            assert_ne!(m.timestamp, -5);
        }
        _ => panic!("message missing"),
    }
}

#[test]
fn test_handshake_missing_is_rejected() {
    let mut r = Registry::new();
    let st = HandlerState::AwaitingHandshake;
    let (st, act) = handle_event(st, StreamEvent::Closed, &mut r, 1);
    assert!(matches!(st, HandlerState::Terminated));
    assert!(matches!(act, StepAction::Rejected(RelayError::InvalidHandshake)));
    // a failed stream leaves no registry entry either
    let st2 = HandlerState::AwaitingHandshake;
    let (_, act2) = handle_event(st2, StreamEvent::Failed, &mut r, 1);
    assert!(matches!(act2, StepAction::Rejected(RelayError::InvalidHandshake)));
    // a terminated handler does nothing further
    let (st3, act3) = handle_event(st, StreamEvent::Inbound(msg("a", "b", "x", 0)), &mut r, 2);
    assert!(matches!(st3, HandlerState::Terminated));
    assert!(matches!(act3, StepAction::Idle));
}

#[test]
fn test_poll_pending_and_closed() {
    let mut r = Registry::new();
    let sid = r.register("a".to_owned());
    assert!(matches!(r.poll_output(&"a".to_owned(), sid), OutputEvent::Pending));
    r.unregister(&"a".to_owned());
    assert!(matches!(r.poll_output(&"a".to_owned(), sid), OutputEvent::Closed));
    // unregistering an absent identity is a no-op
    r.unregister(&"a".to_owned());
    assert!(r.lookup(&"a".to_owned()).is_none());
}

#[test]
fn test_end_to_end_scenario() {
    let mut r = Registry::new();
    // session "alice" registers
    let st_alice = HandlerState::AwaitingHandshake;
    let (st_alice, act) =
        handle_event_now(st_alice, StreamEvent::Inbound(msg("alice", "", "", 0)), &mut r);
    assert!(matches!(act, StepAction::Registered));
    // session "bob" registers
    let st_bob = HandlerState::AwaitingHandshake;
    let (st_bob, act) =
        handle_event_now(st_bob, StreamEvent::Inbound(msg("bob", "", "", 0)), &mut r);
    assert!(matches!(act, StepAction::Registered));
    let sid_bob = match &st_bob {
        HandlerState::Active { sid, .. } => *sid,
        _ => panic!("bob must be active"),
    };
    // alice sends {to: "bob", body: "hi"} on her stream
    let (st_alice, act) = handle_event_now(
        st_alice,
        StreamEvent::Inbound(msg("alice", "bob", "hi", 0)),
        &mut r,
    );
    assert!(matches!(
        act,
        StepAction::Routed { outcome: RouteOutcome::Delivered, .. }
    ));
    // bob's stream yields exactly one message, from alice, body "hi"
    match r.poll_output(&"bob".to_owned(), sid_bob) {
        OutputEvent::Message(m) => {
            assert_eq!(m.from, "alice");
            assert_eq!(m.body, "hi");
        }
        _ => panic!("bob must receive alice's message"),
    }
    assert!(matches!(r.poll_output(&"bob".to_owned(), sid_bob), OutputEvent::Pending));
    // bob disconnects
    let (_, act) = handle_event_now(st_bob, StreamEvent::Closed, &mut r);
    assert!(matches!(act, StepAction::CleanedUp));
    // alice sends {to: "bob", body: "gone"} via the unary call: not delivered
    let res = send_message(&mut r, msg("alice", "bob", "gone", 0));
    assert!(matches!(res, Err(RelayError::TargetNotFound)));
    // alice is still connected and reachable
    assert!(matches!(st_alice, HandlerState::Active { .. }));
    assert!(r.lookup(&"alice".to_owned()).is_some());
}
