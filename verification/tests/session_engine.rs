//! Scenario tests for the session engine: admission, join/leave/broadcast,
//! implicit leave on delivery failure, registry lifecycle and the
//! process-idle shutdown signal.

use std::cell::Cell;
use std::rc::Rc;

use match_session::channel::send_event;
use match_session::entities::{Event, GameSession, LeaveEvent, Message, Player};
use match_session::errors::{ErrorCode, SessionError};
use match_session::handler::join_session;
use match_session::lifecycle::{LifecycleError, StatusManager};
use match_session::registry::SessionRegistry;
use match_session::worker::Worker;

type Outbound = tokio::sync::mpsc::Sender<Result<Message, SessionError>>;
type OutboundRx = tokio::sync::mpsc::Receiver<Result<Message, SessionError>>;

fn outbound_pair() -> (Outbound, OutboundRx) {
    tokio::sync::mpsc::channel(8)
}

fn message_event(body: &str) -> Event {
    Event {
        join: None,
        leave: None,
        message: Some(Message {
            body: body.to_string(),
        }),
    }
}

fn leave_event(player_id: &str) -> Event {
    Event {
        join: None,
        leave: Some(LeaveEvent {
            player_id: player_id.to_string(),
        }),
        message: None,
    }
}

struct CountingStatusManager {
    shutdowns: Rc<Cell<u32>>,
}

impl StatusManager for CountingStatusManager {
    fn ready(&mut self) -> Result<(), LifecycleError> {
        Ok(())
    }

    fn shutdown(&mut self) -> Result<(), LifecycleError> {
        self.shutdowns.set(self.shutdowns.get() + 1);
        Ok(())
    }
}

fn expect_payload(rx: &mut OutboundRx, body: &str) {
    match rx.try_recv() {
        Ok(Ok(m)) => assert_eq!(m.body, body),
        other => panic!("expected payload {:?}, got {:?}", body, other.map(|r| r.map(|m| m.body))),
    }
}

fn expect_empty(rx: &mut OutboundRx) {
    assert!(rx.try_recv().is_err());
}

#[test]
fn join_registers_match_and_counts_it() {
    // Scenario: player A joins match m1; the active count becomes 1 and the
    // registry holds m1.
    let registry = SessionRegistry::new(8);
    assert_eq!(registry.active_count(), 0);
    let (a_tx, _a_rx) = outbound_pair();
    let admission = join_session(
        &registry,
        Some("A".to_string()),
        Some("m1".to_string()),
        a_tx,
    )
    .expect("join must be admitted");
    assert!(admission.to_spawn.is_some());
    assert_eq!(registry.active_count(), 1);
    assert!(registry.contains(&"m1".to_string()));
    assert!(!registry.contains(&"m2".to_string()));
}

#[test]
fn missing_player_id_is_rejected_before_registry() {
    let registry = SessionRegistry::new(8);
    let (a_tx, _a_rx) = outbound_pair();
    let err = join_session(&registry, None, Some("m1".to_string()), a_tx)
        .expect_err("admission must fail");
    assert_eq!(err.code, ErrorCode::InvalidArgument);
    assert_eq!(err.message, "please specify player_id");
    assert_eq!(registry.active_count(), 0);
}

#[test]
fn missing_match_id_is_rejected_before_registry() {
    let registry = SessionRegistry::new(8);
    let (a_tx, _a_rx) = outbound_pair();
    let err = join_session(&registry, Some("A".to_string()), None, a_tx)
        .expect_err("admission must fail");
    assert_eq!(err.code, ErrorCode::InvalidArgument);
    assert_eq!(err.message, "please specify match_id");
    assert_eq!(registry.active_count(), 0);
}

#[test]
fn join_to_closed_mailbox_is_aborted() {
    let registry = SessionRegistry::new(8);
    let (a_tx, _a_rx) = outbound_pair();
    let admission = join_session(
        &registry,
        Some("A".to_string()),
        Some("m3".to_string()),
        a_tx,
    )
    .expect("first join must be admitted");
    // Drop the actor's mailbox receiver: the actor is gone.
    drop(admission);
    let (b_tx, _b_rx) = outbound_pair();
    let err = join_session(
        &registry,
        Some("B".to_string()),
        Some("m3".to_string()),
        b_tx,
    )
    .expect_err("join into a dead actor must abort");
    assert_eq!(err.code, ErrorCode::Aborted);
    assert_eq!(err.message, "channel closed");
}

#[test]
fn concurrent_first_joins_create_one_actor() {
    // Scenario: two connections join the previously unseen match m2; exactly
    // one session actor exists afterwards, and both share its mailbox.
    let registry = SessionRegistry::new(8);
    let (a_tx, _a_rx) = outbound_pair();
    let (b_tx, _b_rx) = outbound_pair();
    let first = join_session(
        &registry,
        Some("A".to_string()),
        Some("m2".to_string()),
        a_tx,
    )
    .expect("first join must be admitted");
    let second = join_session(
        &registry,
        Some("B".to_string()),
        Some("m2".to_string()),
        b_tx,
    )
    .expect("second join must be admitted");
    assert!(first.to_spawn.is_some());
    assert!(second.to_spawn.is_none());
    assert_eq!(registry.active_count(), 1);

    // Both joins landed in the one mailbox of the one actor.
    let shutdowns = Rc::new(Cell::new(0));
    let status_manager = CountingStatusManager {
        shutdowns: shutdowns.clone(),
    };
    let mut worker = Worker::new(
        "m2".to_string(),
        status_manager,
        GameSession::new(),
        first.to_spawn.unwrap(),
        &registry,
    );
    assert!(!worker.poll());
    assert_eq!(worker.game_session.num_players(), 1);
    assert!(!worker.poll());
    assert_eq!(worker.game_session.num_players(), 2);
}

#[test]
fn echo_broadcast_reaches_sender_and_peer() {
    // Scenario: A and B are both in m1; A sends X; both A and B receive X.
    let registry = SessionRegistry::new(8);
    let (a_tx, mut a_rx) = outbound_pair();
    let (b_tx, mut b_rx) = outbound_pair();
    let admission = join_session(
        &registry,
        Some("A".to_string()),
        Some("m1".to_string()),
        a_tx,
    )
    .expect("join A");
    let _second = join_session(
        &registry,
        Some("B".to_string()),
        Some("m1".to_string()),
        b_tx,
    )
    .expect("join B");
    assert!(send_event(&admission.mailbox, message_event("X")).is_ok(), "send X");
    assert!(send_event(&admission.mailbox, leave_event("A")).is_ok(), "leave A");
    assert!(send_event(&admission.mailbox, leave_event("B")).is_ok(), "leave B");

    let shutdowns = Rc::new(Cell::new(0));
    let status_manager = CountingStatusManager {
        shutdowns: shutdowns.clone(),
    };
    let mut worker = Worker::new(
        "m1".to_string(),
        status_manager,
        GameSession::new(),
        admission.to_spawn.unwrap(),
        &registry,
    );
    while !worker.poll() {}

    expect_payload(&mut a_rx, "X");
    expect_empty(&mut a_rx);
    expect_payload(&mut b_rx, "X");
    expect_empty(&mut b_rx);
    // The last leave emptied the session and the registry: shutdown fired
    // exactly once.
    assert_eq!(registry.active_count(), 0);
    assert!(!registry.contains(&"m1".to_string()));
    assert_eq!(shutdowns.get(), 1);
}

#[test]
fn failed_delivery_is_an_implicit_leave() {
    // Scenario: delivery to B fails during a broadcast; B is removed;
    // later messages reach only A; when A leaves, m1 is deregistered and
    // shutdown fires exactly once.
    let registry = SessionRegistry::new(8);
    let (a_tx, mut a_rx) = outbound_pair();
    let (b_tx, b_rx) = outbound_pair();
    let admission = join_session(
        &registry,
        Some("A".to_string()),
        Some("m1".to_string()),
        a_tx,
    )
    .expect("join A");
    let _second = join_session(
        &registry,
        Some("B".to_string()),
        Some("m1".to_string()),
        b_tx,
    )
    .expect("join B");
    drop(b_rx); // B's connection is gone.

    assert!(send_event(&admission.mailbox, message_event("X")).is_ok(), "send X");
    assert!(send_event(&admission.mailbox, message_event("Y")).is_ok(), "send Y");
    assert!(send_event(&admission.mailbox, leave_event("A")).is_ok(), "leave A");

    let shutdowns = Rc::new(Cell::new(0));
    let status_manager = CountingStatusManager {
        shutdowns: shutdowns.clone(),
    };
    let mut worker = Worker::new(
        "m1".to_string(),
        status_manager,
        GameSession::new(),
        admission.to_spawn.unwrap(),
        &registry,
    );
    assert!(!worker.poll()); // Join A
    assert!(!worker.poll()); // Join B
    assert_eq!(worker.game_session.num_players(), 2);
    assert!(!worker.poll()); // X: delivery to B fails, B is removed
    assert_eq!(worker.game_session.num_players(), 1);
    assert!(!worker.poll()); // Y: reaches only A
    assert!(worker.poll()); // Leave A: session empty, actor tears down
    assert_eq!(worker.game_session.num_players(), 0);

    expect_payload(&mut a_rx, "X");
    expect_payload(&mut a_rx, "Y");
    expect_empty(&mut a_rx);
    assert_eq!(registry.active_count(), 0);
    assert_eq!(shutdowns.get(), 1);
}

#[test]
fn shutdown_waits_for_the_last_match() {
    // Two matches are live; only the teardown of the second, last one may
    // signal shutdown, and it signals it once.
    let registry = SessionRegistry::new(8);
    let shutdowns = Rc::new(Cell::new(0));

    let (a_tx, _a_rx) = outbound_pair();
    let first = join_session(
        &registry,
        Some("A".to_string()),
        Some("m1".to_string()),
        a_tx,
    )
    .expect("join A");
    let (b_tx, _b_rx) = outbound_pair();
    let second = join_session(
        &registry,
        Some("B".to_string()),
        Some("m2".to_string()),
        b_tx,
    )
    .expect("join B");
    assert_eq!(registry.active_count(), 2);

    assert!(send_event(&first.mailbox, leave_event("A")).is_ok(), "leave A");
    let mut worker_one = Worker::new(
        "m1".to_string(),
        CountingStatusManager {
            shutdowns: shutdowns.clone(),
        },
        GameSession::new(),
        first.to_spawn.unwrap(),
        &registry,
    );
    assert!(!worker_one.poll()); // Join A
    assert!(worker_one.poll()); // Leave A: m1 ends, m2 still live
    assert_eq!(registry.active_count(), 1);
    assert_eq!(shutdowns.get(), 0);

    assert!(send_event(&second.mailbox, leave_event("B")).is_ok(), "leave B");
    let mut worker_two = Worker::new(
        "m2".to_string(),
        CountingStatusManager {
            shutdowns: shutdowns.clone(),
        },
        GameSession::new(),
        second.to_spawn.unwrap(),
        &registry,
    );
    assert!(!worker_two.poll()); // Join B
    assert!(worker_two.poll()); // Leave B: registry empty, shutdown fires
    assert_eq!(registry.active_count(), 0);
    assert_eq!(shutdowns.get(), 1);
}

#[test]
fn messages_from_one_sender_arrive_in_order() {
    let registry = SessionRegistry::new(8);
    let (a_tx, mut a_rx) = outbound_pair();
    let admission = join_session(
        &registry,
        Some("A".to_string()),
        Some("m1".to_string()),
        a_tx,
    )
    .expect("join A");
    for body in ["one", "two", "three", "four", "five"] {
        assert!(send_event(&admission.mailbox, message_event(body)).is_ok(), "send");
    }
    assert!(send_event(&admission.mailbox, leave_event("A")).is_ok(), "leave");

    let shutdowns = Rc::new(Cell::new(0));
    let mut worker = Worker::new(
        "m1".to_string(),
        CountingStatusManager {
            shutdowns: shutdowns.clone(),
        },
        GameSession::new(),
        admission.to_spawn.unwrap(),
        &registry,
    );
    while !worker.poll() {}
    for body in ["one", "two", "three", "four", "five"] {
        expect_payload(&mut a_rx, body);
    }
    expect_empty(&mut a_rx);
}

#[test]
fn duplicate_join_keeps_identifiers_unique() {
    let registry = SessionRegistry::new(8);
    let (a_tx, _a_rx) = outbound_pair();
    let (a2_tx, _a2_rx) = outbound_pair();
    let admission = join_session(
        &registry,
        Some("A".to_string()),
        Some("m1".to_string()),
        a_tx,
    )
    .expect("join A");
    let _again = join_session(
        &registry,
        Some("A".to_string()),
        Some("m1".to_string()),
        a2_tx,
    )
    .expect("second join of A");
    let shutdowns = Rc::new(Cell::new(0));
    let mut worker = Worker::new(
        "m1".to_string(),
        CountingStatusManager {
            shutdowns: shutdowns.clone(),
        },
        GameSession::new(),
        admission.to_spawn.unwrap(),
        &registry,
    );
    assert!(!worker.poll());
    assert!(!worker.poll());
    assert_eq!(worker.game_session.num_players(), 1);
}

#[test]
fn membership_is_joins_minus_departures() {
    // A joins, B joins, A leaves, C joins: members are B and C; a broadcast
    // reaches exactly them.
    let registry = SessionRegistry::new(16);
    let (a_tx, mut a_rx) = outbound_pair();
    let (b_tx, mut b_rx) = outbound_pair();
    let (c_tx, mut c_rx) = outbound_pair();
    let admission = join_session(
        &registry,
        Some("A".to_string()),
        Some("m1".to_string()),
        a_tx,
    )
    .expect("join A");
    join_session(
        &registry,
        Some("B".to_string()),
        Some("m1".to_string()),
        b_tx,
    )
    .expect("join B");
    assert!(send_event(&admission.mailbox, leave_event("A")).is_ok(), "leave A");
    join_session(
        &registry,
        Some("C".to_string()),
        Some("m1".to_string()),
        c_tx,
    )
    .expect("join C");
    assert!(send_event(&admission.mailbox, message_event("hello")).is_ok(), "send");

    let shutdowns = Rc::new(Cell::new(0));
    let mut worker = Worker::new(
        "m1".to_string(),
        CountingStatusManager {
            shutdowns: shutdowns.clone(),
        },
        GameSession::new(),
        admission.to_spawn.unwrap(),
        &registry,
    );
    for _ in 0..5 {
        assert!(!worker.poll());
    }
    assert_eq!(worker.game_session.num_players(), 2);
    expect_empty(&mut a_rx);
    expect_payload(&mut b_rx, "hello");
    expect_payload(&mut c_rx, "hello");
}

#[test]
fn session_tracks_players_directly() {
    let (a_tx, _a_rx) = outbound_pair();
    let (b_tx, _b_rx) = outbound_pair();
    let (c_tx, _c_rx) = outbound_pair();
    let mut session = GameSession::new();
    assert_eq!(session.num_players(), 0);
    session.add_player(Player::new("A".to_string(), a_tx));
    session.add_player(Player::new("B".to_string(), b_tx));
    session.add_player(Player::new("C".to_string(), c_tx));
    assert_eq!(session.num_players(), 3);
    assert!(session.contains_player(&"B".to_string()));

    let copies = session.clone_players();
    assert_eq!(copies.len(), 3);
    assert_eq!(copies[0].id, "A");
    assert_eq!(copies[2].id, "C");

    session.delete_player("B".to_string());
    assert_eq!(session.num_players(), 2);
    assert!(!session.contains_player(&"B".to_string()));
    assert!(session.contains_player(&"A".to_string()));
    assert!(session.contains_player(&"C".to_string()));
    // Deleting an absent player is a no-op.
    session.delete_player("B".to_string());
    assert_eq!(session.num_players(), 2);
}

#[test]
fn broadcast_reports_failed_players() {
    let (a_tx, mut a_rx) = outbound_pair();
    let (b_tx, b_rx) = outbound_pair();
    let mut session = GameSession::new();
    session.add_player(Player::new("A".to_string(), a_tx));
    session.add_player(Player::new("B".to_string(), b_tx));
    drop(b_rx);
    let failed = session.broadcast_message(&Message {
        body: "ping".to_string(),
    });
    assert_eq!(failed, vec!["B".to_string()]);
    expect_payload(&mut a_rx, "ping");

    // An ignored event leaves an actor untouched.
    let registry = SessionRegistry::new(8);
    let shutdowns = Rc::new(Cell::new(0));
    let mut worker = Worker::new(
        "m9".to_string(),
        CountingStatusManager {
            shutdowns: shutdowns.clone(),
        },
        session,
        tokio::sync::mpsc::channel(8).1,
        &registry,
    );
    assert!(!worker.step(Event {
        join: None,
        leave: None,
        message: None,
    }));
    assert_eq!(worker.game_session.num_players(), 2);
}
