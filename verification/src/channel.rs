//! Trusted bindings to tokio's bounded multi-producer single-consumer
//! channel, which supplies the FIFO mailbox of every session actor and the
//! outbound queue of every connection.
//!
//! tokio is the only party on the other side of these contracts: a `Sender`
//! stands, as a specification value, for the channel it feeds, and a
//! `Receiver` for the channel it drains.

use vstd::prelude::*;

use crate::entities::Event;

verus! {

#[verifier::external_type_specification]
#[verifier::external_body]
#[verifier::reject_recursive_types(T)]
pub struct ExSender<T>(tokio::sync::mpsc::Sender<T>);

#[verifier::external_type_specification]
#[verifier::external_body]
#[verifier::reject_recursive_types(T)]
pub struct ExReceiver<T>(tokio::sync::mpsc::Receiver<T>);

/// The largest buffer a tokio bounded channel accepts; `channel` panics
/// above it.
pub open spec fn max_mailbox_capacity() -> usize {
    usize::MAX >> 3
}

/// Relies on `tokio::sync::mpsc::channel`: returns the sending and
/// receiving halves of one fresh FIFO channel that buffers at most
/// `capacity` in-flight events. Panics when `capacity` is zero or above
/// tokio's semaphore limit, so both are excluded here.
#[verifier::external_body]
pub fn new_mailbox(capacity: usize) -> (r: (
    tokio::sync::mpsc::Sender<Event>,
    tokio::sync::mpsc::Receiver<Event>,
))
    requires
        1 <= capacity <= max_mailbox_capacity(),
{
    tokio::sync::mpsc::channel(capacity)
}

/// Relies on `Sender::clone`: the clone feeds the same channel as the
/// original, so both denote the same mailbox.
pub assume_specification<T>[ <tokio::sync::mpsc::Sender<T> as Clone>::clone ](
    s: &tokio::sync::mpsc::Sender<T>,
) -> (r: tokio::sync::mpsc::Sender<T>)
    ensures
        r == *s,
;

/// Relies on tokio's `Sender::blocking_send`: on `Ok` the event has been
/// placed at the tail of the mailbox, behind everything this sender already
/// enqueued; an `Err` hands the event back and comes exactly when the
/// receiving half has been dropped or closed. Waits while the mailbox is full, which
/// is the engine's backpressure, and panics inside an asynchronous
/// execution context, so callers run on plain threads.
#[verifier::external_body]
pub fn send_event(s: &tokio::sync::mpsc::Sender<Event>, event: Event) -> (r: Result<(), Event>)
    ensures
        r matches Err(ev) ==> ev == event,
{
    match s.blocking_send(event) {
        Ok(()) => Ok(()),
        Err(e) => Err(e.0),
    }
}

/// Relies on tokio's `Receiver::blocking_recv`: returns the next event in
/// the order the mailbox accepted them — FIFO per sender — waiting while
/// the mailbox is empty, and `None` exactly when every sender has been
/// dropped and the mailbox is drained. Panics inside an asynchronous
/// execution context, so session actors run on plain threads.
#[verifier::external_body]
pub fn recv_event(r: &mut tokio::sync::mpsc::Receiver<Event>) -> (e: Option<Event>) {
    r.blocking_recv()
}

} // verus!
