//! The verified half of the connection handler: admission and session join.
//!
//! A connection arrives carrying, out of band, a player identifier and a
//! match identifier. When either is missing the connection is rejected with
//! an invalid-argument error before the registry is so much as consulted.
//! Otherwise the registry resolves — or atomically creates — the session
//! actor for the match, and the player's join event is enqueued as the
//! actor's first sight of this connection. The unverified rest of the
//! handler — pumping the transport's inbound stream into the mailbox and
//! relaying outbound payloads — lives with the embedding process.

use vstd::prelude::*;
use vstd::string::StringExecFns;

use crate::channel::send_event;
use crate::entities::{Event, JoinEvent, Message, Player};
use crate::errors::{ErrorCode, SessionError};
use crate::registry::{MatchId, SessionRegistry};

verus! {

/// A successfully admitted connection.
#[derive(Debug)]
pub struct Admission {
    /// The mailbox of the session actor owning the match; the connection's
    /// inbound pump sends its message and leave events here.
    pub mailbox: tokio::sync::mpsc::Sender<Event>,
    /// When this join created the session, the receiving half of the fresh
    /// mailbox; the caller must start a session actor with it.
    pub to_spawn: Option<tokio::sync::mpsc::Receiver<Event>>,
}

/// Admits one connection to the match it names: rejects it when an
/// identifier is missing, otherwise resolves or creates the session actor
/// and enqueues the player's join.
///
/// The error pins the cause: an invalid-argument error, with the message
/// naming the missing identifier, exactly when one of the identifiers is
/// absent; an aborted error when the actor's mailbox is already closed.
pub fn join_session(
    registry: &SessionRegistry,
    player_id: Option<String>,
    match_id: Option<MatchId>,
    outbound: tokio::sync::mpsc::Sender<Result<Message, SessionError>>,
) -> (r: Result<Admission, SessionError>)
    ensures
        (player_id is None || match_id is None) <==> (r matches Err(e) && e.code
            == ErrorCode::InvalidArgument),
        player_id is None ==> (r matches Err(e) && e.message@ == "please specify player_id"@),
        player_id is Some && match_id is None ==> (r matches Err(e) && e.message@
            == "please specify match_id"@),
        r matches Err(e) ==> (e.code == ErrorCode::InvalidArgument || e.code
            == ErrorCode::Aborted),
{
    let pid = match player_id {
        Some(pid) => pid,
        None => {
            return Err(
                SessionError::invalid_argument(String::from_str("please specify player_id")),
            );
        },
    };
    let mid = match match_id {
        Some(mid) => mid,
        None => {
            return Err(
                SessionError::invalid_argument(String::from_str("please specify match_id")),
            );
        },
    };
    let resolved = registry.get_or_create(&mid);
    let player = Player::new(pid, outbound);
    let event = Event { join: Some(JoinEvent { player }), leave: None, message: None };
    match send_event(&resolved.mailbox, event) {
        Ok(()) => Ok(Admission { mailbox: resolved.mailbox, to_spawn: resolved.to_spawn }),
        Err(_) => Err(SessionError::aborted(String::from_str("channel closed"))),
    }
}

} // verus!
