//! The player-facing frontend's decision rule: turning a matchmaker
//! assignment into the reply a player receives.
//!
//! The frontend files a ticket with the matchmaker and watches for its
//! assignment; the watching and the ticket RPCs belong to the embedding
//! process. Verified here is the reply rule: an assignment naming a
//! connection becomes the game server handed to the player, and a missing
//! assignment is answered with an unavailable error.

use vstd::prelude::*;
use vstd::string::StringExecFns;

use crate::errors::{ErrorCode, SessionError};

verus! {

/// The game server a matched player is directed to.
#[derive(Debug)]
pub struct GameServer {
    pub address: String,
}

/// The reply to a match request, given the assignment the matchmaker
/// produced: the assigned connection as the game server's address, or an
/// unavailable error when no assignment arrived.
pub fn create_match_reply(assignment: Option<String>) -> (r: Result<GameServer, SessionError>)
    ensures
        assignment matches Some(connection) ==> (r matches Ok(g) && g.address == connection),
        assignment is None ==> (r matches Err(e) && e.code == ErrorCode::Unavailable
            && e.message@ == "failed to assign match request"@),
{
    match assignment {
        Some(connection) => Ok(GameServer { address: connection }),
        None => Err(SessionError::unavailable(String::from_str("failed to assign match request"))),
    }
}

} // verus!
