//! Session data entities: players, the per-match session, and the events
//! that a session actor consumes.
//!
//! A [`GameSession`] is the player set of one match. Its invariant is that
//! player identifiers are unique within the session at all times; insertion
//! order carries no meaning. Each [`Player`] owns the sending half of its
//! connection's outbound channel, together with a ghost log of every payload
//! that was successfully handed to that channel.

use vstd::prelude::*;

use crate::errors::{ErrorCode, SessionError};

verus! {

/// A payload relayed between the players of one match.
#[derive(Clone, Debug)]
pub struct Message {
    pub body: String,
}

impl Message {
    /// A copy of this message, equal to the original.
    pub fn duplicate(&self) -> (r: Message)
        ensures
            r == *self,
    {
        Message { body: self.body.clone() }
    }
}

/// A player of one match: an identifier, unique within the session, and the
/// outbound delivery handle of that player's connection.
#[derive(Clone)]
pub struct Player {
    pub id: String,
    pub sender: tokio::sync::mpsc::Sender<Result<Message, SessionError>>,
    /// Every payload successfully pushed to this player's connection, oldest
    /// first.
    pub delivered: Ghost<Seq<Message>>,
}

impl Player {
    /// The outbound delivery handle this player was created with.
    pub open spec fn outbound(&self) -> tokio::sync::mpsc::Sender<Result<Message, SessionError>> {
        self.sender
    }

    /// A player with an empty delivery log, owning `outbound` as its
    /// delivery handle.
    pub fn new(
        id: String,
        outbound: tokio::sync::mpsc::Sender<Result<Message, SessionError>>,
    ) -> (r: Player)
        ensures
            r.id == id,
            r.outbound() == outbound,
            r.delivered@ == Seq::<Message>::empty(),
    {
        Player { id, sender: outbound, delivered: Ghost(Seq::empty()) }
    }

    /// Relies on tokio's `Sender::blocking_send`: on `Ok` the payload has
    /// been placed at the tail of this player's outbound queue, which the
    /// connection side drains in FIFO order; an `Err` comes back exactly
    /// when the connection side has dropped or closed the receiving half,
    /// and the queue is left unchanged. `blocking_send` panics when called from
    /// within an asynchronous execution context, so session actors must run
    /// on plain threads.
    #[verifier::external_body]
    pub fn send_message(&mut self, message: Message) -> (r: Result<(), SessionError>)
        ensures
            final(self).id == old(self).id,
            final(self).outbound() == old(self).outbound(),
            r is Ok ==> final(self).delivered@ == old(self).delivered@.push(message),
            r matches Err(e) ==> final(self).delivered@ == old(self).delivered@
                && e.code == ErrorCode::Aborted,
    {
        match self.sender.blocking_send(Ok(message)) {
            Ok(()) => Ok(()),
            Err(e) => Err(SessionError { code: ErrorCode::Aborted, message: e.to_string() }),
        }
    }
}

/// A request to add `player` to the session.
#[derive(Clone)]
pub struct JoinEvent {
    pub player: Player,
}

/// A request to remove the player with identifier `player_id`; a no-op when
/// no such player is present, which guards against duplicate or late leave
/// signals.
#[derive(Clone, Debug)]
pub struct LeaveEvent {
    pub player_id: String,
}

/// One unit of work for a session actor. Exactly one of the three fields is
/// populated by well-formed senders; an actor examines `message` first, then
/// `join`, then `leave`, and ignores an event with none of them set.
#[derive(Clone)]
pub struct Event {
    pub join: Option<JoinEvent>,
    pub leave: Option<LeaveEvent>,
    pub message: Option<Message>,
}

/// Whether `ids` holds a string whose characters are `id`.
pub open spec fn seq_contains_id(ids: Seq<String>, id: Seq<char>) -> bool {
    exists|i: int| 0 <= i < ids.len() && ids[i]@ == id
}

/// The player set of one live match.
pub struct GameSession {
    pub players: Vec<Player>,
}

impl GameSession {
    /// Player identifiers are unique within the session.
    pub open spec fn wf(&self) -> bool {
        forall|i: int, j: int|
            0 <= i < j < self.players@.len() ==> self.players@[i].id@ != self.players@[j].id@
    }

    /// Whether a player with identifier `id` is in the session.
    pub open spec fn contains_id(&self, id: Seq<char>) -> bool {
        exists|i: int| 0 <= i < self.players@.len() && self.players@[i].id@ == id
    }

    /// The set of identifiers of the players in the session.
    pub open spec fn id_set(&self) -> Set<Seq<char>> {
        Set::new(|id: Seq<char>| self.contains_id(id))
    }

    /// An empty session.
    pub fn new() -> (r: GameSession)
        ensures
            r.players@ == Seq::<Player>::empty(),
            r.wf(),
    {
        GameSession { players: Vec::new() }
    }

    /// Whether a player with the given identifier is in the session.
    pub fn contains_player(&self, id: &String) -> (r: bool)
        ensures
            r == self.contains_id(id@),
    {
        let n = self.players.len();
        let mut i: usize = 0;
        while i < n
            invariant
                i <= n,
                n == self.players@.len(),
                forall|j: int| 0 <= j < i ==> self.players@[j].id@ != id@,
            decreases n - i,
        {
            if self.players[i].id == *id {
                return true;
            }
            i = i + 1;
        }
        false
    }

    /// Adds `player` to the session. A player whose identifier is already
    /// present is not added again, so identifiers stay unique.
    pub fn add_player(&mut self, player: Player)
        requires
            old(self).wf(),
        ensures
            final(self).wf(),
            old(self).contains_id(player.id@) ==> *final(self) == *old(self),
            !old(self).contains_id(player.id@) ==> final(self).players@ == old(
                self,
            ).players@.push(player),
            final(self).id_set() =~= old(self).id_set().insert(player.id@),
    {
        if !self.contains_player(&player.id) {
            self.players.push(player);
        }
        proof {
            assert forall|id: Seq<char>|
                self.contains_id(id) implies (old(self).contains_id(id) || id == player.id@) by {
                let k = choose|k: int|
                    0 <= k < self.players@.len() && self.players@[k].id@ == id;
                if k < old(self).players@.len() {
                    assert(old(self).players@[k].id@ == id);
                }
            }
            assert forall|id: Seq<char>|
                (old(self).contains_id(id) || id == player.id@) implies self.contains_id(id) by {
                if old(self).contains_id(id) {
                    let k = choose|k: int|
                        0 <= k < old(self).players@.len() && old(self).players@[k].id@ == id;
                    assert(self.players@[k].id@ == id);
                } else if !old(self).contains_id(player.id@) {
                    assert(self.players@[self.players@.len() - 1].id@ == id);
                }
            }
        }
    }

    /// Removes the player with the given identifier, if present; the session
    /// is unchanged otherwise. Which slot the last player moves into is
    /// immaterial because the session is an unordered collection.
    pub fn delete_player(&mut self, id: String)
        requires
            old(self).wf(),
        ensures
            final(self).wf(),
            !final(self).contains_id(id@),
            final(self).id_set() =~= old(self).id_set().remove(id@),
            !old(self).contains_id(id@) ==> *final(self) == *old(self),
            old(self).contains_id(id@) ==> final(self).players@.len() == old(
                self,
            ).players@.len() - 1,
            forall|j: int|
                0 <= j < final(self).players@.len() ==> old(self).players@.contains(
                    #[trigger] final(self).players@[j],
                ),
    {
        let n = self.players.len();
        let mut index: Option<usize> = None;
        let mut i: usize = 0;
        while i < n
            invariant
                i <= n,
                n == self.players@.len(),
                match index {
                    Some(k) => k < i && self.players@[k as int].id@ == id@,
                    None => forall|j: int| 0 <= j < i ==> self.players@[j].id@ != id@,
                },
            decreases n - i,
        {
            if self.players[i].id == id {
                index = Some(i);
            }
            i = i + 1;
        }
        match index {
            Some(k) => {
                self.players.swap_remove(k);
                proof {
                    assert forall|id2: Seq<char>|
                        self.contains_id(id2) <==> (old(self).contains_id(id2) && id2 != id@) by {
                        if self.contains_id(id2) {
                            let a = choose|a: int|
                                0 <= a < self.players@.len() && self.players@[a].id@ == id2;
                            if a == k {
                                assert(old(self).players@[old(self).players@.len() - 1].id@
                                    == id2);
                            }
                        }
                        if old(self).contains_id(id2) && id2 != id@ {
                            let a = choose|a: int|
                                0 <= a < old(self).players@.len() && old(self).players@[a].id@
                                    == id2;
                            if a == k {
                                assert(old(self).players@[k as int].id@ == id@);
                            } else if a == old(self).players@.len() - 1 {
                                if k < self.players@.len() {
                                    assert(self.players@[k as int].id@ == id2);
                                }
                            } else {
                                assert(self.players@[a].id@ == id2);
                            }
                        }
                    }
                    assert forall|j: int| 0 <= j < self.players@.len() implies old(
                        self,
                    ).players@.contains(self.players@[j]) by {
                        if j == k {
                            assert(old(self).players@[old(self).players@.len() - 1]
                                == self.players@[j]);
                        } else {
                            assert(old(self).players@[j] == self.players@[j]);
                        }
                    }
                }
            },
            None => {
                proof {
                    assert forall|j: int| 0 <= j < self.players@.len() implies old(
                        self,
                    ).players@.contains(self.players@[j]) by {
                        assert(old(self).players@[j] == self.players@[j]);
                    }
                }
            },
        }
    }

    /// How many players are currently in the session.
    pub fn num_players(&self) -> (r: usize)
        ensures
            r == self.players@.len(),
    {
        self.players.len()
    }

    /// A snapshot of the current players; each copy shares the original
    /// player's identifier.
    pub fn clone_players(&self) -> (r: Vec<Player>)
        ensures
            r@.len() == self.players@.len(),
            forall|i: int| 0 <= i < r@.len() ==> r@[i].id@ == self.players@[i].id@,
    {
        let n = self.players.len();
        let mut out: Vec<Player> = Vec::new();
        let mut i: usize = 0;
        while i < n
            invariant
                i <= n,
                n == self.players@.len(),
                out@.len() == i,
                forall|j: int| 0 <= j < i ==> out@[j].id@ == self.players@[j].id@,
            decreases n - i,
        {
            let p = &self.players[i];
            out.push(Player {
                id: p.id.clone(),
                sender: p.sender.clone(),
                delivered: Ghost(p.delivered@),
            });
            i = i + 1;
        }
        out
    }

    /// Attempts delivery of `message` to every player currently in the
    /// session, the originator included: the engine performs full-membership
    /// echo broadcast, not sender exclusion. Returns the identifiers of the
    /// players whose delivery failed, each at most once; every other
    /// player's delivery log grows by exactly this payload.
    pub fn broadcast_message(&mut self, message: &Message) -> (failed: Vec<String>)
        requires
            old(self).wf(),
        ensures
            final(self).wf(),
            final(self).players@.len() == old(self).players@.len(),
            forall|i: int|
                0 <= i < final(self).players@.len() ==> final(self).players@[i].id@ == old(
                    self,
                ).players@[i].id@ && final(self).players@[i].outbound() == old(
                    self,
                ).players@[i].outbound(),
            final(self).id_set() =~= old(self).id_set(),
            forall|a: int| 0 <= a < failed@.len() ==> old(self).contains_id(failed@[a]@),
            forall|a: int, b: int| 0 <= a < b < failed@.len() ==> failed@[a]@ != failed@[b]@,
            forall|i: int|
                0 <= i < final(self).players@.len() && seq_contains_id(
                    failed@,
                    old(self).players@[i].id@,
                ) ==> final(self).players@[i].delivered@ == old(self).players@[i].delivered@,
            forall|i: int|
                0 <= i < final(self).players@.len() && !seq_contains_id(
                    failed@,
                    old(self).players@[i].id@,
                ) ==> final(self).players@[i].delivered@ == old(self).players@[i].delivered@.push(
                    *message,
                ),
    {
        let n = self.players.len();
        let mut failed: Vec<String> = Vec::new();
        let mut i: usize = 0;
        while i < n
            invariant
                i <= n,
                n == self.players@.len(),
                self.players@.len() == old(self).players@.len(),
                forall|j: int|
                    0 <= j < n ==> self.players@[j].id@ == old(self).players@[j].id@
                        && self.players@[j].outbound() == old(self).players@[j].outbound(),
                old(self).wf(),
                self.wf(),
                forall|a: int| 0 <= a < failed@.len() ==> exists|j: int|
                    0 <= j < i && #[trigger] failed@[a]@ == old(self).players@[j].id@,
                forall|a: int, b: int| 0 <= a < b < failed@.len() ==> failed@[a]@ != failed@[b]@,
                forall|j: int|
                    i <= j < n ==> self.players@[j].delivered@ == old(self).players@[j].delivered@,
                forall|j: int|
                    0 <= j < i && seq_contains_id(failed@, old(self).players@[j].id@) ==> (
                    self.players@[j].delivered@ == old(self).players@[j].delivered@),
                forall|j: int|
                    0 <= j < i && !seq_contains_id(failed@, old(self).players@[j].id@) ==> (
                    self.players@[j].delivered@ == old(self).players@[j].delivered@.push(*message)),
            decreases n - i,
        {
            let ghost failed_before = failed@;
            let payload = message.duplicate();
            let outcome = self.players[i].send_message(payload);
            if outcome.is_err() {
                failed.push(self.players[i].id.clone());
                proof {
                    let iid = old(self).players@[i as int].id@;
                    assert(failed@[failed@.len() - 1]@ == iid);
                    assert(seq_contains_id(failed@, iid));
                    assert forall|j: int| 0 <= j < n && j != i implies (seq_contains_id(
                        failed@,
                        old(self).players@[j].id@,
                    ) <==> seq_contains_id(failed_before, old(self).players@[j].id@)) by {
                        if seq_contains_id(failed@, old(self).players@[j].id@) {
                            let a = choose|a: int|
                                0 <= a < failed@.len() && failed@[a]@ == old(self).players@[j].id@;
                            if a == failed@.len() - 1 {
                                assert(iid == old(self).players@[j].id@);
                                assert(false);
                            } else {
                                assert(failed_before[a]@ == old(self).players@[j].id@);
                            }
                        }
                        if seq_contains_id(failed_before, old(self).players@[j].id@) {
                            let a = choose|a: int|
                                0 <= a < failed_before.len() && failed_before[a]@ == old(
                                    self,
                                ).players@[j].id@;
                            assert(failed@[a]@ == old(self).players@[j].id@);
                        }
                    }
                    assert forall|a: int| 0 <= a < failed_before.len() implies failed_before[a]@
                        != iid by {
                        let j = choose|j: int|
                            0 <= j < i && failed_before[a]@ == old(self).players@[j].id@;
                        assert(old(self).players@[j].id@ != iid);
                    }
                }
            } else {
                proof {
                    let iid = old(self).players@[i as int].id@;
                    if seq_contains_id(failed@, iid) {
                        let a = choose|a: int| 0 <= a < failed@.len() && failed@[a]@ == iid;
                        let j = choose|j: int|
                            0 <= j < i && failed@[a]@ == old(self).players@[j].id@;
                        assert(old(self).players@[j].id@ != iid);
                        assert(false);
                    }
                }
            }
            i = i + 1;
        }
        proof {
            assert forall|id: Seq<char>| self.contains_id(id) <==> old(self).contains_id(id) by {
                if self.contains_id(id) {
                    let a = choose|a: int|
                        0 <= a < self.players@.len() && self.players@[a].id@ == id;
                    assert(old(self).players@[a].id@ == id);
                }
                if old(self).contains_id(id) {
                    let a = choose|a: int|
                        0 <= a < old(self).players@.len() && old(self).players@[a].id@ == id;
                    assert(self.players@[a].id@ == id);
                }
            }
        }
        failed
    }
}

} // verus!
