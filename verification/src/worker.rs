//! The session actor: the single unit of execution that owns one match's
//! session and serializes all mutation of it.
//!
//! A [`Worker`] consumes its FIFO mailbox one event at a time. A `Join`
//! appends the player; a `Leave` removes the player, and when the session
//! thereby empties, the actor deregisters itself and — if the whole registry
//! just went idle — signals process shutdown; a `Message` is broadcast to
//! every player, the sender included, and every player whose delivery failed
//! is removed as if it had left, with the same empty-session check once all
//! failed removals are applied.
//!
//! The ghost `trace` records what the actor did to its membership, so the
//! player set after any series of events is pinned to a fold over that
//! trace; [`lemma_membership_invariant`] reduces the fold to joined ids
//! minus departed ids.

use vstd::prelude::*;

use crate::channel::recv_event;
use crate::entities::{Event, GameSession, Message, Player, seq_contains_id};
use crate::lifecycle::StatusManager;
use crate::registry::{MatchId, SessionRegistry};

verus! {

/// One membership-relevant thing a session actor did.
pub enum SessionAction {
    /// A player with this identifier was offered to the session by a join.
    Joined(Seq<char>),
    /// A player with this identifier was asked to leave.
    Left(Seq<char>),
    /// Delivery to the player with this identifier failed, an implicit
    /// leave.
    Failed(Seq<char>),
}

/// The identifier an action is about.
pub open spec fn action_id(a: SessionAction) -> Seq<char> {
    match a {
        SessionAction::Joined(id) => id,
        SessionAction::Left(id) => id,
        SessionAction::Failed(id) => id,
    }
}

/// The player set after one action.
pub open spec fn apply_action(s: Set<Seq<char>>, a: SessionAction) -> Set<Seq<char>> {
    match a {
        SessionAction::Joined(id) => s.insert(id),
        SessionAction::Left(id) => s.remove(id),
        SessionAction::Failed(id) => s.remove(id),
    }
}

/// The player set after a series of actions, applied in order.
pub open spec fn apply_actions(s: Set<Seq<char>>, t: Seq<SessionAction>) -> Set<Seq<char>>
    decreases t.len(),
{
    if t.len() == 0 {
        s
    } else {
        apply_action(apply_actions(s, t.drop_last()), t.last())
    }
}

/// Folding one more action onto a series.
pub proof fn lemma_apply_actions_push(s: Set<Seq<char>>, t: Seq<SessionAction>, a: SessionAction)
    ensures
        apply_actions(s, t.push(a)) == apply_action(apply_actions(s, t), a),
{
    assert(t.push(a).drop_last() =~= t);
    assert(t.push(a).last() == a);
}

/// The identifiers some join was about.
pub open spec fn joined_ids(t: Seq<SessionAction>) -> Set<Seq<char>> {
    Set::new(|id: Seq<char>| exists|i: int| 0 <= i < t.len() && t[i] == SessionAction::Joined(id))
}

/// The identifiers some leave or failed delivery was about.
pub open spec fn departed_ids(t: Seq<SessionAction>) -> Set<Seq<char>> {
    Set::new(
        |id: Seq<char>|
            exists|i: int|
                0 <= i < t.len() && (t[i] == SessionAction::Left(id) || t[i]
                    == SessionAction::Failed(id)),
    )
}

/// Whether no identifier joins after it has departed.
pub open spec fn no_rejoin(t: Seq<SessionAction>) -> bool {
    forall|i: int, j: int|
        0 <= i < j < t.len() && (t[i] is Left || t[i] is Failed) && t[j] is Joined ==> action_id(
            t[i],
        ) != action_id(t[j])
}

/// The membership invariant: for any series of join, leave and
/// failed-delivery actions applied to an empty session, the resulting
/// player set is the joined identifiers minus the departed ones — the left
/// together with the failed — provided no identifier rejoins after it
/// departed. (An identifier that departs and then joins again is a member,
/// while the difference would exclude it, so such series are left out.)
pub proof fn lemma_membership_invariant(t: Seq<SessionAction>)
    requires
        no_rejoin(t),
    ensures
        apply_actions(Set::empty(), t) =~= joined_ids(t).difference(departed_ids(t)),
    decreases t.len(),
{
    if t.len() == 0 {
        assert forall|id: Seq<char>| !joined_ids(t).contains(id) by {}
    } else {
        let t0 = t.drop_last();
        let a = t.last();
        assert(no_rejoin(t0)) by {
            assert forall|i: int, j: int|
                0 <= i < j < t0.len() && (t0[i] is Left || t0[i] is Failed)
                    && t0[j] is Joined implies action_id(t0[i]) != action_id(t0[j]) by {
                assert(t0[i] == t[i] && t0[j] == t[j]);
            }
        }
        lemma_membership_invariant(t0);
        let prev = apply_actions(Set::empty(), t0);
        assert forall|id: Seq<char>|
            apply_actions(Set::empty(), t).contains(id) == (joined_ids(t).contains(id)
                && !departed_ids(t).contains(id)) by {
            assert(apply_actions(Set::empty(), t) == apply_action(prev, a));
            // membership in the sets over t, reduced to t0 and the last action
            assert(joined_ids(t).contains(id) == (joined_ids(t0).contains(id) || a
                == SessionAction::Joined(id))) by {
                if joined_ids(t0).contains(id) {
                    let i = choose|i: int|
                        0 <= i < t0.len() && t0[i] == SessionAction::Joined(id);
                    assert(t[i] == SessionAction::Joined(id));
                }
                if joined_ids(t).contains(id) {
                    let i = choose|i: int| 0 <= i < t.len() && t[i] == SessionAction::Joined(id);
                    if i < t0.len() {
                        assert(t0[i] == SessionAction::Joined(id));
                    }
                }
            }
            assert(departed_ids(t).contains(id) == (departed_ids(t0).contains(id) || a
                == SessionAction::Left(id) || a == SessionAction::Failed(id))) by {
                if departed_ids(t0).contains(id) {
                    let i = choose|i: int|
                        0 <= i < t0.len() && (t0[i] == SessionAction::Left(id) || t0[i]
                            == SessionAction::Failed(id));
                    assert(t[i] == SessionAction::Left(id) || t[i] == SessionAction::Failed(id));
                }
                if departed_ids(t).contains(id) {
                    let i = choose|i: int|
                        0 <= i < t.len() && (t[i] == SessionAction::Left(id) || t[i]
                            == SessionAction::Failed(id));
                    if i < t0.len() {
                        assert(t0[i] == SessionAction::Left(id) || t0[i]
                            == SessionAction::Failed(id));
                    }
                }
            }
            match a {
                SessionAction::Joined(jid) => {
                    if id == jid && departed_ids(t0).contains(id) {
                        // would be a rejoin after a departure
                        let i = choose|i: int|
                            0 <= i < t0.len() && (t0[i] == SessionAction::Left(id) || t0[i]
                                == SessionAction::Failed(id));
                        assert((t[i] is Left || t[i] is Failed) && t[t.len() - 1] is Joined);
                        assert(false);
                    }
                },
                SessionAction::Left(_) => {},
                SessionAction::Failed(_) => {},
            }
        }
    }
}

/// The session actor for one match. It owns the match's [`GameSession`] and
/// the receiving half of its mailbox; the registry reference is used once,
/// to deregister itself when its session empties.
pub struct Worker<'a, SM: StatusManager> {
    pub match_id: MatchId,
    pub status_manager: SM,
    pub game_session: GameSession,
    pub rx: tokio::sync::mpsc::Receiver<Event>,
    pub registry: &'a SessionRegistry,
    /// What this actor has done to its membership, in order.
    pub trace: Ghost<Seq<SessionAction>>,
    /// Whether this actor has already deregistered itself; it then
    /// processes no further event.
    pub done: bool,
}

impl<'a, SM: StatusManager> Worker<'a, SM> {
    /// The actions recorded after `prefix` events were already processed.
    pub open spec fn trace_delta(&self, prefix: Seq<SessionAction>) -> Seq<SessionAction> {
        self.trace@.skip(prefix.len() as int)
    }

    /// An actor owning `game_session` for `match_id`, fed by `rx`.
    pub fn new(
        match_id: MatchId,
        status_manager: SM,
        game_session: GameSession,
        rx: tokio::sync::mpsc::Receiver<Event>,
        registry: &'a SessionRegistry,
    ) -> (r: Worker<'a, SM>)
        ensures
            r.match_id == match_id,
            r.game_session == game_session,
            r.rx == rx,
            r.registry == registry,
            r.trace@ == Seq::<SessionAction>::empty(),
            !r.done,
    {
        Worker {
            match_id,
            status_manager,
            game_session,
            rx,
            registry,
            trace: Ghost(Seq::empty()),
            done: false,
        }
    }

    /// Tears this actor down, exactly once: deregisters its match and, when
    /// that removal took the registry to idle, signals shutdown. A failed
    /// shutdown signal is deliberately dropped: lifecycle signals are
    /// fire-and-forget and must not block teardown.
    fn finish(&mut self)
        requires
            !old(self).done,
        ensures
            final(self).done,
            final(self).game_session == old(self).game_session,
            final(self).trace == old(self).trace,
            final(self).match_id == old(self).match_id,
            final(self).registry == old(self).registry,
    {
        let outcome = self.registry.remove(&self.match_id);
        if outcome.now_idle {
            let _ = self.status_manager.shutdown();
        }
        self.done = true;
    }

    /// Applies one event to the session; returns whether the actor is
    /// finished and must process no further event.
    ///
    /// The membership outcome is pinned by the recorded trace: a message
    /// event records the failed deliveries, a join records the joining
    /// identifier, a leave the leaving one, and the player set afterwards
    /// is exactly the fold of the new actions over the set before. A
    /// message reaches every player that stays in the session.
    pub fn step(&mut self, event: Event) -> (stop: bool)
        requires
            old(self).game_session.wf(),
            !old(self).done,
        ensures
            final(self).game_session.wf(),
            final(self).match_id == old(self).match_id,
            final(self).registry == old(self).registry,
            old(self).trace@.is_prefix_of(final(self).trace@),
            final(self).game_session.id_set() =~= apply_actions(
                old(self).game_session.id_set(),
                final(self).trace_delta(old(self).trace@),
            ),
            final(self).done == stop,
            stop ==> final(self).game_session.players@.len() == 0,
            event.message is Some ==> stop == (final(self).trace_delta(old(self).trace@).len() > 0
                && final(self).game_session.players@.len() == 0),
            event.message is None && event.join is Some ==> !stop,
            event.message is None && event.join is None && event.leave is Some ==> stop == (
            final(self).game_session.players@.len() == 0),
            event.message is Some ==> forall|a: int|
                0 <= a < final(self).trace_delta(old(self).trace@).len()
                    ==> final(self).trace_delta(old(self).trace@)[a] is Failed,
            event.message matches Some(m) ==> forall|j: int|
                0 <= j < final(self).game_session.players@.len() ==> exists|k: int|
                    0 <= k < old(self).game_session.players@.len() && received_payload(
                        #[trigger] final(self).game_session.players@[j],
                        old(self).game_session.players@[k],
                        m,
                    ),
            event.message is None ==> (event.join matches Some(j)
                ==> final(self).trace_delta(old(self).trace@)
                =~= seq![SessionAction::Joined(j.player.id@)]),
            event.message is None ==> (event.join matches Some(j)
                ==> !old(self).game_session.contains_id(j.player.id@)
                ==> final(self).game_session.players@
                == old(self).game_session.players@.push(j.player)),
            event.message is None && event.join is None ==> (event.leave matches Some(l)
                ==> final(self).trace_delta(old(self).trace@)
                =~= seq![SessionAction::Left(l.player_id@)]),
            event.message is None && event.join is None && event.leave is None ==> *final(self)
                == *old(self) && !stop,
    {
        let ghost trace0 = self.trace@;
        if let Some(message) = event.message {
            let failed = self.game_session.broadcast_message(&message);
            let ghost bc_players = self.game_session.players@;
            let nfail = failed.len();
            let mut k: usize = 0;
            while k < nfail
                invariant
                    k <= nfail,
                    nfail == failed@.len(),
                    self.game_session.wf(),
                    self.match_id == old(self).match_id,
                    self.registry == old(self).registry,
                    self.done == old(self).done,
                    !self.done,
                    self.trace@ =~= trace0 + failed_actions(failed@, k as int),
                    self.game_session.id_set() =~= apply_actions(
                        old(self).game_session.id_set(),
                        failed_actions(failed@, k as int),
                    ),
                    forall|j: int|
                        0 <= j < self.game_session.players@.len() ==> bc_players.contains(
                            #[trigger] self.game_session.players@[j],
                        ),
                    forall|a: int|
                        0 <= a < k ==> !self.game_session.contains_id(failed@[a]@),
                    // facts carried from before the loop
                    old(self).game_session.wf(),
                    bc_players.len() == old(self).game_session.players@.len(),
                    forall|j: int|
                        0 <= j < bc_players.len() ==> bc_players[j].id@ == old(
                            self,
                        ).game_session.players@[j].id@,
                    forall|j: int|
                        0 <= j < bc_players.len() && seq_contains_id(
                            failed@,
                            old(self).game_session.players@[j].id@,
                        ) ==> bc_players[j].delivered@ == old(
                            self,
                        ).game_session.players@[j].delivered@,
                    forall|j: int|
                        0 <= j < bc_players.len() && !seq_contains_id(
                            failed@,
                            old(self).game_session.players@[j].id@,
                        ) ==> bc_players[j].delivered@ == old(
                            self,
                        ).game_session.players@[j].delivered@.push(message),
                    forall|a: int| 0 <= a < failed@.len() ==> old(self).game_session.contains_id(
                        failed@[a]@,
                    ),
                    forall|a: int, b: int|
                        0 <= a < b < failed@.len() ==> failed@[a]@ != failed@[b]@,
                decreases nfail - k,
            {
                let id = failed[k].clone();
                proof {
                    lemma_apply_actions_push(
                        old(self).game_session.id_set(),
                        failed_actions(failed@, k as int),
                        SessionAction::Failed(id@),
                    );
                    assert(failed_actions(failed@, k + 1 as int) =~= failed_actions(
                        failed@,
                        k as int,
                    ).push(SessionAction::Failed(failed@[k as int]@)));
                }
                self.trace = Ghost(self.trace@.push(SessionAction::Failed(id@)));
                let ghost before = self.game_session;
                self.game_session.delete_player(id);
                proof {
                    assert forall|j: int|
                        0 <= j < self.game_session.players@.len() implies bc_players.contains(
                        #[trigger] self.game_session.players@[j],
                    ) by {
                        assert(before.players@.contains(self.game_session.players@[j]));
                        let w = choose|w: int|
                            0 <= w < before.players@.len() && before.players@[w]
                                == self.game_session.players@[j];
                        assert(bc_players.contains(before.players@[w]));
                    }
                }
                k = k + 1;
            }
            proof {
                assert forall|j: int|
                    0 <= j < self.game_session.players@.len() implies exists|k2: int|
                    0 <= k2 < old(self).game_session.players@.len() && received_payload(
                        #[trigger] self.game_session.players@[j],
                        old(self).game_session.players@[k2],
                        message,
                    ) by {
                    let p = self.game_session.players@[j];
                    assert(bc_players.contains(p));
                    let w = choose|w: int| 0 <= w < bc_players.len() && bc_players[w] == p;
                    if seq_contains_id(failed@, old(self).game_session.players@[w].id@) {
                        let a = choose|a: int|
                            0 <= a < failed@.len() && failed@[a]@ == old(
                                self,
                            ).game_session.players@[w].id@;
                        assert(self.game_session.players@[j].id@ == failed@[a]@);
                        assert(self.game_session.contains_id(failed@[a]@));
                        assert(false);
                    }
                    assert(received_payload(p, old(self).game_session.players@[w], message));
                }
                assert(self.trace_delta(trace0) =~= failed_actions(failed@, nfail as int));
                assert(trace0.is_prefix_of(self.trace@));
            }
            if nfail > 0 && self.game_session.num_players() == 0 {
                self.finish();
                true
            } else {
                false
            }
        } else if let Some(join) = event.join {
            proof {
                lemma_apply_actions_push(
                    old(self).game_session.id_set(),
                    Seq::empty(),
                    SessionAction::Joined(join.player.id@),
                );
            }
            self.trace = Ghost(self.trace@.push(SessionAction::Joined(join.player.id@)));
            self.game_session.add_player(join.player);
            proof {
                assert(self.trace_delta(trace0) =~= Seq::empty().push(
                    SessionAction::Joined(join.player.id@),
                ));
            }
            false
        } else if let Some(leave) = event.leave {
            proof {
                lemma_apply_actions_push(
                    old(self).game_session.id_set(),
                    Seq::empty(),
                    SessionAction::Left(leave.player_id@),
                );
            }
            self.trace = Ghost(self.trace@.push(SessionAction::Left(leave.player_id@)));
            let ghost lid = leave.player_id@;
            self.game_session.delete_player(leave.player_id);
            proof {
                assert(self.trace_delta(trace0) =~= Seq::empty().push(SessionAction::Left(lid)));
            }
            if self.game_session.num_players() == 0 {
                self.finish();
                true
            } else {
                false
            }
        } else {
            proof {
                assert(self.trace_delta(trace0) =~= Seq::empty());
            }
            false
        }
    }

    /// Receives the next event from the mailbox and applies it; returns
    /// whether the actor is finished, either because it tore itself down or
    /// because the mailbox closed. Callers drive this in a loop until it
    /// returns true.
    pub fn poll(&mut self) -> (stop: bool)
        requires
            old(self).game_session.wf(),
            !old(self).done,
        ensures
            final(self).game_session.wf(),
            final(self).match_id == old(self).match_id,
            final(self).registry == old(self).registry,
            old(self).trace@.is_prefix_of(final(self).trace@),
            final(self).game_session.id_set() =~= apply_actions(
                old(self).game_session.id_set(),
                final(self).trace_delta(old(self).trace@),
            ),
            final(self).done ==> stop,
            !stop ==> !final(self).done,
    {
        let next = recv_event(&mut self.rx);
        match next {
            None => {
                proof {
                    assert(self.trace_delta(old(self).trace@) =~= Seq::empty());
                }
                true
            },
            Some(event) => self.step(event),
        }
    }
}

/// Whether `p_new` is `p_old` right after receiving `m`.
pub open spec fn received_payload(p_new: Player, p_old: Player, m: Message) -> bool {
    p_new.id@ == p_old.id@ && p_new.delivered@ == p_old.delivered@.push(m)
}

/// The first `k` failed identifiers, as failed-delivery actions.
pub open spec fn failed_actions(failed: Seq<String>, k: int) -> Seq<SessionAction> {
    Seq::new(k as nat, |a: int| SessionAction::Failed(failed[a]@))
}

} // verus!
