//! The session registry: the process-wide table from match identifier to
//! the owning session actor's mailbox.
//!
//! The registry is the only state shared between connection handlers and
//! session actors, so [`SessionRegistry`] guards it with one exclusive lock
//! covering the whole lookup/insert/delete surface: get-or-create is one
//! atomic check-and-act, and the process-idle decision taken on removal is
//! read under the same critical section as the removal itself. The table
//! itself, [`RegistryMap`], is plain verified data; its contracts carry the
//! creation and teardown laws.

use vstd::prelude::*;
use vstd::rwlock::{RwLock, RwLockPredicate};

use crate::channel::{max_mailbox_capacity, new_mailbox};
use crate::entities::Event;

verus! {

/// A match identifier.
pub type MatchId = String;

/// The sending half of a session actor's mailbox.
pub type Mailbox = tokio::sync::mpsc::Sender<Event>;

/// One registered match.
struct RegistryEntry {
    match_id: MatchId,
    mailbox: Mailbox,
}

/// What resolving a match identifier produced.
pub struct Resolved {
    /// The mailbox of the session actor owning the match.
    pub mailbox: Mailbox,
    /// When the match was unseen, the receiving half of the fresh mailbox;
    /// the caller must hand it to a new session actor.
    pub to_spawn: Option<tokio::sync::mpsc::Receiver<Event>>,
}

/// What deregistering a match produced.
pub struct RemoveOutcome {
    /// Whether an entry was actually removed.
    pub removed: bool,
    /// How many matches stay registered.
    pub remaining: usize,
    /// Whether this removal took the process to idle; the caller must then
    /// signal shutdown, and only then.
    pub now_idle: bool,
}

spec fn seq_contains_key(s: Seq<RegistryEntry>, k: Seq<char>) -> bool {
    exists|i: int| 0 <= i < s.len() && s[i].match_id@ == k
}

spec fn seq_index_of(s: Seq<RegistryEntry>, k: Seq<char>) -> int {
    choose|i: int| 0 <= i < s.len() && s[i].match_id@ == k
}

spec fn keys_unique(s: Seq<RegistryEntry>) -> bool {
    forall|i: int, j: int| 0 <= i < j < s.len() ==> s[i].match_id@ != s[j].match_id@
}

spec fn entries_view(s: Seq<RegistryEntry>) -> Map<Seq<char>, Mailbox> {
    Map::new(|k: Seq<char>| seq_contains_key(s, k), |k: Seq<char>| s[seq_index_of(s, k)].mailbox)
}

proof fn lemma_entries_view_index(s: Seq<RegistryEntry>, i: int)
    requires
        keys_unique(s),
        0 <= i < s.len(),
    ensures
        entries_view(s).contains_key(s[i].match_id@),
        entries_view(s)[s[i].match_id@] == s[i].mailbox,
{
    assert(seq_contains_key(s, s[i].match_id@));
    let j = seq_index_of(s, s[i].match_id@);
    assert(0 <= j < s.len() && s[j].match_id@ == s[i].match_id@);
    if i != j {
        assert(s[i].match_id@ != s[j].match_id@);
    }
}

/// The registry table: match identifiers mapped to actor mailboxes, with
/// each identifier registered at most once.
pub struct RegistryMap {
    entries: Vec<RegistryEntry>,
}

impl View for RegistryMap {
    type V = Map<Seq<char>, Mailbox>;

    closed spec fn view(&self) -> Map<Seq<char>, Mailbox> {
        entries_view(self.entries@)
    }
}

/// Whether the registry, together with the match id under removal, is at an
/// idle transition: the match is registered and it is the last one. Removing
/// it obliges the remover to signal process shutdown.
pub open spec fn signals_idle(m: Map<Seq<char>, Mailbox>, k: Seq<char>) -> bool {
    m.contains_key(k) && (forall|k2: Seq<char>| m.contains_key(k2) ==> k2 == k)
}

impl RegistryMap {
    /// Each match identifier is registered at most once.
    pub closed spec fn wf(&self) -> bool {
        keys_unique(self.entries@)
    }

    /// How many matches are registered.
    pub closed spec fn spec_len(&self) -> nat {
        self.entries@.len()
    }

    /// An empty registry.
    pub fn new() -> (r: RegistryMap)
        ensures
            r.wf(),
            r@ =~= Map::<Seq<char>, Mailbox>::empty(),
            r.spec_len() == 0,
    {
        let r = RegistryMap { entries: Vec::new() };
        proof {
            assert forall|k: Seq<char>| !r@.contains_key(k) by {
                assert(!seq_contains_key(r.entries@, k));
            }
        }
        r
    }

    /// How many matches are registered: the process's active match count.
    pub fn active_count(&self) -> (r: usize)
        ensures
            r == self.spec_len(),
    {
        self.entries.len()
    }

    /// Whether `match_id` is registered.
    pub fn contains(&self, match_id: &MatchId) -> (r: bool)
        ensures
            r == self@.contains_key(match_id@),
    {
        let n = self.entries.len();
        let mut i: usize = 0;
        while i < n
            invariant
                i <= n,
                n == self.entries@.len(),
                forall|j: int| 0 <= j < i ==> self.entries@[j].match_id@ != match_id@,
            decreases n - i,
        {
            if self.entries[i].match_id == *match_id {
                proof {
                    assert(seq_contains_key(self.entries@, match_id@));
                }
                return true;
            }
            i = i + 1;
        }
        proof {
            assert(!seq_contains_key(self.entries@, match_id@));
        }
        false
    }

    /// Returns the mailbox registered for `match_id`, creating and
    /// registering a fresh one when the match is unseen.
    ///
    /// This is the single-actor-creation rule: when the identifier is
    /// already present the registry is left untouched and the caller gets
    /// the registered mailbox, so any series of resolutions of one match
    /// identifier spawns exactly one actor, namely on the first call, and
    /// every caller receives that actor's mailbox. [`SessionRegistry`]
    /// serializes concurrent callers, which makes the check-and-create
    /// atomic.
    pub fn get_or_create(&mut self, match_id: &MatchId, capacity: usize) -> (r: Resolved)
        requires
            old(self).wf(),
            1 <= capacity <= max_mailbox_capacity(),
        ensures
            final(self).wf(),
            final(self)@.contains_key(match_id@),
            r.mailbox == final(self)@[match_id@],
            old(self)@.contains_key(match_id@) ==> final(self)@ =~= old(self)@,
            old(self)@.contains_key(match_id@) ==> r.mailbox == old(self)@[match_id@],
            old(self)@.contains_key(match_id@) ==> r.to_spawn is None,
            old(self)@.contains_key(match_id@) ==> final(self).spec_len() == old(self).spec_len(),
            !old(self)@.contains_key(match_id@) ==> final(self)@ =~= old(self)@.insert(
                match_id@,
                r.mailbox,
            ),
            !old(self)@.contains_key(match_id@) ==> r.to_spawn is Some,
            !old(self)@.contains_key(match_id@) ==> final(self).spec_len() == old(
                self,
            ).spec_len() + 1,
    {
        let n = self.entries.len();
        let mut i: usize = 0;
        while i < n
            invariant
                i <= n,
                n == self.entries@.len(),
                *self == *old(self),
                old(self).wf(),
                forall|j: int| 0 <= j < i ==> self.entries@[j].match_id@ != match_id@,
            decreases n - i,
        {
            if self.entries[i].match_id == *match_id {
                let tx = self.entries[i].mailbox.clone();
                proof {
                    lemma_entries_view_index(self.entries@, i as int);
                }
                return Resolved { mailbox: tx, to_spawn: None };
            }
            i = i + 1;
        }
        proof {
            assert(!seq_contains_key(self.entries@, match_id@));
        }
        let (tx, rx) = new_mailbox(capacity);
        let stored = tx.clone();
        self.entries.push(RegistryEntry { match_id: match_id.clone(), mailbox: stored });
        proof {
            let s_new = self.entries@;
            let s_old = old(self).entries@;
            assert forall|a: int, b: int|
                0 <= a < b < s_new.len() implies s_new[a].match_id@ != s_new[b].match_id@ by {
                if b < s_new.len() - 1 {
                    assert(s_old[a].match_id@ != s_old[b].match_id@);
                } else {
                    assert(s_new[a].match_id@ != match_id@);
                }
            }
            lemma_entries_view_index(s_new, s_new.len() - 1);
            assert forall|k: Seq<char>|
                #[trigger] entries_view(s_new).contains_key(k) == (seq_contains_key(s_old, k) || k
                    == match_id@) by {
                if seq_contains_key(s_new, k) {
                    let a = choose|a: int| 0 <= a < s_new.len() && s_new[a].match_id@ == k;
                    if a < s_new.len() - 1 {
                        assert(seq_contains_key(s_old, k));
                    }
                }
                if seq_contains_key(s_old, k) {
                    let a = choose|a: int| 0 <= a < s_old.len() && s_old[a].match_id@ == k;
                    assert(s_new[a].match_id@ == k);
                }
            }
            assert forall|k: Seq<char>|
                seq_contains_key(s_old, k) implies entries_view(s_new)[k] == entries_view(
                s_old,
            )[k] by {
                let a = choose|a: int| 0 <= a < s_old.len() && s_old[a].match_id@ == k;
                assert(s_new[a].match_id@ == k);
                lemma_entries_view_index(s_old, a);
                lemma_entries_view_index(s_new, a);
            }
        }
        Resolved { mailbox: tx, to_spawn: Some(rx) }
    }

    /// Deregisters `match_id` and reports whether the registry is now
    /// entirely empty, decided in the same step.
    ///
    /// Removal is idempotent: deregistering an absent match leaves the
    /// registry unchanged and never reports an idle transition, so an actor
    /// that already tore itself down cannot trigger a second shutdown.
    pub fn remove(&mut self, match_id: &MatchId) -> (r: RemoveOutcome)
        requires
            old(self).wf(),
        ensures
            final(self).wf(),
            r.removed == old(self)@.contains_key(match_id@),
            final(self)@ =~= old(self)@.remove(match_id@),
            r.remaining == final(self).spec_len(),
            r.removed ==> final(self).spec_len() == old(self).spec_len() - 1,
            !r.removed ==> *final(self) == *old(self),
            r.now_idle == (r.removed && r.remaining == 0),
            r.now_idle == signals_idle(old(self)@, match_id@),
    {
        let n = self.entries.len();
        let mut index: Option<usize> = None;
        let mut i: usize = 0;
        while i < n
            invariant
                i <= n,
                n == self.entries@.len(),
                *self == *old(self),
                old(self).wf(),
                match index {
                    Some(k) => k < i && self.entries@[k as int].match_id@ == match_id@,
                    None => forall|j: int| 0 <= j < i ==> self.entries@[j].match_id@ != match_id@,
                },
            decreases n - i,
        {
            if self.entries[i].match_id == *match_id {
                index = Some(i);
            }
            i = i + 1;
        }
        match index {
            Some(k) => {
                self.entries.remove(k);
                let remaining = self.entries.len();
                proof {
                    let s_new = self.entries@;
                    let s_old = old(self).entries@;
                    assert(seq_contains_key(s_old, match_id@));
                    assert forall|a: int, b: int|
                        0 <= a < b < s_new.len() implies s_new[a].match_id@ != s_new[b].match_id@
                        by {
                        let a0: int = if a < k { a } else { a + 1 };
                        let b0: int = if b < k { b } else { b + 1 };
                        assert(s_new[a] == s_old[a0]);
                        assert(s_new[b] == s_old[b0]);
                        assert(s_old[a0].match_id@ != s_old[b0].match_id@);
                    }
                    assert forall|k2: Seq<char>|
                        #[trigger] seq_contains_key(s_new, k2) == (seq_contains_key(s_old, k2)
                            && k2 != match_id@) by {
                        if seq_contains_key(s_new, k2) {
                            let a = choose|a: int| 0 <= a < s_new.len() && s_new[a].match_id@
                                == k2;
                            let a0: int = if a < k { a } else { a + 1 };
                            assert(s_old[a0].match_id@ == k2);
                            if k2 == match_id@ {
                                assert(s_old[k as int].match_id@ == match_id@);
                                assert(a0 != k);
                                assert(false);
                            }
                        }
                        if seq_contains_key(s_old, k2) && k2 != match_id@ {
                            let a = choose|a: int| 0 <= a < s_old.len() && s_old[a].match_id@
                                == k2;
                            assert(a != k);
                            if a < k {
                                assert(s_new[a].match_id@ == k2);
                            } else {
                                assert(s_new[a - 1].match_id@ == k2);
                            }
                        }
                    }
                    assert forall|k2: Seq<char>|
                        seq_contains_key(s_new, k2) implies entries_view(s_new)[k2]
                        == entries_view(s_old)[k2] by {
                        let a = choose|a: int| 0 <= a < s_new.len() && s_new[a].match_id@ == k2;
                        let a0: int = if a < k { a } else { a + 1 };
                        assert(s_old[a0].match_id@ == k2);
                        lemma_entries_view_index(s_new, a);
                        lemma_entries_view_index(s_old, a0);
                        assert(s_new[a] == s_old[a0]);
                    }
                    assert(final(self)@ =~= old(self)@.remove(match_id@));
                }
                let now_idle = remaining == 0;
                proof {
                    if now_idle {
                        assert forall|k2: Seq<char>|
                            old(self)@.contains_key(k2) implies k2 == match_id@ by {
                            if k2 != match_id@ {
                                assert(seq_contains_key(self.entries@, k2));
                            }
                        }
                    } else {
                        assert(seq_contains_key(self.entries@, self.entries@[0].match_id@));
                        assert(old(self)@.contains_key(self.entries@[0].match_id@));
                        assert(self.entries@[0].match_id@ != match_id@);
                    }
                }
                RemoveOutcome { removed: true, remaining, now_idle }
            },
            None => {
                proof {
                    assert(!seq_contains_key(self.entries@, match_id@));
                    assert(final(self)@ =~= old(self)@.remove(match_id@));
                }
                RemoveOutcome { removed: false, remaining: self.entries.len(), now_idle: false }
            },
        }
    }
}

/// Teardown is idempotent at the registry: once a match is deregistered, a
/// repeated deregistration of the same match finds nothing and changes
/// nothing.
pub proof fn lemma_deregister_idempotent(m: Map<Seq<char>, Mailbox>, k: Seq<char>)
    ensures
        !m.remove(k).contains_key(k),
        m.remove(k).remove(k) =~= m.remove(k),
{
}

/// Shutdown fires at most once per idle transition: a removal that takes
/// the registry to idle leaves it empty, so no later removal can report an
/// idle transition again until a match is registered in between.
pub proof fn lemma_shutdown_at_most_once(m: Map<Seq<char>, Mailbox>, k1: Seq<char>, k2: Seq<char>)
    requires
        signals_idle(m, k1),
    ensures
        !signals_idle(m.remove(k1), k2),
{
}

/// The predicate held by the registry lock: the table is well-formed.
pub struct RegistryPred {}

impl RwLockPredicate<RegistryMap> for RegistryPred {
    open spec fn inv(self, v: RegistryMap) -> bool {
        v.wf()
    }
}

/// The shared, lock-guarded session registry.
///
/// One exclusive lock covers lookup, insertion, deletion and the active
/// count together, so the compound steps each operation performs are atomic
/// with respect to every other handler and actor: two simultaneous first
/// joins of one match see exactly one actor created, and the
/// empty-then-idle check of a teardown cannot interleave with another
/// actor's removal.
pub struct SessionRegistry {
    state: RwLock<RegistryMap, RegistryPred>,
    mailbox_capacity: usize,
}

impl SessionRegistry {
    /// Mailbox capacities a tokio channel can be built with.
    #[verifier::type_invariant]
    spec fn valid(&self) -> bool {
        1 <= self.mailbox_capacity <= max_mailbox_capacity()
    }

    /// The mailbox capacity this registry creates actors with.
    pub closed spec fn spec_capacity(&self) -> usize {
        self.mailbox_capacity
    }

    /// An empty registry whose actors get mailboxes buffering at most
    /// `mailbox_capacity` in-flight events; a small capacity gives
    /// backpressure against flooding senders.
    pub fn new(mailbox_capacity: usize) -> (r: SessionRegistry)
        requires
            1 <= mailbox_capacity <= max_mailbox_capacity(),
        ensures
            r.spec_capacity() == mailbox_capacity,
    {
        let map = RegistryMap::new();
        SessionRegistry { state: RwLock::new(map, Ghost(RegistryPred {})), mailbox_capacity }
    }

    /// Resolves `match_id` to its actor's mailbox, registering a fresh
    /// actor mailbox first when the match is unseen; one atomic
    /// check-and-act under the registry lock, per
    /// [`RegistryMap::get_or_create`].
    pub fn get_or_create(&self, match_id: &MatchId) -> (r: Resolved) {
        proof {
            use_type_invariant(self);
        }
        let (mut map, handle) = self.state.acquire_write();
        let r = map.get_or_create(match_id, self.mailbox_capacity);
        handle.release_write(map);
        r
    }

    /// Deregisters `match_id` and decides, in the same critical section,
    /// whether the process is now idle; per [`RegistryMap::remove`],
    /// `now_idle` holds exactly when an entry was removed and none remain.
    pub fn remove(&self, match_id: &MatchId) -> (r: RemoveOutcome)
        ensures
            r.now_idle == (r.removed && r.remaining == 0),
    {
        let (mut map, handle) = self.state.acquire_write();
        let r = map.remove(match_id);
        handle.release_write(map);
        r
    }

    /// The current number of registered matches; read-only.
    pub fn active_count(&self) -> usize {
        let handle = self.state.acquire_read();
        let n = handle.borrow().active_count();
        handle.release_read();
        n
    }

    /// Whether `match_id` is currently registered; read-only.
    pub fn contains(&self, match_id: &MatchId) -> bool {
        let handle = self.state.acquire_read();
        let r = handle.borrow().contains(match_id);
        handle.release_read();
        r
    }
}

} // verus!
