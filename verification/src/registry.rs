//! The session registry: the mapping from session identifier to the
//! session's visible state, one instance per transport kind.
//!
//! A session identifier is present exactly from successful registration
//! until the single removal performed by either the reader loop or the
//! lifecycle controller; a second removal of the same identifier is a
//! no-op reporting that the session was not found.  The registry also
//! keeps a book of every identifier it has ever handed out and never
//! issues one of them again, so that the listing laws can say that live
//! sessions carry previously issued, never-reused identifiers.
//!
//! Locking is the embedding process's concern: it wraps each registry in
//! a mutex of its own and keeps critical sections to these O(1) and O(n)
//! operations, never holding the lock across blocking I/O.

use vstd::prelude::*;

use crate::ids::fresh_id;
use crate::text::str_eq;

verus! {

/// The visible state of one live session: its identifier and its endpoint
/// metadata.  Telnet and SSH sessions carry a host and port; SSH sessions
/// carry a username; local terminal sessions carry neither.
pub struct SessionInfo {
    /// The opaque session identifier.
    pub id: String,
    /// The remote host, or empty for a local terminal session.
    pub host: String,
    /// The remote port, or zero for a local terminal session.
    pub port: u16,
    /// The username, for transports that authenticate.
    pub username: Option<String>,
}

/// A registry of live sessions for one transport kind.
pub struct Registry {
    entries: Vec<SessionInfo>,
    issued: Vec<String>,
    retired: Ghost<nat>,
}

impl Registry {
    /// The live sessions, in registration order.
    pub closed spec fn sessions(&self) -> Seq<SessionInfo> {
        self.entries@
    }

    /// Every identifier this registry has handed out, in order, including
    /// those of sessions since removed.
    pub closed spec fn issued_ids(&self) -> Seq<Seq<char>> {
        self.issued@.map_values(|s: String| s@)
    }

    /// How many sessions have been removed since creation, by either
    /// the reader loop or the lifecycle controller.
    pub closed spec fn retired_count(&self) -> nat {
        self.retired@
    }

    /// True when a live session carries the identifier.
    pub open spec fn contains_id(&self, id: Seq<char>) -> bool {
        exists|i: int| 0 <= i < self.sessions().len() && self.sessions()[i].id@ == id
    }

    /// Well-formedness: live identifiers are pairwise distinct and were
    /// all previously issued.
    pub open spec fn wf(&self) -> bool {
        &&& forall|i: int, j: int|
            0 <= i < j < self.sessions().len() ==> self.sessions()[i].id@ != self.sessions()[j].id@
        &&& forall|i: int|
            0 <= i < self.sessions().len() ==> self.issued_ids().contains(
                #[trigger] self.sessions()[i].id@,
            )
        &&& self.sessions().len() + self.retired_count() == self.issued_ids().len()
    }

    /// An empty registry.
    pub fn new() -> (r: Registry)
        ensures
            r.wf(),
            r.sessions() == Seq::<SessionInfo>::empty(),
            r.issued_ids() == Seq::<Seq<char>>::empty(),
            r.retired_count() == 0,
    {
        let r = Registry { entries: Vec::new(), issued: Vec::new(), retired: Ghost(0nat) };
        proof {
            assert(r.issued_ids() =~= Seq::<Seq<char>>::empty());
        }
        r
    }

    /// The number of live sessions.
    pub fn len(&self) -> (n: usize)
        ensures
            n == self.sessions().len(),
    {
        self.entries.len()
    }

    fn find_index(&self, id: &str) -> (r: Option<usize>)
        ensures
            match r {
                Some(i) => i < self.sessions().len() && self.sessions()[i as int].id@ == id@,
                None => !self.contains_id(id@),
            },
    {
        let n = self.entries.len();
        let mut i: usize = 0;
        while i < n
            invariant
                n == self.sessions().len(),
                i <= n,
                forall|k: int| 0 <= k < i ==> self.sessions()[k].id@ != id@,
            decreases n - i,
        {
            if str_eq(self.entries[i].id.as_str(), id) {
                return Some(i);
            }
            i = i + 1;
        }
        None
    }

    fn issued_contains(&self, id: &str) -> (b: bool)
        ensures
            b == self.issued_ids().contains(id@),
    {
        let n = self.issued.len();
        let mut i: usize = 0;
        while i < n
            invariant
                n == self.issued@.len(),
                i <= n,
                forall|k: int| 0 <= k < i ==> self.issued@[k]@ != id@,
            decreases n - i,
        {
            if str_eq(self.issued[i].as_str(), id) {
                proof {
                    assert(self.issued_ids()[i as int] == id@);
                }
                return true;
            }
            i = i + 1;
        }
        proof {
            if self.issued_ids().contains(id@) {
                let k = choose|k: int|
                    0 <= k < self.issued_ids().len() && self.issued_ids()[k] == id@;
                assert(self.issued@[k]@ == id@);
            }
        }
        false
    }

    /// True when a live session carries the identifier.
    pub fn contains(&self, id: &str) -> (b: bool)
        ensures
            b == self.contains_id(id@),
    {
        match self.find_index(id) {
            Some(_) => true,
            None => false,
        }
    }

    /// Inserts a session under a fresh identifier drawn at connect time
    /// and returns that identifier; the caller then starts the session's
    /// reader loop.  The identifier is checked against the book of every
    /// identifier ever issued, so one is never reused; in the vanishing
    /// case that the draw repeats a booked or live identifier, nothing
    /// changes and nothing is returned.
    pub fn register_new(&mut self, host: String, port: u16, username: Option<String>) -> (r: Option<
        String,
    >)
        ensures
            old(self).wf() ==> final (self).wf(),
            r matches Some(id) ==> {
                &&& !old(self).issued_ids().contains(id@)
                &&& !old(self).contains_id(id@)
                &&& final (self).contains_id(id@)
                &&& final (self).sessions() == old(self).sessions().push(
                    (SessionInfo { id, host, port, username }),
                )
                &&& final (self).issued_ids() == old(self).issued_ids().push(id@)
                &&& final (self).retired_count() == old(self).retired_count()
            },
            r is None ==> *final (self) == *old(self),
            old(self).sessions().len() == 0 && old(self).issued_ids().len() == 0 ==> r is Some,
    {
        let id = fresh_id();
        if self.issued_contains(id.as_str()) {
            return None;
        }
        match self.find_index(id.as_str()) {
            Some(_) => None,
            None => {
                let entry = SessionInfo {
                    id: id.clone(),
                    host,
                    port,
                    username,
                };
                let ghost old_sessions = self.entries@;
                let ghost old_ids = self.issued_ids();
                self.entries.push(entry);
                self.issued.push(id.clone());
                proof {
                    assert(self.entries@ =~= old_sessions.push(
                        (SessionInfo { id: id, host: host, port: port, username: username }),
                    ));
                    assert(self.entries@[old_sessions.len() as int].id@ == id@);
                    assert(self.issued_ids() =~= old_ids.push(id@));
                    if old(self).wf() {
                        assert forall|i: int|
                            0 <= i < self.entries@.len() implies self.issued_ids().contains(
                            #[trigger] self.entries@[i].id@,
                        ) by {
                            if i < old_sessions.len() {
                                assert(old_ids.contains(old_sessions[i].id@));
                                let w = choose|w: int|
                                    0 <= w < old_ids.len() && old_ids[w] == old_sessions[i].id@;
                                assert(self.issued_ids()[w] == old_sessions[i].id@);
                            } else {
                                assert(self.issued_ids().last() == id@);
                            }
                        }
                    }
                }
                Some(id)
            },
        }
    }

    /// Removes the session carrying the identifier, reporting whether it
    /// was live.  A second removal of the same identifier finds nothing
    /// and changes nothing.
    pub fn remove(&mut self, id: &str) -> (found: bool)
        ensures
            found == old(self).contains_id(id@),
            !found ==> *final (self) == *old(self),
            found ==> final (self).sessions().len() == old(self).sessions().len() - 1,
            found ==> final (self).retired_count() == old(self).retired_count() + 1,
            final (self).issued_ids() == old(self).issued_ids(),
            old(self).wf() ==> final (self).wf(),
            old(self).wf() ==> forall|x: Seq<char>|
                #[trigger] final (self).contains_id(x) <==> (old(self).contains_id(x) && x != id@),
    {
        match self.find_index(id) {
            Some(i) => {
                let ghost old_entries = self.entries@;
                self.entries.remove(i);
                proof {
                    self.retired@ = self.retired@ + 1;
                    assert(old(self).contains_id(id@));
                    assert(self.entries@ =~= old_entries.remove(i as int));
                    assert(forall|k: int|
                        0 <= k < i ==> self.entries@[k] == old_entries[k]);
                    assert(forall|k: int|
                        i <= k < self.entries@.len() ==> self.entries@[k] == old_entries[k + 1]);
                    if old(self).wf() {
                        assert forall|x: Seq<char>|
                            #[trigger] self.contains_id(x) <==> (old(self).contains_id(x) && x
                            != id@) by {
                            if self.contains_id(x) {
                                let k = choose|k: int|
                                    0 <= k < self.entries@.len() && self.entries@[k].id@ == x;
                                if k < i {
                                    assert(old_entries[k].id@ == x);
                                    assert(old_entries[k].id@ != old_entries[i as int].id@);
                                } else {
                                    assert(old_entries[k + 1].id@ == x);
                                    assert(old_entries[k + 1].id@ != old_entries[i as int].id@);
                                }
                            }
                            if old(self).contains_id(x) && x != id@ {
                                let k = choose|k: int|
                                    0 <= k < old_entries.len() && old_entries[k].id@ == x;
                                assert(k != i);
                                if k < i {
                                    assert(self.entries@[k].id@ == x);
                                } else {
                                    assert(self.entries@[k - 1].id@ == x);
                                }
                            }
                        }
                    }
                }
                true
            },
            None => false,
        }
    }

    /// The summaries of the live sessions, in registration order.
    pub fn list(&self) -> (v: Vec<SessionInfo>)
        ensures
            v@ == self.sessions(),
    {
        let n = self.entries.len();
        let mut v: Vec<SessionInfo> = Vec::new();
        let mut i: usize = 0;
        while i < n
            invariant
                n == self.sessions().len(),
                i <= n,
                v@ == self.sessions().take(i as int),
            decreases n - i,
        {
            let e = &self.entries[i];
            let username = match &e.username {
                Some(u) => Some(u.clone()),
                None => None,
            };
            let copy = SessionInfo { id: e.id.clone(), host: e.host.clone(), port: e.port, username };
            assert(copy == self.sessions()[i as int]);
            v.push(copy);
            proof {
                assert(self.sessions().take(i + 1 as int) =~= self.sessions().take(i as int).push(
                    self.sessions()[i as int],
                ));
            }
            i = i + 1;
        }
        proof {
            assert(self.sessions().take(n as int) =~= self.sessions());
        }
        v
    }
}

/// Law: under well-formedness, the listing holds exactly as many
/// entries as identifiers issued minus sessions retired — after N
/// successful connects and M removals the listing has N − M rows — and
/// the rows carry pairwise distinct, previously issued identifiers.
pub proof fn lemma_list_reports_live_sessions(r: &Registry)
    requires
        r.wf(),
    ensures
        r.sessions().len() == r.issued_ids().len() - r.retired_count(),
        forall|i: int, j: int|
            0 <= i < j < r.sessions().len() ==> r.sessions()[i].id@ != r.sessions()[j].id@,
        forall|i: int|
            0 <= i < r.sessions().len() ==> r.issued_ids().contains(#[trigger] r.sessions()[i].id@),
{
}

/// Law: an identifier that was never issued is never found, so a write or
/// disconnect against it deterministically reports that the session does
/// not exist.
pub proof fn lemma_unissued_id_not_found(r: &Registry, id: Seq<char>)
    requires
        r.wf(),
        !r.issued_ids().contains(id),
    ensures
        !r.contains_id(id),
{
    if r.contains_id(id) {
        let i = choose|i: int| 0 <= i < r.sessions().len() && r.sessions()[i].id@ == id;
        assert(r.issued_ids().contains(r.sessions()[i].id@));
    }
}

} // verus!
