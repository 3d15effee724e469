use vstd::prelude::*;

use crate::errors::SessionError;
use crate::session::PtySession;
use crate::session::TerminalInfo;
use crate::session::session_label;
use crate::session::spec_label;

verus! {

/// The process-wide table of live sessions: the single source of truth for
/// which sessions exist. Keys are the session identifiers; alongside the
/// live table it remembers every identifier it has ever accepted, so that a
/// spawn can refuse an identifier that would break uniqueness across the
/// process lifetime.
///
/// The table itself is sequential; an embedding that serves concurrent
/// callers guards one manager behind its own mutual exclusion and keeps
/// session I/O outside that critical section, as the command surface only
/// ever borrows a session's endpoints out of the table.
pub struct TerminalManager<H> {
    sessions: Vec<PtySession<H>>,
    used_ids: Vec<String>,
}

impl<H> TerminalManager<H> {
    /// The live sessions, in insertion order.
    pub closed spec fn sessions_seq(self) -> Seq<PtySession<H>> {
        self.sessions@
    }

    /// How many sessions are live.
    pub open spec fn live_count(self) -> nat {
        self.sessions_seq().len()
    }

    /// Whether a session with this identifier is live.
    pub open spec fn contains_id(self, id: Seq<char>) -> bool {
        exists|i: int|
            0 <= i < self.sessions_seq().len() && (#[trigger] self.sessions_seq()[i]).id@ == id
    }

    /// Whether this identifier was ever accepted into the table, live or not.
    pub closed spec fn ever_used(self, id: Seq<char>) -> bool {
        exists|i: int| 0 <= i < self.used_ids@.len() && (#[trigger] self.used_ids@[i])@ == id
    }

    /// Every identifier ever accepted, as a set.
    pub open spec fn used_set(self) -> Set<Seq<char>> {
        Set::new(|id: Seq<char>| self.ever_used(id))
    }

    /// The position of the live session with this identifier.
    pub closed spec fn index_for(self, id: Seq<char>) -> int {
        choose|i: int|
            0 <= i < self.sessions_seq().len() && (#[trigger] self.sessions_seq()[i]).id@ == id
    }

    /// The live session with this identifier (meaningful when `contains_id`).
    pub open spec fn session_for(self, id: Seq<char>) -> PtySession<H> {
        self.sessions_seq()[self.index_for(id)]
    }

    /// Well-formedness: live identifiers are pairwise distinct, and every
    /// live identifier is recorded as used.
    pub open spec fn wf(self) -> bool {
        &&& forall|i: int, j: int|
            0 <= i < j < self.sessions_seq().len() ==> (#[trigger] self.sessions_seq()[i]).id@
                != (#[trigger] self.sessions_seq()[j]).id@
        &&& forall|i: int|
            0 <= i < self.sessions_seq().len() ==> self.ever_used(
                (#[trigger] self.sessions_seq()[i]).id@,
            )
    }

    /// Two tables with the same record of used identifiers agree on
    /// `ever_used`.
    proof fn lemma_used_agree(self, other: Self)
        requires
            self.used_ids@ == other.used_ids@,
        ensures
            forall|x: Seq<char>| self.ever_used(x) == other.ever_used(x),
    {
        assert forall|x: Seq<char>| self.ever_used(x) == other.ever_used(x) by {
            if self.ever_used(x) {
                let k = choose|k: int|
                    0 <= k < self.used_ids@.len() && (#[trigger] self.used_ids@[k])@ == x;
                assert(other.used_ids@[k]@ == x);
            }
            if other.ever_used(x) {
                let k = choose|k: int|
                    0 <= k < other.used_ids@.len() && (#[trigger] other.used_ids@[k])@ == x;
                assert(self.used_ids@[k]@ == x);
            }
        }
    }

    /// In a well-formed table the occupant of any slot is the session its
    /// identifier resolves to.
    pub proof fn lemma_slot_resolves(self, i: int)
        requires
            self.wf(),
            0 <= i < self.sessions_seq().len(),
        ensures
            self.contains_id(self.sessions_seq()[i].id@),
            self.index_for(self.sessions_seq()[i].id@) == i,
            self.session_for(self.sessions_seq()[i].id@) == self.sessions_seq()[i],
    {
        let id = self.sessions_seq()[i].id@;
        assert(self.contains_id(id));
        let j = self.index_for(id);
        assert(0 <= j < self.sessions_seq().len() && self.sessions_seq()[j].id@ == id);
        if i < j {
            assert(self.sessions_seq()[i].id@ != self.sessions_seq()[j].id@);
        } else if j < i {
            assert(self.sessions_seq()[j].id@ != self.sessions_seq()[i].id@);
        }
    }

    /// A live identifier resolves to a slot holding a session that carries
    /// that identifier.
    pub proof fn lemma_contains_resolves(self, id: Seq<char>)
        requires
            self.wf(),
            self.contains_id(id),
        ensures
            0 <= self.index_for(id) < self.sessions_seq().len(),
            self.sessions_seq()[self.index_for(id)] == self.session_for(id),
            self.session_for(id).id@ == id,
    {
        let i = choose|i: int|
            0 <= i < self.sessions_seq().len() && (#[trigger] self.sessions_seq()[i]).id@ == id;
        self.lemma_slot_resolves(i);
    }

    /// An empty table.
    pub fn new() -> (m: Self)
        ensures
            m.wf(),
            m.live_count() == 0,
            forall|id: Seq<char>| !m.contains_id(id),
            forall|id: Seq<char>| !m.ever_used(id),
            m.used_set() == Set::<Seq<char>>::empty(),
    {
        let m = TerminalManager { sessions: Vec::new(), used_ids: Vec::new() };
        proof {
            assert(m.used_set() =~= Set::<Seq<char>>::empty());
        }
        m
    }

    /// Scan the live table for an identifier.
    fn find_index(&self, id: &String) -> (r: Option<usize>)
        ensures
            match r {
                Some(i) => 0 <= i < self.sessions_seq().len() && self.sessions_seq()[i as int].id@
                    == id@,
                None => !self.contains_id(id@),
            },
    {
        let mut i: usize = 0;
        while i < self.sessions.len()
            invariant
                i <= self.sessions@.len(),
                forall|k: int| 0 <= k < i ==> (#[trigger] self.sessions@[k]).id@ != id@,
            decreases self.sessions@.len() - i,
        {
            if self.sessions[i].id == *id {
                return Some(i);
            }
            i += 1;
        }
        None
    }

    /// Whether this identifier was ever accepted into the table.
    pub fn was_used(&self, id: &String) -> (r: bool)
        ensures
            r == self.ever_used(id@),
    {
        let mut i: usize = 0;
        while i < self.used_ids.len()
            invariant
                i <= self.used_ids@.len(),
                forall|k: int| 0 <= k < i ==> (#[trigger] self.used_ids@[k])@ != id@,
            decreases self.used_ids@.len() - i,
        {
            if self.used_ids[i] == *id {
                return true;
            }
            i += 1;
        }
        false
    }

    /// Share the live session with this identifier, without removing it.
    pub fn get_terminal(&self, id: &String) -> (r: Option<&PtySession<H>>)
        requires
            self.wf(),
        ensures
            r is Some <==> self.contains_id(id@),
            r matches Some(s) ==> *s == self.session_for(id@) && s.id@ == id@,
    {
        match self.find_index(id) {
            Some(i) => {
                proof {
                    self.lemma_slot_resolves(i as int);
                }
                Some(&self.sessions[i])
            },
            None => None,
        }
    }

    /// Insert a session under its identifier; refused when the identifier is
    /// already live, which callers treat as an invariant violation rather
    /// than a user-facing outcome.
    pub fn add_terminal(&mut self, session: PtySession<H>) -> (r: Result<(), SessionError>)
        requires
            old(self).wf(),
        ensures
            final(self).wf(),
            old(self).contains_id(session.id@) ==> (r matches Err(e) && e is DuplicateId
                && *final(self) == *old(self)),
            !old(self).contains_id(session.id@) ==> {
                &&& r is Ok
                &&& final(self).sessions_seq() == old(self).sessions_seq().push(session)
                &&& final(self).used_set() == old(self).used_set().insert(session.id@)
                &&& final(self).ever_used(session.id@)
            },
    {
        if self.find_index(&session.id).is_some() {
            return Err(SessionError::DuplicateId);
        }
        let ghost pre = *self;
        self.used_ids.push(session.id.clone());
        self.sessions.push(session);
        proof {
            let sid = session.id@;
            assert forall|x: Seq<char>| self.ever_used(x) implies pre.ever_used(x) || x == sid by {
                let k = choose|k: int|
                    0 <= k < self.used_ids@.len() && (#[trigger] self.used_ids@[k])@ == x;
                if k < pre.used_ids@.len() {
                    assert(pre.used_ids@[k]@ == x);
                }
            }
            assert forall|x: Seq<char>| pre.ever_used(x) implies self.ever_used(x) by {
                let k = choose|k: int|
                    0 <= k < pre.used_ids@.len() && (#[trigger] pre.used_ids@[k])@ == x;
                assert(self.used_ids@[k]@ == x);
            }
            assert(self.ever_used(sid)) by {
                assert(self.used_ids@[self.used_ids@.len() - 1]@ == sid);
            }
            assert(self.used_set() =~= pre.used_set().insert(sid));
            assert forall|i2: int| 0 <= i2 < self.sessions_seq().len() implies self.ever_used(
                (#[trigger] self.sessions_seq()[i2]).id@,
            ) by {
                if i2 < pre.sessions_seq().len() {
                    assert(pre.ever_used(pre.sessions_seq()[i2].id@));
                } else {
                    assert(self.sessions_seq()[i2] == session);
                }
            }
            assert forall|i: int, j: int|
                0 <= i < j < self.sessions_seq().len() implies (
            #[trigger] self.sessions_seq()[i]).id@ != (#[trigger] self.sessions_seq()[j]).id@ by {
                if j < pre.sessions_seq().len() {
                } else {
                    assert(self.sessions_seq()[j] == session);
                    assert(pre.sessions_seq()[i].id@ != sid);
                }
            }
        }
        Ok(())
    }

    /// Remove and return the session with this identifier, if it is live.
    pub fn remove_terminal(&mut self, id: &String) -> (r: Option<PtySession<H>>)
        requires
            old(self).wf(),
        ensures
            final(self).wf(),
            final(self).used_set() == old(self).used_set(),
            r is Some <==> old(self).contains_id(id@),
            r is None ==> *final(self) == *old(self),
            r matches Some(s) ==> {
                &&& s == old(self).session_for(id@)
                &&& s.id@ == id@
                &&& !final(self).contains_id(id@)
                &&& final(self).live_count() == old(self).live_count() - 1
                &&& forall|o: Seq<char>|
                    o != id@ ==> (final(self).contains_id(o) <==> old(self).contains_id(o))
                &&& forall|o: Seq<char>|
                    o != id@ && old(self).contains_id(o)
                        ==> final(self).session_for(o) == old(self).session_for(o)
            },
    {
        match self.find_index(id) {
            Some(i) => {
                proof {
                    self.lemma_slot_resolves(i as int);
                }
                let ghost pre = *self;
                let s = self.sessions.remove(i);
                proof {
                    pre.lemma_used_agree(*self);
                    lemma_registry_removed(pre, *self, i as int, id@);
                    assert(self.used_set() =~= pre.used_set());
                }
                Some(s)
            },
            None => None,
        }
    }

    /// Record a new geometry for the session with this identifier; reports
    /// whether the session was found. Everything else about the table, and
    /// everything else about that session, is untouched.
    pub fn set_session_geometry(&mut self, id: &String, rows: u16, cols: u16) -> (r: bool)
        requires
            old(self).wf(),
        ensures
            final(self).wf(),
            r == old(self).contains_id(id@),
            !r ==> *final(self) == *old(self),
            r ==> {
                &&& final(self).used_set() == old(self).used_set()
                &&& final(self).live_count() == old(self).live_count()
                &&& final(self).contains_id(id@)
                &&& final(self).session_for(id@) == (PtySession {
                    rows,
                    cols,
                    ..old(self).session_for(id@)
                })
                &&& forall|o: Seq<char>|
                    o != id@ ==> (final(self).contains_id(o) <==> old(self).contains_id(o))
                &&& forall|o: Seq<char>|
                    o != id@ && old(self).contains_id(o)
                        ==> final(self).session_for(o) == old(self).session_for(o)
            },
    {
        match self.find_index(id) {
            Some(i) => {
                proof {
                    self.lemma_slot_resolves(i as int);
                }
                let ghost pre = *self;
                let slot = &mut self.sessions[i];
                slot.rows = rows;
                slot.cols = cols;
                proof {
                    pre.lemma_used_agree(*self);
                    lemma_registry_updated(pre, *self, i as int, id@);
                    assert(self.used_set() =~= pre.used_set());
                }
                true
            },
            None => false,
        }
    }

    /// A snapshot of descriptors for every live session, in table order:
    /// identifier, display label, and the geometry currently on record.
    /// Later table mutations do not affect a returned snapshot.
    pub fn list_terminals(&self) -> (r: Vec<TerminalInfo>)
        ensures
            r@.len() == self.sessions_seq().len(),
            forall|i: int|
                0 <= i < r@.len() ==> {
                    &&& (#[trigger] r@[i]).id@ == self.sessions_seq()[i].id@
                    &&& r@[i].title@ == spec_label(self.sessions_seq()[i].id@)
                    &&& r@[i].rows == self.sessions_seq()[i].rows
                    &&& r@[i].cols == self.sessions_seq()[i].cols
                },
    {
        let mut out: Vec<TerminalInfo> = Vec::new();
        let mut i: usize = 0;
        while i < self.sessions.len()
            invariant
                i <= self.sessions@.len(),
                out@.len() == i,
                forall|k: int|
                    0 <= k < i ==> {
                        &&& (#[trigger] out@[k]).id@ == self.sessions@[k].id@
                        &&& out@[k].title@ == spec_label(self.sessions@[k].id@)
                        &&& out@[k].rows == self.sessions@[k].rows
                        &&& out@[k].cols == self.sessions@[k].cols
                    },
            decreases self.sessions@.len() - i,
        {
            let s = &self.sessions[i];
            let info = TerminalInfo {
                id: s.id.clone(),
                title: session_label(s.id.as_str()),
                rows: s.rows,
                cols: s.cols,
            };
            out.push(info);
            i += 1;
        }
        out
    }
}

/// After removing the slot at `i`, the table is still well-formed, the
/// removed identifier is gone, and every other session is untouched.
proof fn lemma_registry_removed<H>(
    pre: TerminalManager<H>,
    post: TerminalManager<H>,
    i: int,
    id: Seq<char>,
)
    requires
        pre.wf(),
        0 <= i < pre.sessions_seq().len(),
        pre.sessions_seq()[i].id@ == id,
        post.sessions_seq() == pre.sessions_seq().remove(i),
        forall|x: Seq<char>| pre.ever_used(x) == post.ever_used(x),
    ensures
        post.wf(),
        !post.contains_id(id),
        forall|o: Seq<char>| o != id ==> (post.contains_id(o) <==> pre.contains_id(o)),
        forall|o: Seq<char>|
            o != id && pre.contains_id(o) ==> post.session_for(o) == pre.session_for(o),
{
    let pres = pre.sessions_seq();
    let posts = post.sessions_seq();
    pres.remove_ensures(i);
    assert(posts.len() == pres.len() - 1);
    assert(post.wf()) by {
        assert forall|a: int, b: int| 0 <= a < b < posts.len() implies (#[trigger] posts[a]).id@
            != (#[trigger] posts[b]).id@ by {
            let a0 = if a < i { a } else { a + 1 };
            let b0 = if b < i { b } else { b + 1 };
            assert(pres[a0].id@ != pres[b0].id@);
        }
        assert forall|k: int| 0 <= k < posts.len() implies post.ever_used(
            (#[trigger] posts[k]).id@,
        ) by {
            let k0 = if k < i { k } else { k + 1 };
            assert(pre.ever_used(pres[k0].id@));
        }
    }
    assert forall|k: int| 0 <= k < posts.len() implies (#[trigger] posts[k]).id@ != id by {
        let k0 = if k < i { k } else { k + 1 };
        assert(k0 != i);
        if k0 < i {
            assert(pres[k0].id@ != pres[i].id@);
        } else {
            assert(pres[i].id@ != pres[k0].id@);
        }
    }
    assert forall|o: Seq<char>| o != id implies (post.contains_id(o) <==> pre.contains_id(o)) by {
        if post.contains_id(o) {
            let k = choose|k: int|
                0 <= k < posts.len() && (#[trigger] posts[k]).id@ == o;
            let k0 = if k < i { k } else { k + 1 };
            assert(pres[k0].id@ == o);
        }
        if pre.contains_id(o) {
            let k0 = choose|k0: int|
                0 <= k0 < pres.len() && (#[trigger] pres[k0]).id@ == o;
            let k = if k0 < i { k0 } else { k0 - 1 };
            assert(posts[k].id@ == o);
        }
    }
    assert forall|o: Seq<char>| o != id && pre.contains_id(o) implies post.session_for(o)
        == pre.session_for(o) by {
        let k0 = pre.index_for(o);
        pre.lemma_slot_resolves(k0);
        let k = if k0 < i { k0 } else { k0 - 1 };
        assert(posts[k] == pres[k0]);
        post.lemma_slot_resolves(k);
    }
}

/// After replacing the slot at `i` with a session carrying the same
/// identifier, the table is still well-formed and every other session is
/// untouched.
proof fn lemma_registry_updated<H>(
    pre: TerminalManager<H>,
    post: TerminalManager<H>,
    i: int,
    id: Seq<char>,
)
    requires
        pre.wf(),
        0 <= i < pre.sessions_seq().len(),
        pre.sessions_seq()[i].id@ == id,
        post.sessions_seq() == pre.sessions_seq().update(i, post.sessions_seq()[i]),
        post.sessions_seq()[i].id@ == id,
        forall|x: Seq<char>| pre.ever_used(x) == post.ever_used(x),
    ensures
        post.wf(),
        post.contains_id(id),
        post.index_for(id) == i,
        post.session_for(id) == post.sessions_seq()[i],
        forall|o: Seq<char>| o != id ==> (post.contains_id(o) <==> pre.contains_id(o)),
        forall|o: Seq<char>|
            o != id && pre.contains_id(o) ==> post.session_for(o) == pre.session_for(o),
{
    let pres = pre.sessions_seq();
    let posts = post.sessions_seq();
    assert(posts.len() == pres.len());
    assert forall|k: int| 0 <= k < posts.len() implies (#[trigger] posts[k]).id@
        == (#[trigger] pres[k]).id@ by {}
    assert(post.wf()) by {
        assert forall|k: int| 0 <= k < posts.len() implies post.ever_used(
            (#[trigger] posts[k]).id@,
        ) by {
            assert(pre.ever_used(pres[k].id@));
        }
    }
    post.lemma_slot_resolves(i);
    assert forall|o: Seq<char>| o != id implies (post.contains_id(o) <==> pre.contains_id(o)) by {
        if post.contains_id(o) {
            let k = choose|k: int|
                0 <= k < posts.len() && (#[trigger] posts[k]).id@ == o;
            assert(pres[k].id@ == o);
        }
        if pre.contains_id(o) {
            let k = choose|k: int|
                0 <= k < pres.len() && (#[trigger] pres[k]).id@ == o;
            assert(posts[k].id@ == o);
        }
    }
    assert forall|o: Seq<char>| o != id && pre.contains_id(o) implies post.session_for(o)
        == pre.session_for(o) by {
        let k = pre.index_for(o);
        pre.lemma_slot_resolves(k);
        assert(k != i);
        assert(posts[k] == pres[k]);
        post.lemma_slot_resolves(k);
    }
}

} // verus!
