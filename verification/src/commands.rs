use vstd::prelude::*;

use crate::errors::SessionError;
use crate::ids::fresh_session_id;
use crate::registry::TerminalManager;
use crate::session::PtySession;
use crate::session::TerminalInfo;
use crate::shutdown::signal_shutdown;

verus! {

/// The rows a session is opened with when the caller names none.
pub open spec fn effective_rows(rows: Option<u16>) -> u16 {
    match rows {
        Some(r) => r,
        None => 24,
    }
}

/// The columns a session is opened with when the caller names none.
pub open spec fn effective_cols(cols: Option<u16>) -> u16 {
    match cols {
        Some(c) => c,
        None => 80,
    }
}

/// The geometry a session is opened with: the caller's values where given,
/// the defaults where not. The embedding sizes the pseudo-terminal with
/// exactly the geometry the registered session will record.
pub fn effective_geometry(rows: Option<u16>, cols: Option<u16>) -> (g: (u16, u16))
    ensures
        g.0 == effective_rows(rows),
        g.1 == effective_cols(cols),
{
    let r = match rows {
        Some(r) => r,
        None => 24,
    };
    let c = match cols {
        Some(c) => c,
        None => 80,
    };
    (r, c)
}

/// How a successful spawn changes the table: the identifier was never used
/// before, is now recorded as used, and resolves to a session carrying the
/// requested geometry and endpoints; every other session is untouched.
pub open spec fn spawn_transition<H>(
    pre: TerminalManager<H>,
    post: TerminalManager<H>,
    id: Seq<char>,
    rows: u16,
    cols: u16,
    handles: H,
) -> bool {
    &&& !pre.used_set().contains(id)
    &&& post.used_set() == pre.used_set().insert(id)
    &&& post.contains_id(id)
    &&& post.session_for(id).id@ == id
    &&& post.session_for(id).rows == rows
    &&& post.session_for(id).cols == cols
    &&& post.session_for(id).handles == handles
    &&& post.live_count() == pre.live_count() + 1
    &&& forall|o: Seq<char>| o != id ==> (post.contains_id(o) <==> pre.contains_id(o))
    &&& forall|o: Seq<char>|
        o != id && pre.contains_id(o) ==> post.session_for(o) == pre.session_for(o)
}

/// How a successful resize changes the table: the named session now records
/// the new geometry and is otherwise the same session; nothing else moves.
pub open spec fn resize_transition<H>(
    pre: TerminalManager<H>,
    post: TerminalManager<H>,
    id: Seq<char>,
    rows: u16,
    cols: u16,
) -> bool {
    &&& pre.contains_id(id)
    &&& post.contains_id(id)
    &&& post.used_set() == pre.used_set()
    &&& post.live_count() == pre.live_count()
    &&& post.session_for(id) == (PtySession { rows, cols, ..pre.session_for(id) })
    &&& forall|o: Seq<char>| o != id ==> (post.contains_id(o) <==> pre.contains_id(o))
    &&& forall|o: Seq<char>|
        o != id && pre.contains_id(o) ==> post.session_for(o) == pre.session_for(o)
}

/// How a successful close changes the table: the named session is gone, its
/// identifier stays recorded as used, and every other session is untouched.
pub open spec fn close_transition<H>(
    pre: TerminalManager<H>,
    post: TerminalManager<H>,
    id: Seq<char>,
) -> bool {
    &&& pre.contains_id(id)
    &&& !post.contains_id(id)
    &&& post.used_set() == pre.used_set()
    &&& post.live_count() == pre.live_count() - 1
    &&& forall|o: Seq<char>| o != id ==> (post.contains_id(o) <==> pre.contains_id(o))
    &&& forall|o: Seq<char>|
        o != id && pre.contains_id(o) ==> post.session_for(o) == pre.session_for(o)
}

/// Appending a session with a fresh identifier leaves every existing session
/// resolvable exactly as before and makes the new identifier resolve to the
/// appended session.
proof fn lemma_registry_pushed<H>(
    pre: TerminalManager<H>,
    post: TerminalManager<H>,
    s: PtySession<H>,
)
    requires
        pre.wf(),
        post.wf(),
        !pre.contains_id(s.id@),
        post.sessions_seq() == pre.sessions_seq().push(s),
    ensures
        post.contains_id(s.id@),
        post.session_for(s.id@) == s,
        post.live_count() == pre.live_count() + 1,
        forall|o: Seq<char>| o != s.id@ ==> (post.contains_id(o) <==> pre.contains_id(o)),
        forall|o: Seq<char>|
            o != s.id@ && pre.contains_id(o) ==> post.session_for(o) == pre.session_for(o),
{
    let pres = pre.sessions_seq();
    let posts = post.sessions_seq();
    let n = pres.len() as int;
    assert(posts[n] == s);
    post.lemma_slot_resolves(n);
    assert forall|o: Seq<char>| o != s.id@ implies (post.contains_id(o) <==> pre.contains_id(
        o,
    )) by {
        if post.contains_id(o) {
            let k = choose|k: int| 0 <= k < posts.len() && (#[trigger] posts[k]).id@ == o;
            assert(k < n);
            assert(pres[k].id@ == o);
        }
        if pre.contains_id(o) {
            let k = choose|k: int| 0 <= k < pres.len() && (#[trigger] pres[k]).id@ == o;
            assert(posts[k].id@ == o);
        }
    }
    assert forall|o: Seq<char>| o != s.id@ && pre.contains_id(o) implies post.session_for(o)
        == pre.session_for(o) by {
        pre.lemma_contains_resolves(o);
        let k = pre.index_for(o);
        assert(posts[k] == pres[k]);
        post.lemma_slot_resolves(k);
    }
}

/// Register a session under an already-minted identifier: the spawn
/// protocol's final step, shared by both spawn modes. The caller has already
/// opened the pseudo-terminal with the effective geometry and spawned the
/// child; this step refuses an identifier that was ever used before, so a
/// registered identifier is unique across the table's lifetime.
pub fn register_session<H>(
    mgr: &mut TerminalManager<H>,
    id: String,
    rows: Option<u16>,
    cols: Option<u16>,
    handles: H,
) -> (r: Result<String, SessionError>)
    requires
        old(mgr).wf(),
    ensures
        final(mgr).wf(),
        !old(mgr).used_set().contains(id@) ==> (r matches Ok(out) && out@ == id@
            && spawn_transition(
            *old(mgr),
            *final(mgr),
            id@,
            effective_rows(rows),
            effective_cols(cols),
            handles,
        )),
        old(mgr).used_set().contains(id@) ==> (r matches Err(e) && e is DuplicateId && *final(mgr)
            == *old(mgr)),
{
    if mgr.was_used(&id) {
        return Err(SessionError::DuplicateId);
    }
    proof {
        if mgr.contains_id(id@) {
            let k = choose|k: int|
                0 <= k < mgr.sessions_seq().len() && (#[trigger] mgr.sessions_seq()[k]).id@
                    == id@;
            assert(mgr.ever_used(mgr.sessions_seq()[k].id@));
        }
    }
    let rows_v = match rows {
        Some(r) => r,
        None => 24,
    };
    let cols_v = match cols {
        Some(c) => c,
        None => 80,
    };
    let ghost pre = *mgr;
    let out = id.clone();
    let session = PtySession::new(id, rows_v, cols_v, handles);
    let ghost snap = session;
    match mgr.add_terminal(session) {
        Ok(_) => {
            proof {
                lemma_registry_pushed(pre, *mgr, snap);
                assert(mgr.used_set() =~= pre.used_set().insert(snap.id@));
            }
            Ok(out)
        },
        Err(_) => {
            proof {
                assert(false);
            }
            Err(SessionError::DuplicateId)
        },
    }
}

/// Spawn: mint a fresh identifier and register the session built around the
/// endpoints the caller acquired for it. On success the identifier is
/// returned in its 36-character textual form; the only failure is a minted
/// identifier that was already used, which signals a broken generator, and
/// leaves the table exactly as it was. Since every minted identifier is 36
/// characters long, spawning is owed success whenever no identifier of that
/// length was ever used — in particular against a fresh table.
pub fn spawn_terminal<H>(
    mgr: &mut TerminalManager<H>,
    rows: Option<u16>,
    cols: Option<u16>,
    handles: H,
) -> (r: Result<String, SessionError>)
    requires
        old(mgr).wf(),
    ensures
        final(mgr).wf(),
        r matches Ok(id) ==> (id@.len() == 36 && spawn_transition(
            *old(mgr),
            *final(mgr),
            id@,
            effective_rows(rows),
            effective_cols(cols),
            handles,
        )),
        r matches Err(e) ==> (e is DuplicateId && *final(mgr) == *old(mgr)),
        (forall|s: Seq<char>| #[trigger] old(mgr).used_set().contains(s) ==> s.len() != 36)
            ==> r is Ok,
{
    let id = fresh_session_id();
    let ghost minted = id@;
    let r = register_session(mgr, id, rows, cols, handles);
    proof {
        if old(mgr).used_set().contains(minted) {
            assert(minted.len() == 36);
        }
    }
    r
}

/// Write: resolve the session the payload is destined for. The caller
/// delivers the bytes to the returned endpoints (a full write followed by a
/// flush) and propagates any I/O failure verbatim; an identifier absent from
/// the table is refused as not-found, with no effect on the table.
pub fn write_to_terminal<'a, H>(mgr: &'a TerminalManager<H>, session_id: &String) -> (r: Result<
    &'a H,
    SessionError,
>)
    requires
        mgr.wf(),
    ensures
        r is Ok <==> mgr.contains_id(session_id@),
        r matches Ok(h) ==> *h == mgr.session_for(session_id@).handles,
        r matches Err(e) ==> e is NotFound,
{
    match mgr.get_terminal(session_id) {
        Some(s) => Ok(&s.handles),
        None => Err(SessionError::NotFound),
    }
}

/// Resize: record the new geometry for the session, so that later snapshots
/// report it. The caller applies the same geometry to the pseudo-terminal's
/// master side and propagates any I/O failure verbatim; an identifier absent
/// from the table is refused as not-found, with no effect on the table.
pub fn resize_terminal<H>(
    mgr: &mut TerminalManager<H>,
    session_id: &String,
    cols: u16,
    rows: u16,
) -> (r: Result<(), SessionError>)
    requires
        old(mgr).wf(),
    ensures
        final(mgr).wf(),
        r is Ok <==> old(mgr).contains_id(session_id@),
        r is Ok ==> resize_transition(*old(mgr), *final(mgr), session_id@, rows, cols),
        r matches Err(e) ==> (e is NotFound && *final(mgr) == *old(mgr)),
{
    if mgr.set_session_geometry(session_id, rows, cols) {
        Ok(())
    } else {
        Err(SessionError::NotFound)
    }
}

/// Close: remove the session from the table, then signal its pump's
/// cancellation channel on a best-effort basis. The pump is not joined; it
/// stops on its own once it observes end-of-stream or an error. An
/// identifier absent from the table is refused as not-found, with no effect
/// on the table's entries.
pub fn close_terminal<H>(mgr: &mut TerminalManager<H>, session_id: &String) -> (r: Result<
    (),
    SessionError,
>)
    requires
        old(mgr).wf(),
    ensures
        final(mgr).wf(),
        r is Ok <==> old(mgr).contains_id(session_id@),
        r is Ok ==> close_transition(*old(mgr), *final(mgr), session_id@),
        r matches Err(e) ==> (e is NotFound && *final(mgr) == *old(mgr)),
{
    match mgr.remove_terminal(session_id) {
        Some(session) => {
            signal_shutdown(&session.shutdown_tx);
            Ok(())
        },
        None => Err(SessionError::NotFound),
    }
}

/// List: a snapshot of descriptors for every live session. Never fails.
pub fn list_terminals<H>(mgr: &TerminalManager<H>) -> (r: Vec<TerminalInfo>)
    ensures
        r@.len() == mgr.sessions_seq().len(),
        forall|i: int|
            0 <= i < r@.len() ==> {
                &&& (#[trigger] r@[i]).id@ == mgr.sessions_seq()[i].id@
                &&& r@[i].title@ == crate::session::spec_label(mgr.sessions_seq()[i].id@)
                &&& r@[i].rows == mgr.sessions_seq()[i].rows
                &&& r@[i].cols == mgr.sessions_seq()[i].cols
            },
{
    mgr.list_terminals()
}

} // verus!
