use vstd::prelude::*;

use crate::commands::close_transition;
use crate::commands::resize_transition;
use crate::commands::spawn_transition;
use crate::registry::TerminalManager;

verus! {

/// Identifiers returned by successful spawns are unique across the table's
/// whole lifetime. Each spawn adds its identifier to the set of identifiers
/// ever used and refuses one already in that set; every other operation's
/// contract keeps the set intact or grows it. So whenever a spawn succeeds
/// after an earlier spawn, with any operations in between that kept the
/// used set, its identifier differs from the earlier one.
pub proof fn lemma_spawn_ids_distinct<H>(
    pre1: TerminalManager<H>,
    post1: TerminalManager<H>,
    id1: Seq<char>,
    rows1: u16,
    cols1: u16,
    handles1: H,
    pre2: TerminalManager<H>,
    post2: TerminalManager<H>,
    id2: Seq<char>,
    rows2: u16,
    cols2: u16,
    handles2: H,
)
    requires
        spawn_transition(pre1, post1, id1, rows1, cols1, handles1),
        post1.used_set().subset_of(pre2.used_set()),
        spawn_transition(pre2, post2, id2, rows2, cols2, handles2),
    ensures
        id1 != id2,
{
    assert(post1.used_set().contains(id1));
    assert(pre2.used_set().contains(id1));
    assert(!pre2.used_set().contains(id2));
}

/// One step of a chain of successful spawns: some geometry and endpoints
/// for which the step is a spawn transition.
pub open spec fn spawned_step<H>(
    pre: TerminalManager<H>,
    post: TerminalManager<H>,
    id: Seq<char>,
) -> bool {
    exists|rows: u16, cols: u16, handles: H|
        spawn_transition(pre, post, id, rows, cols, handles)
}

/// A chain of successful spawns, in table order: each entry is a spawn
/// transition, and whatever ran between two consecutive spawns kept every
/// identifier recorded as used — as every operation's contract does, since
/// each either preserves the used set or grows it.
pub open spec fn spawn_chain<H>(
    pres: Seq<TerminalManager<H>>,
    posts: Seq<TerminalManager<H>>,
    ids: Seq<Seq<char>>,
) -> bool {
    &&& pres.len() == ids.len()
    &&& posts.len() == ids.len()
    &&& forall|k: int|
        0 <= k < ids.len() ==> #[trigger] spawned_step(pres[k], posts[k], ids[k])
    &&& forall|k: int|
        0 <= k < ids.len() - 1 ==> (#[trigger] posts[k].used_set()).subset_of(
            pres[k + 1].used_set(),
        )
}

/// Along a chain of spawns, identifiers recorded as used after an earlier
/// spawn are still recorded as used before any later one.
proof fn lemma_spawn_chain_used_grows<H>(
    pres: Seq<TerminalManager<H>>,
    posts: Seq<TerminalManager<H>>,
    ids: Seq<Seq<char>>,
    a: int,
    b: int,
)
    requires
        spawn_chain(pres, posts, ids),
        0 <= a < b < ids.len(),
    ensures
        posts[a].used_set().subset_of(pres[b].used_set()),
    decreases b - a,
{
    if a + 1 < b {
        lemma_spawn_chain_used_grows(pres, posts, ids, a, b - 1);
        assert(spawned_step(pres[b - 1], posts[b - 1], ids[b - 1]));
        let (rows, cols, handles) = choose|rows: u16, cols: u16, handles: H|
            #[trigger] spawn_transition(pres[b - 1], posts[b - 1], ids[b - 1], rows, cols, handles);
        assert forall|x: Seq<char>| posts[a].used_set().contains(x) implies pres[
            b
        ].used_set().contains(x) by {
            assert(pres[b - 1].used_set().contains(x));
            assert(posts[b - 1].used_set().contains(x));
        }
    }
}

/// However many spawns succeed, and whatever ran in between, the minted
/// identifiers are pairwise distinct: each spawn adds its identifier to the
/// used set and refuses one already there, and the used set only grows.
pub proof fn lemma_spawn_chain_ids_distinct<H>(
    pres: Seq<TerminalManager<H>>,
    posts: Seq<TerminalManager<H>>,
    ids: Seq<Seq<char>>,
)
    requires
        spawn_chain(pres, posts, ids),
    ensures
        forall|a: int, b: int| 0 <= a < b < ids.len() ==> ids[a] != ids[b],
{
    assert forall|a: int, b: int| 0 <= a < b < ids.len() implies ids[a] != ids[b] by {
        assert(spawned_step(pres[a], posts[a], ids[a]));
        let (rows_a, cols_a, handles_a) = choose|rows: u16, cols: u16, handles: H|
            #[trigger] spawn_transition(pres[a], posts[a], ids[a], rows, cols, handles);
        assert(spawned_step(pres[b], posts[b], ids[b]));
        let (rows_b, cols_b, handles_b) = choose|rows: u16, cols: u16, handles: H|
            #[trigger] spawn_transition(pres[b], posts[b], ids[b], rows, cols, handles);
        assert(posts[a].used_set().contains(ids[a]));
        if a + 1 == b {
            assert(pres[b].used_set().contains(ids[a]));
        } else {
            lemma_spawn_chain_used_grows(pres, posts, ids, a, b);
            assert(pres[b].used_set().contains(ids[a]));
        }
        assert(!pres[b].used_set().contains(ids[b]));
    }
}

/// A successful spawn's identifier is immediately resolvable: the table
/// contains it and resolves it to a session with the requested geometry.
pub proof fn lemma_spawned_id_resolvable<H>(
    pre: TerminalManager<H>,
    post: TerminalManager<H>,
    id: Seq<char>,
    rows: u16,
    cols: u16,
    handles: H,
)
    requires
        spawn_transition(pre, post, id, rows, cols, handles),
    ensures
        post.contains_id(id),
        post.session_for(id).rows == rows,
        post.session_for(id).cols == cols,
{
}

/// A resize is reflected in the next snapshot, and only there: every slot
/// of the table after the resize either carries the resized identifier and
/// the new geometry, or carries a session the table already held, with its
/// recorded geometry untouched. Since a snapshot reports each slot's
/// identifier and geometry verbatim, the snapshot taken after the resize
/// shows the new geometry for that session and the old one for every other.
pub proof fn lemma_resize_reflected_in_list<H>(
    pre: TerminalManager<H>,
    post: TerminalManager<H>,
    id: Seq<char>,
    rows: u16,
    cols: u16,
)
    requires
        pre.wf(),
        post.wf(),
        resize_transition(pre, post, id, rows, cols),
    ensures
        forall|k: int|
            0 <= k < post.sessions_seq().len() && (#[trigger] post.sessions_seq()[k]).id@ == id
                ==> post.sessions_seq()[k].rows == rows && post.sessions_seq()[k].cols == cols,
        forall|k: int|
            0 <= k < post.sessions_seq().len() && (#[trigger] post.sessions_seq()[k]).id@ != id
                ==> pre.contains_id(post.sessions_seq()[k].id@) && post.sessions_seq()[k]
                == pre.session_for(post.sessions_seq()[k].id@),
{
    assert forall|k: int|
        0 <= k < post.sessions_seq().len() && (#[trigger] post.sessions_seq()[k]).id@
            == id implies post.sessions_seq()[k].rows == rows && post.sessions_seq()[k].cols
        == cols by {
        post.lemma_slot_resolves(k);
    }
    assert forall|k: int|
        0 <= k < post.sessions_seq().len() && (#[trigger] post.sessions_seq()[k]).id@
            != id implies pre.contains_id(post.sessions_seq()[k].id@) && post.sessions_seq()[k]
        == pre.session_for(post.sessions_seq()[k].id@) by {
        post.lemma_slot_resolves(k);
        let o = post.sessions_seq()[k].id@;
        assert(post.contains_id(o));
        assert(pre.contains_id(o));
        assert(post.session_for(o) == pre.session_for(o));
    }
}

/// After a close of an identifier, that identifier resolves nowhere: no
/// slot of the table carries it, so a snapshot no longer lists it, and a
/// subsequent write, resize or close naming it is refused as not-found —
/// their contracts succeed exactly when the table contains the identifier.
pub proof fn lemma_closed_id_is_gone<H>(
    pre: TerminalManager<H>,
    post: TerminalManager<H>,
    id: Seq<char>,
)
    requires
        close_transition(pre, post, id),
    ensures
        !post.contains_id(id),
        forall|k: int|
            0 <= k < post.sessions_seq().len() ==> (#[trigger] post.sessions_seq()[k]).id@ != id,
{
    assert forall|k: int| 0 <= k < post.sessions_seq().len() implies (
    #[trigger] post.sessions_seq()[k]).id@ != id by {
        if post.sessions_seq()[k].id@ == id {
            assert(post.contains_id(id));
        }
    }
}

/// Closing one session never disturbs another: any other live identifier is
/// still live afterwards and still resolves to the very same session, with
/// its geometry and endpoints intact.
pub proof fn lemma_close_leaves_others<H>(
    pre: TerminalManager<H>,
    post: TerminalManager<H>,
    id: Seq<char>,
    other: Seq<char>,
)
    requires
        close_transition(pre, post, id),
        other != id,
        pre.contains_id(other),
    ensures
        post.contains_id(other),
        post.session_for(other) == pre.session_for(other),
{
}

} // verus!
