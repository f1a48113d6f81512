//! Properties that relate several operations or hold of every state.
use vstd::prelude::*;
use crate::query::{lemma_rank, newest_first, page_of, rank};
use crate::records::{views, UpdateView};
use crate::social::Social;

verus! {

/// Toggling the same like twice restores who likes the update and, where
/// the update exists, its like counter, provided the counter was not at a
/// bound the toggle saturates at (zero while liked, the largest value while
/// not liked).
pub proof fn lemma_toggle_twice(
    s0: Social,
    s1: Social,
    s2: Social,
    c: Seq<u8>,
    u: u64,
    r1: bool,
    r2: bool,
)
    requires
        s0.toggled(&s1, c, u, r1),
        s1.toggled(&s2, c, u, r2),
        s0.update(u) matches Some(up) ==> (if r1 {
            up.likes < u64::MAX
        } else {
            up.likes > 0
        }),
    ensures
        r2 == !r1,
        forall|x: Seq<u8>| #[trigger] s2.liked_by(u).contains(x) <==> s0.liked_by(u).contains(x),
        s0.update(u) is Some ==> s2.update(u) is Some && s2.update(u)->0@ == s0.update(u)->0@,
        s0.update(u) is None ==> s2.updates@ == s0.updates@,
{
    assert(s1.liked_by(u).contains(c) == r1);
    if s0.update(u) is Some {
        let i = u - 1;
        assert(views(s1.updates@).len() == views(s0.updates@).len());
        assert(s1.update(u) is Some);
        assert(s1.update(u)->0@ == views(s1.updates@)[i]);
        assert(views(s2.updates@).len() == views(s1.updates@).len());
        assert(s2.updates@.len() == s0.updates@.len());
        assert(s2.update(u) is Some);
        assert(s2.update(u)->0 == s2.updates@[i]);
        assert(s2.update(u)->0@ == views(s2.updates@)[i]);
        assert(s0.update(u)->0@ == views(s0.updates@)[i]);
    }
}

/// Over any run of steps that may create updates (posts, reposts, quotes),
/// the ids handed out are strictly increasing, hence never repeated.
pub proof fn lemma_ids_increase(states: Seq<Social>, rs: Seq<u64>)
    requires
        states.len() == rs.len() + 1,
        forall|i: int| 0 <= i < rs.len() ==> #[trigger] states[i].id_step(&states[i + 1], rs[i]),
    ensures
        forall|i: int, j: int|
            0 <= i < j < rs.len() && rs[i] != 0 && rs[j] != 0 ==> #[trigger] rs[i] < #[trigger] rs[j],
{
    assert forall|i: int, j: int| 0 <= i <= j < states.len() implies #[trigger] states[i].next_update_id
        <= #[trigger] states[j].next_update_id by {
        lemma_counter_grows(states, rs, i, j);
    }
    assert forall|i: int, j: int|
        0 <= i < j < rs.len() && rs[i] != 0 && rs[j] != 0 implies #[trigger] rs[i] < #[trigger] rs[j] by {
        assert(states[i].id_step(&states[i + 1], rs[i]));
        assert(states[j].id_step(&states[j + 1], rs[j]));
        assert(states[i + 1].next_update_id <= states[j].next_update_id);
    }
}

proof fn lemma_counter_grows(states: Seq<Social>, rs: Seq<u64>, i: int, j: int)
    requires
        states.len() == rs.len() + 1,
        forall|k: int| 0 <= k < rs.len() ==> #[trigger] states[k].id_step(&states[k + 1], rs[k]),
        0 <= i <= j < states.len(),
    ensures
        states[i].next_update_id <= states[j].next_update_id,
    decreases j - i,
{
    if i < j {
        lemma_counter_grows(states, rs, i, j - 1);
        let k = j - 1;
        assert(states[k].id_step(&states[k + 1], rs[k]));
    }
}

/// In every well-formed state the follow graph is symmetric: `b` is among
/// those `a` follows exactly when `a` is among the followers of `b`.
pub proof fn lemma_graph_symmetric(s: Social, a: Seq<u8>, b: Seq<u8>)
    requires
        s.wf(),
    ensures
        s.outbound(a).contains(b) <==> s.inbound(b).contains(a),
{
}

/// A timeline page that starts at or past the end of the feed is empty; page
/// 0 with the feed's length as page size is the whole feed, newest first.
pub proof fn lemma_timeline_bounds(s: Social, c: Seq<u8>, page: int, size: int)
    requires
        page >= 0,
        size >= 0,
    ensures
        page * size >= s.feed(c).len() ==> s.timeline(c, page, size) == Seq::<UpdateView>::empty(),
        s.timeline(c, 0, s.feed(c).len() as int) == rank(s.feed(c)),
        rank(s.feed(c)).len() == s.feed(c).len(),
        forall|y: UpdateView| #[trigger] rank(s.feed(c)).contains(y) <==> s.feed(c).contains(y),
        newest_first(rank(s.feed(c))),
{
    lemma_rank(s.feed(c));
    let r = rank(s.feed(c));
    if r.len() > 0 {
        assert(r.subrange(0, r.len() as int) =~= r);
    } else {
        assert(r =~= Seq::<UpdateView>::empty());
    }
    assert(page_of(r, 0, r.len() as int) == r);
}

} // verus!
