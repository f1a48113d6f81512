//! Read-only views of the state: timelines ordered newest first and cut
//! into pages, searches, and the moderation queues.
use vstd::prelude::*;
use crate::identity::{copy_ids, holds, ids, Identity, Key};
use crate::records::{views, FlagView, ModerationFlag, Update, UpdateView, User};
use crate::social::Social;
use crate::text::{char_vec, find_infix, find_prefix, has_infix, has_prefix, lower_of, lowercase};

verus! {

/// The elements of `s` that satisfy `p`, in order.
pub open spec fn keep(s: Seq<UpdateView>, p: spec_fn(UpdateView) -> bool) -> Seq<UpdateView>
    decreases s.len(),
{
    if s.len() == 0 {
        s
    } else if p(s.last()) {
        keep(s.drop_last(), p).push(s.last())
    } else {
        keep(s.drop_last(), p)
    }
}

/// Written by `c` or by one of `followed`.
pub open spec fn in_feed(c: Seq<u8>, followed: Seq<Seq<u8>>) -> spec_fn(UpdateView) -> bool {
    |u: UpdateView| u.author == c || followed.contains(u.author)
}

/// Written by `a`.
pub open spec fn by_author(a: Seq<u8>) -> spec_fn(UpdateView) -> bool {
    |u: UpdateView| u.author == a
}

/// The lowercased content holds `k`.
pub open spec fn mentions(k: Seq<char>) -> spec_fn(UpdateView) -> bool {
    |u: UpdateView| has_infix(lower_of(u.content), k)
}

pub open spec fn moderated() -> spec_fn(UpdateView) -> bool {
    |u: UpdateView| u.is_moderated
}

/// `x` placed into `t` after every element at least as recent as `x`.
pub open spec fn place(t: Seq<UpdateView>, x: UpdateView) -> Seq<UpdateView>
    decreases t.len(),
{
    if t.len() == 0 {
        seq![x]
    } else if t[0].timestamp >= x.timestamp {
        seq![t[0]] + place(t.drop_first(), x)
    } else {
        seq![x] + t
    }
}

/// `s` ordered by timestamp, newest first; updates with equal timestamps
/// keep their order in `s`.
pub open spec fn rank(s: Seq<UpdateView>) -> Seq<UpdateView>
    decreases s.len(),
{
    if s.len() == 0 {
        s
    } else {
        place(rank(s.drop_last()), s.last())
    }
}

/// Newest first.
pub open spec fn newest_first(s: Seq<UpdateView>) -> bool {
    forall|i: int, j: int| 0 <= i < j < s.len() ==> #[trigger] s[i].timestamp >= #[trigger] s[j].timestamp
}

/// Page `page` of `s`, `size` to a page; empty past the end.
pub open spec fn page_of(s: Seq<UpdateView>, page: int, size: int) -> Seq<UpdateView> {
    let start = page * size;
    if start >= s.len() {
        Seq::empty()
    } else if start + size <= s.len() {
        s.subrange(start, start + size)
    } else {
        s.subrange(start, s.len() as int)
    }
}

pub proof fn lemma_place_at(t: Seq<UpdateView>, x: UpdateView, p: int)
    requires
        0 <= p <= t.len(),
        forall|i: int| 0 <= i < p ==> t[i].timestamp >= x.timestamp,
        p == t.len() || t[p].timestamp < x.timestamp,
    ensures
        place(t, x) == t.insert(p, x),
    decreases p,
{
    if p == 0 {
        if t.len() == 0 {
            assert(seq![x] =~= t.insert(0, x));
        } else {
            assert(seq![x] + t =~= t.insert(0, x));
        }
    } else {
        lemma_place_at(t.drop_first(), x, p - 1);
        assert(seq![t[0]] + t.drop_first().insert(p - 1, x) =~= t.insert(p, x));
    }
}

pub proof fn lemma_place_keeps(t: Seq<UpdateView>, x: UpdateView)
    ensures
        place(t, x).len() == t.len() + 1,
        forall|y: UpdateView| #[trigger] place(t, x).contains(y) <==> (t.contains(y) || y == x),
        newest_first(t) ==> newest_first(place(t, x)),
    decreases t.len(),
{
    if t.len() == 0 {
        assert forall|y: UpdateView| #[trigger] place(t, x).contains(y) <==> (t.contains(y) || y == x) by {
            if y == x {
                assert(place(t, x)[0] == x);
            }
        }
    } else if t[0].timestamp >= x.timestamp {
        let rest = t.drop_first();
        lemma_place_keeps(rest, x);
        let r = place(t, x);
        assert(r == seq![t[0]] + place(rest, x));
        assert forall|y: UpdateView| #[trigger] r.contains(y) <==> (t.contains(y) || y == x) by {
            if r.contains(y) {
                let i = choose|i: int| 0 <= i < r.len() && r[i] == y;
                if i > 0 {
                    assert(place(rest, x)[i - 1] == y);
                    if place(rest, x).contains(y) && rest.contains(y) {
                        let j = choose|j: int| 0 <= j < rest.len() && rest[j] == y;
                        assert(t[j + 1] == y);
                    }
                }
            }
            if t.contains(y) {
                let j = choose|j: int| 0 <= j < t.len() && t[j] == y;
                if j == 0 {
                    assert(r[0] == y);
                } else {
                    assert(rest[j - 1] == y);
                    assert(place(rest, x).contains(y));
                    let k = choose|k: int| 0 <= k < place(rest, x).len() && place(rest, x)[k] == y;
                    assert(r[k + 1] == y);
                }
            }
            if y == x {
                assert(place(rest, x).contains(y));
                let k = choose|k: int| 0 <= k < place(rest, x).len() && place(rest, x)[k] == y;
                assert(r[k + 1] == y);
            }
        }
        if newest_first(t) {
            assert(newest_first(rest)) by {
                assert forall|i: int, j: int| 0 <= i < j < rest.len() implies #[trigger] rest[i].timestamp
                    >= #[trigger] rest[j].timestamp by {
                    assert(t[i + 1].timestamp >= t[j + 1].timestamp);
                }
            }
            assert forall|i: int, j: int| 0 <= i < j < r.len() implies #[trigger] r[i].timestamp
                >= #[trigger] r[j].timestamp by {
                if i == 0 {
                    let y = r[j];
                    assert(place(rest, x).contains(y)) by {
                        assert(place(rest, x)[j - 1] == y);
                    }
                    if y != x {
                        assert(rest.contains(y));
                        let k = choose|k: int| 0 <= k < rest.len() && rest[k] == y;
                        assert(t[0].timestamp >= t[k + 1].timestamp);
                    }
                } else {
                    assert(place(rest, x)[i - 1].timestamp >= place(rest, x)[j - 1].timestamp);
                }
            }
        }
    } else {
        let r = place(t, x);
        assert(r == seq![x] + t);
        assert forall|y: UpdateView| #[trigger] r.contains(y) <==> (t.contains(y) || y == x) by {
            if r.contains(y) {
                let i = choose|i: int| 0 <= i < r.len() && r[i] == y;
                if i > 0 {
                    assert(t[i - 1] == y);
                }
            }
            if t.contains(y) {
                let j = choose|j: int| 0 <= j < t.len() && t[j] == y;
                assert(r[j + 1] == y);
            }
            if y == x {
                assert(r[0] == y);
            }
        }
        if newest_first(t) {
            assert forall|i: int, j: int| 0 <= i < j < r.len() implies #[trigger] r[i].timestamp
                >= #[trigger] r[j].timestamp by {
                if i == 0 {
                    if j > 1 {
                        assert(t[0].timestamp >= t[j - 1].timestamp);
                    }
                } else {
                    assert(t[i - 1].timestamp >= t[j - 1].timestamp);
                }
            }
        }
    }
}

/// The ranking holds exactly the updates it ranks, newest first.
pub proof fn lemma_rank(s: Seq<UpdateView>)
    ensures
        rank(s).len() == s.len(),
        forall|y: UpdateView| #[trigger] rank(s).contains(y) <==> s.contains(y),
        newest_first(rank(s)),
    decreases s.len(),
{
    if s.len() > 0 {
        let init = s.drop_last();
        lemma_rank(init);
        lemma_place_keeps(rank(init), s.last());
        assert forall|y: UpdateView| #[trigger] rank(s).contains(y) <==> s.contains(y) by {
            if init.contains(y) {
                let j = choose|j: int| 0 <= j < init.len() && init[j] == y;
                assert(s[j] == y);
            }
            if s.contains(y) {
                let j = choose|j: int| 0 <= j < s.len() && s[j] == y;
                if j < s.len() - 1 {
                    assert(init[j] == y);
                }
            }
        }
    }
}

impl Social {
    /// The updates by `c` or by anyone `c` follows, in order of id.
    pub open spec fn feed(&self, c: Seq<u8>) -> Seq<UpdateView> {
        keep(views(self.updates@), in_feed(c, self.outbound(c)))
    }

    /// Page `page` of the feed of `c`, newest first.
    pub open spec fn timeline(&self, c: Seq<u8>, page: int, size: int) -> Seq<UpdateView> {
        page_of(rank(self.feed(c)), page, size)
    }
}

/// `x` placed into `out` after every update at least as recent.
fn place_update(out: &mut Vec<Update>, x: Update)
    ensures
        views(final(out)@) == place(views(old(out)@), x@),
{
    let mut p: usize = 0;
    while p < out.len() && out[p].timestamp >= x.timestamp
        invariant
            p <= out.len(),
            forall|i: int| 0 <= i < p ==> out@[i].timestamp >= x.timestamp,
        decreases out.len() - p,
    {
        p += 1;
    }
    proof {
        lemma_place_at(views(out@), x@, p as int);
    }
    let ghost before = views(out@);
    out.insert(p, x);
    assert(views(out@) =~= before.insert(p as int, x@));
}

/// `v` ordered newest first, ties in their order in `v`.
pub fn rank_updates(v: &Vec<Update>) -> (r: Vec<Update>)
    ensures
        views(r@) == rank(views(v@)),
{
    let mut out: Vec<Update> = Vec::new();
    let mut i: usize = 0;
    while i < v.len()
        invariant
            i <= v.len(),
            views(out@) == rank(views(v@).take(i as int)),
        decreases v.len() - i,
    {
        proof {
            assert(views(v@).take(i + 1).drop_last() =~= views(v@).take(i as int));
        }
        place_update(&mut out, v[i].copy());
        i += 1;
    }
    assert(views(v@).take(v.len() as int) =~= views(v@));
    out
}

/// Page `page` of `v`, `page_size` to a page.
pub fn paginate(v: &Vec<Update>, page: u64, page_size: u64) -> (r: Vec<Update>)
    ensures
        views(r@) == page_of(views(v@), page as int, page_size as int),
{
    proof {
        assert((page as int) * (page_size as int) <= u64::MAX as int * u64::MAX as int) by (nonlinear_arith)
            requires
                page <= u64::MAX,
                page_size <= u64::MAX,
        ;
    }
    let start: u128 = page as u128 * page_size as u128;
    if start >= v.len() as u128 {
        return Vec::new();
    }
    let end: usize = if start + (page_size as u128) <= v.len() as u128 {
        (start + page_size as u128) as usize
    } else {
        v.len()
    };
    let mut out: Vec<Update> = Vec::new();
    let mut i: usize = start as usize;
    while i < end
        invariant
            start <= i <= end <= v.len(),
            out@.len() == i - start,
            forall|t: int| 0 <= t < out@.len() ==> #[trigger] out@[t]@ == v@[start + t]@,
        decreases end - i,
    {
        out.push(v[i].copy());
        i += 1;
    }
    assert(views(out@) =~= views(v@).subrange(start as int, end as int));
    out
}

impl Social {
    fn collect_feed(&self, caller: &Identity) -> (r: Vec<Update>)
        requires
            self.wf(),
        ensures
            views(r@) == self.feed(caller@),
    {
        let followed = match self.following.get(caller) {
            Some(v) => copy_ids(v),
            None => Vec::new(),
        };
        let ghost p = in_feed(caller@, self.outbound(caller@));
        let mut out: Vec<Update> = Vec::new();
        let mut i: usize = 0;
        while i < self.updates.len()
            invariant
                i <= self.updates.len(),
                ids(followed@) == self.outbound(caller@),
                p == in_feed(caller@, self.outbound(caller@)),
                views(out@) == keep(views(self.updates@).take(i as int), p),
            decreases self.updates.len() - i,
        {
            proof {
                assert(views(self.updates@).take(i + 1).drop_last() =~= views(self.updates@).take(i as int));
            }
            let a = &self.updates[i].author;
            if a.same(caller) || holds(&followed, a) {
                let ghost before = views(out@);
                out.push(self.updates[i].copy());
                assert(views(out@) =~= before.push(self.updates@[i as int]@));
            }
            i += 1;
        }
        assert(views(self.updates@).take(self.updates.len() as int) =~= views(self.updates@));
        out
    }

    /// The updates by `caller` and by those `caller` follows, newest first,
    /// page `page` at `page_size` to a page; empty past the end.
    pub fn get_timeline(&self, caller: &Identity, page: u64, page_size: u64) -> (r: Vec<Update>)
        requires
            self.wf(),
        ensures
            views(r@) == self.timeline(caller@, page as int, page_size as int),
    {
        let feed = self.collect_feed(caller);
        let ranked = rank_updates(&feed);
        paginate(&ranked, page, page_size)
    }

    /// The updates by `p`, newest first, page `page` at `page_size` to a page.
    pub fn get_user_updates(&self, p: &Identity, page: u64, page_size: u64) -> (r: Vec<Update>)
        requires
            self.wf(),
        ensures
            views(r@) == page_of(
                rank(keep(views(self.updates@), by_author(p@))),
                page as int,
                page_size as int,
            ),
    {
        let ghost f = by_author(p@);
        let mut out: Vec<Update> = Vec::new();
        let mut i: usize = 0;
        while i < self.updates.len()
            invariant
                i <= self.updates.len(),
                f == by_author(p@),
                views(out@) == keep(views(self.updates@).take(i as int), f),
            decreases self.updates.len() - i,
        {
            proof {
                assert(views(self.updates@).take(i + 1).drop_last() =~= views(self.updates@).take(i as int));
            }
            if self.updates[i].author.same(p) {
                let ghost before = views(out@);
                out.push(self.updates[i].copy());
                assert(views(out@) =~= before.push(self.updates@[i as int]@));
            }
            i += 1;
        }
        assert(views(self.updates@).take(self.updates.len() as int) =~= views(self.updates@));
        let ranked = rank_updates(&out);
        paginate(&ranked, page, page_size)
    }

    /// The updates whose lowercased content holds the lowercased `keyword`, in order of id.
    pub fn search_updates(&self, keyword: &str) -> (r: Vec<Update>)
        requires
            self.wf(),
        ensures
            views(r@) == keep(views(self.updates@), mentions(lower_of(keyword@))),
    {
        let key_text = lowercase(keyword);
        let key = char_vec(key_text.as_str());
        let ghost f = mentions(lower_of(keyword@));
        let mut out: Vec<Update> = Vec::new();
        let mut i: usize = 0;
        while i < self.updates.len()
            invariant
                i <= self.updates.len(),
                key@ == lower_of(keyword@),
                f == mentions(lower_of(keyword@)),
                views(out@) == keep(views(self.updates@).take(i as int), f),
            decreases self.updates.len() - i,
        {
            proof {
                assert(views(self.updates@).take(i + 1).drop_last() =~= views(self.updates@).take(i as int));
            }
            let low_text = lowercase(self.updates[i].content.as_str());
            let low = char_vec(low_text.as_str());
            if find_infix(&low, &key) {
                let ghost before = views(out@);
                out.push(self.updates[i].copy());
                assert(views(out@) =~= before.push(self.updates@[i as int]@));
            }
            i += 1;
        }
        assert(views(self.updates@).take(self.updates.len() as int) =~= views(self.updates@));
        out
    }

    /// The updates that are moderated, in order of id.
    pub fn get_moderated_updates(&self) -> (r: Vec<Update>)
        requires
            self.wf(),
        ensures
            views(r@) == keep(views(self.updates@), moderated()),
    {
        let ghost f = moderated();
        let mut out: Vec<Update> = Vec::new();
        let mut i: usize = 0;
        while i < self.updates.len()
            invariant
                i <= self.updates.len(),
                f == moderated(),
                views(out@) == keep(views(self.updates@).take(i as int), f),
            decreases self.updates.len() - i,
        {
            proof {
                assert(views(self.updates@).take(i + 1).drop_last() =~= views(self.updates@).take(i as int));
            }
            if self.updates[i].is_moderated {
                let ghost before = views(out@);
                out.push(self.updates[i].copy());
                assert(views(out@) =~= before.push(self.updates@[i as int]@));
            }
            i += 1;
        }
        assert(views(self.updates@).take(self.updates.len() as int) =~= views(self.updates@));
        out
    }
}

/// The accounts in `s` whose lowercased handle begins with `k`, in order.
pub open spec fn handle_hits(s: Seq<(Identity, User)>, k: Seq<char>) -> Seq<(Seq<u8>, User)>
    decreases s.len(),
{
    if s.len() == 0 {
        Seq::empty()
    } else if has_prefix(lower_of(s.last().1.handle@), k) {
        handle_hits(s.drop_last(), k).push((s.last().0@, s.last().1))
    } else {
        handle_hits(s.drop_last(), k)
    }
}

/// The flags in `s` not yet resolved, with their ids, in order.
pub open spec fn open_flags(s: Seq<(u64, ModerationFlag)>) -> Seq<(u64, FlagView)>
    decreases s.len(),
{
    if s.len() == 0 {
        Seq::empty()
    } else if !s.last().1.is_resolved {
        open_flags(s.drop_last()).push((s.last().0, s.last().1@))
    } else {
        open_flags(s.drop_last())
    }
}

pub open spec fn account_views(s: Seq<(Identity, User)>) -> Seq<(Seq<u8>, User)> {
    s.map_values(|e: (Identity, User)| (e.0@, e.1))
}

pub open spec fn flag_views(s: Seq<(u64, ModerationFlag)>) -> Seq<(u64, FlagView)> {
    s.map_values(|e: (u64, ModerationFlag)| (e.0, e.1@))
}

impl Social {
    /// The accounts whose lowercased handle begins with the lowercased
    /// `prefix`, in order of first registration.
    pub fn search_users(&self, prefix: &str) -> (r: Vec<(Identity, User)>)
        requires
            self.wf(),
        ensures
            account_views(r@) == handle_hits(self.users.entries@, lower_of(prefix@)),
    {
        let key_text = lowercase(prefix);
        let key = char_vec(key_text.as_str());
        let ghost es = self.users.entries@;
        let mut out: Vec<(Identity, User)> = Vec::new();
        let mut i: usize = 0;
        while i < self.users.entries.len()
            invariant
                i <= self.users.entries.len(),
                es == self.users.entries@,
                key@ == lower_of(prefix@),
                account_views(out@) == handle_hits(es.take(i as int), key@),
            decreases self.users.entries.len() - i,
        {
            proof {
                assert(es.take(i + 1).drop_last() =~= es.take(i as int));
            }
            let low_text = lowercase(self.users.entries[i].1.handle.as_str());
            let low = char_vec(low_text.as_str());
            if find_prefix(&low, &key) {
                let ghost before = account_views(out@);
                let e = (self.users.entries[i].0.copy(), self.users.entries[i].1.copy());
                out.push(e);
                assert(account_views(out@) =~= before.push((es[i as int].0@, es[i as int].1)));
            }
            i += 1;
        }
        assert(es.take(es.len() as int) =~= es);
        out
    }

    /// The flags not yet resolved, with their ids, oldest first.
    pub fn get_flagged_content(&self) -> (r: Vec<(u64, ModerationFlag)>)
        requires
            self.wf(),
        ensures
            flag_views(r@) == open_flags(self.flags.entries@),
    {
        let ghost es = self.flags.entries@;
        let mut out: Vec<(u64, ModerationFlag)> = Vec::new();
        let mut i: usize = 0;
        while i < self.flags.entries.len()
            invariant
                i <= self.flags.entries.len(),
                es == self.flags.entries@,
                flag_views(out@) == open_flags(es.take(i as int)),
            decreases self.flags.entries.len() - i,
        {
            proof {
                assert(es.take(i + 1).drop_last() =~= es.take(i as int));
            }
            if !self.flags.entries[i].1.is_resolved {
                let ghost before = flag_views(out@);
                let e = (self.flags.entries[i].0, self.flags.entries[i].1.copy());
                out.push(e);
                assert(flag_views(out@) =~= before.push((es[i as int].0, es[i as int].1@)));
            }
            i += 1;
        }
        assert(es.take(es.len() as int) =~= es);
        out
    }
}

} // verus!
