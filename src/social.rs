//! The state of the service and the operations that change it: accounts,
//! the follow graph, updates, likes and moderation.
use vstd::prelude::*;
use crate::filter::{filter_content, opt_view, verdict_of, Severity};
use crate::identity::{copy_ids, holds, ids, Identity, Key};
use crate::records::{copy_text, copy_warnings, views, FlagView, ModerationFlag, Update, UpdateView, User, Warning};
use crate::table::Table;

verus! {

/// Nanoseconds in an hour.
pub const HOUR_NANOS: u64 = 3_600_000_000_000;

/// How long after its creation a warning is marked to expire, in nanoseconds.
pub const WARNING_LIFETIME: u64 = 86_400_000_000_000;

/// `a + b`, or `u64::MAX` where that does not fit.
pub open spec fn sat_add(a: int, b: int) -> u64 {
    if a + b > u64::MAX {
        u64::MAX
    } else {
        (a + b) as u64
    }
}

/// `a * b`, or `u64::MAX` where that does not fit.
pub open spec fn sat_mul(a: int, b: int) -> u64 {
    if a * b > u64::MAX {
        u64::MAX
    } else {
        (a * b) as u64
    }
}

/// One more, unless the counter is already at its largest value.
pub open spec fn bump(x: u64) -> u64 {
    if x < u64::MAX {
        (x + 1) as u64
    } else {
        x
    }
}

pub open spec fn bump32(x: u32) -> u32 {
    if x < u32::MAX {
        (x + 1) as u32
    } else {
        x
    }
}

/// `h` hours in nanoseconds, or `u64::MAX` where that does not fit.
pub fn hours_to_nanos(h: u64) -> (r: u64)
    ensures
        r == sat_mul(h as int, HOUR_NANOS as int),
{
    if h <= u64::MAX / HOUR_NANOS {
        proof {
            assert(h * HOUR_NANOS <= u64::MAX) by (nonlinear_arith)
                requires
                    h <= u64::MAX / HOUR_NANOS,
                    HOUR_NANOS == 3_600_000_000_000u64,
            ;
        }
        h * HOUR_NANOS
    } else {
        proof {
            assert(h * HOUR_NANOS > u64::MAX) by (nonlinear_arith)
                requires
                    h > u64::MAX / HOUR_NANOS,
                    HOUR_NANOS == 3_600_000_000_000u64,
            ;
        }
        u64::MAX
    }
}

/// Everything the service stores.
pub struct Social {
    pub users: Table<Identity, User>,
    pub following: Table<Identity, Vec<Identity>>,
    pub followers: Table<Identity, Vec<Identity>>,
    pub updates: Vec<Update>,
    pub likes: Table<u64, Vec<Identity>>,
    pub repost_sets: Table<u64, Vec<Identity>>,
    pub flags: Table<u64, ModerationFlag>,
    pub warnings: Table<Identity, Vec<Warning>>,
    pub next_update_id: u64,
    pub next_moderation_id: u64,
}

/// The list stored under `k`, or the empty list.
pub open spec fn list_at<K: Key>(t: Table<K, Vec<Identity>>, k: K::V) -> Seq<Seq<u8>> {
    if t@.contains_key(k) {
        ids(t@[k]@)
    } else {
        Seq::empty()
    }
}

/// No list of the table holds an identity twice.
pub open spec fn lists_distinct<K: Key>(t: Table<K, Vec<Identity>>) -> bool {
    forall|k: K::V| #[trigger] list_at(t, k).no_duplicates()
}

/// `b` is in the outbound list of `a` exactly when `a` is in the inbound list of `b`.
pub open spec fn mirrored(outb: Table<Identity, Vec<Identity>>, inb: Table<Identity, Vec<Identity>>) -> bool {
    forall|a: Seq<u8>, b: Seq<u8>|
        #![trigger list_at(outb, a).contains(b)]
        #![trigger list_at(inb, b).contains(a)]
        list_at(outb, a).contains(b) <==> list_at(inb, b).contains(a)
}

/// The warnings stored under `p`, or none.
pub open spec fn warning_list(t: Table<Identity, Vec<Warning>>, p: Seq<u8>) -> Seq<Warning> {
    if t@.contains_key(p) {
        t@[p]@
    } else {
        Seq::empty()
    }
}

/// The warnings list of `p` gained `w` at its end; no other list changed.
pub open spec fn warned(t: Table<Identity, Vec<Warning>>, o: Table<Identity, Vec<Warning>>, p: Seq<u8>, w: Warning) -> bool {
    &&& warning_list(t, p) == warning_list(o, p).push(w)
    &&& forall|q: Seq<u8>| q != p ==> #[trigger] warning_list(t, q) == warning_list(o, q)
}

/// The update at position `i` has id `i + 1`.
pub open spec fn ids_in_order(us: Seq<Update>) -> bool {
    forall|i: int| 0 <= i < us.len() ==> #[trigger] us[i].id == i + 1
}

/// Every flag id is below `next`.
pub open spec fn flag_ids_below(flags: Table<u64, ModerationFlag>, next: u64) -> bool {
    forall|k: u64| #[trigger] flags@.contains_key(k) ==> k < next
}

/// Adding `x` to a list without `x` keeps it free of repeats and adds just `x`.
pub proof fn lemma_push_fresh(s: Seq<Seq<u8>>, x: Seq<u8>)
    requires
        s.no_duplicates(),
        !s.contains(x),
    ensures
        s.push(x).no_duplicates(),
        forall|y: Seq<u8>| #[trigger] s.push(x).contains(y) <==> (s.contains(y) || y == x),
{
    assert forall|y: Seq<u8>| #[trigger] s.push(x).contains(y) <==> (s.contains(y) || y == x) by {
        if s.contains(y) {
            let i = choose|i: int| 0 <= i < s.len() && s[i] == y;
            assert(s.push(x)[i] == y);
        }
        if y == x {
            assert(s.push(x)[s.len() as int] == y);
        }
    }
}

/// The list `v` without `x`.
pub fn without(v: &Vec<Identity>, x: &Identity) -> (r: Vec<Identity>)
    requires
        ids(v@).no_duplicates(),
    ensures
        ids(r@).no_duplicates(),
        forall|y: Seq<u8>| #[trigger] ids(r@).contains(y) <==> (ids(v@).contains(y) && y != x@),
{
    let mut out: Vec<Identity> = Vec::new();
    let mut i: usize = 0;
    while i < v.len()
        invariant
            i <= v.len(),
            ids(v@).no_duplicates(),
            ids(out@).no_duplicates(),
            forall|y: Seq<u8>| #[trigger] ids(out@).contains(y) <==> (ids(v@).take(i as int).contains(y) && y != x@),
        decreases v.len() - i,
    {
        let ghost prev = ids(out@);
        let ghost seen = ids(v@).take(i as int);
        assert(ids(v@).take(i + 1) =~= seen.push(v@[i as int]@));
        if !v[i].same(x) {
            let c = v[i].copy();
            proof {
                if prev.contains(c@) {
                    let t = choose|t: int| 0 <= t < seen.len() && seen[t] == c@;
                    assert(ids(v@)[t] == ids(v@)[i as int]);
                }
                lemma_push_fresh(prev, c@);
            }
            out.push(c);
            assert(ids(out@) =~= prev.push(c@));
        }
        proof {
            assert forall|y: Seq<u8>| #[trigger] ids(v@).take(i + 1).contains(y) <==> (seen.contains(y) || y == v@[i as int]@) by {
                if seen.contains(y) {
                    let t = choose|t: int| 0 <= t < seen.len() && seen[t] == y;
                    assert(ids(v@).take(i + 1)[t] == y);
                }
                if y == v@[i as int]@ {
                    assert(ids(v@).take(i + 1)[i as int] == y);
                }
            }
        }
        i += 1;
    }
    assert(ids(v@).take(v.len() as int) =~= ids(v@));
    out
}

/// What a fresh update holds: zero counters and the given fields.
pub open spec fn fresh_view(
    id: u64,
    author: Seq<u8>,
    content: Seq<char>,
    now: u64,
    original: Option<u64>,
    quoted: Option<Seq<char>>,
    moderated: bool,
    reason: Option<Seq<char>>,
) -> UpdateView {
    UpdateView {
        id,
        author,
        content,
        timestamp: now,
        likes: 0,
        reposts: 0,
        quotes: 0,
        original_post_id: original,
        quote_content: quoted,
        is_moderated: moderated,
        moderation_reason: reason,
        is_hidden: moderated,
    }
}

/// A warning with these fields, marked to expire a day after `now`.
pub open spec fn warning_is(w: Warning, id: u64, reason: Seq<char>, severity: Severity, now: u64) -> bool {
    &&& w.id == id
    &&& w.reason@ == reason
    &&& w.severity == severity
    &&& w.timestamp == now
    &&& w.expires_at == Some(sat_add(now as int, WARNING_LIFETIME as int))
}

/// The prefix of the content of a repost.
pub open spec fn repost_prefix() -> Seq<char> {
    "Reposted: "@
}

/// The prefix of the content of a quote.
pub open spec fn quote_prefix() -> Seq<char> {
    "Quote: "@
}

impl Social {
    /// The identities that `a` follows, in the order they were followed.
    pub open spec fn outbound(&self, a: Seq<u8>) -> Seq<Seq<u8>> {
        list_at(self.following, a)
    }

    /// The identities that follow `b`, in the order they followed.
    pub open spec fn inbound(&self, b: Seq<u8>) -> Seq<Seq<u8>> {
        list_at(self.followers, b)
    }

    /// The identities that like update `id`.
    pub open spec fn liked_by(&self, id: u64) -> Seq<Seq<u8>> {
        list_at(self.likes, id)
    }

    /// The identities recorded as having reposted update `id`.
    pub open spec fn reposted_by(&self, id: u64) -> Seq<Seq<u8>> {
        list_at(self.repost_sets, id)
    }

    /// The warnings against `p`, oldest first.
    pub open spec fn warnings_of(&self, p: Seq<u8>) -> Seq<Warning> {
        warning_list(self.warnings, p)
    }

    /// The update with id `id`, if one was created.
    pub open spec fn update(&self, id: u64) -> Option<Update> {
        if 1 <= id && id <= self.updates@.len() {
            Some(self.updates@[id - 1])
        } else {
            None
        }
    }

    /// The state is well formed.
    pub open spec fn wf(&self) -> bool {
        &&& self.users.wf()
        &&& self.following.wf()
        &&& self.followers.wf()
        &&& self.likes.wf()
        &&& self.repost_sets.wf()
        &&& self.flags.wf()
        &&& self.warnings.wf()
        &&& self.next_update_id == self.updates@.len() + 1
        &&& ids_in_order(self.updates@)
        &&& self.next_moderation_id >= 1
        &&& flag_ids_below(self.flags, self.next_moderation_id)
        &&& mirrored(self.following, self.followers)
        &&& lists_distinct(self.following)
        &&& lists_distinct(self.followers)
        &&& lists_distinct(self.likes)
    }

    /// Room for one more id in each id space.
    pub open spec fn has_room(&self) -> bool {
        self.next_update_id < u64::MAX && self.next_moderation_id < u64::MAX
    }

    pub open spec fn same_accounts(&self, o: &Social) -> bool {
        self.users@ == o.users@
    }

    pub open spec fn same_graph(&self, o: &Social) -> bool {
        self.following@ == o.following@ && self.followers@ == o.followers@
    }

    pub open spec fn same_content(&self, o: &Social) -> bool {
        self.updates@ == o.updates@ && self.next_update_id == o.next_update_id
    }

    pub open spec fn same_engagement(&self, o: &Social) -> bool {
        self.likes@ == o.likes@ && self.repost_sets@ == o.repost_sets@
    }

    pub open spec fn same_moderation(&self, o: &Social) -> bool {
        &&& self.flags@ == o.flags@
        &&& self.warnings@ == o.warnings@
        &&& self.next_moderation_id == o.next_moderation_id
    }

    /// An empty service: no accounts, no edges, no updates; the first id is 1.
    pub fn new() -> (r: Social)
        ensures
            r.wf(),
            r.users@ == Map::<Seq<u8>, User>::empty(),
            r.updates@.len() == 0,
            r.next_update_id == 1,
            r.next_moderation_id == 1,
            r.flags@ == Map::<u64, ModerationFlag>::empty(),
            forall|a: Seq<u8>| r.outbound(a) == Seq::<Seq<u8>>::empty(),
            forall|b: Seq<u8>| r.inbound(b) == Seq::<Seq<u8>>::empty(),
            forall|u: u64| r.liked_by(u) == Seq::<Seq<u8>>::empty(),
            forall|p: Seq<u8>| r.warnings_of(p) == Seq::<Warning>::empty(),
    {
        Social {
            users: Table::new(),
            following: Table::new(),
            followers: Table::new(),
            updates: Vec::new(),
            likes: Table::new(),
            repost_sets: Table::new(),
            flags: Table::new(),
            warnings: Table::new(),
            next_update_id: 1,
            next_moderation_id: 1,
        }
    }

    /// Creates the account of `caller`, or replaces it with a fresh one.
    pub fn register(&mut self, caller: &Identity, handle: String)
        requires
            old(self).wf(),
        ensures
            final(self).wf(),
            final(self).users@ == old(self).users@.insert(caller@, User::fresh_spec(handle)),
            final(self).same_graph(old(self)),
            final(self).same_content(old(self)),
            final(self).same_engagement(old(self)),
            final(self).same_moderation(old(self)),
    {
        self.users.insert(caller.copy(), User::fresh(handle));
    }

    /// The account of `p`.
    pub fn get_user(&self, p: &Identity) -> (r: Option<User>)
        requires
            self.wf(),
        ensures
            r == (if self.users@.contains_key(p@) {
                Some(self.users@[p@])
            } else {
                None
            }),
    {
        match self.users.get(p) {
            Some(u) => Some(u.copy()),
            None => None,
        }
    }

    /// Suspends `p` until `now` plus `duration_hours` hours; false if `p` has
    /// no account.
    pub fn suspend_user(&mut self, p: &Identity, duration_hours: u64, now: u64) -> (r: bool)
        requires
            old(self).wf(),
        ensures
            final(self).wf(),
            r == old(self).users@.contains_key(p@),
            r ==> final(self).users@ == old(self).users@.insert(
                p@,
                User {
                    is_suspended: true,
                    suspension_until: Some(
                        sat_add(now as int, sat_mul(duration_hours as int, HOUR_NANOS as int) as int),
                    ),
                    ..old(self).users@[p@]
                },
            ),
            !r ==> final(self).same_accounts(old(self)),
            final(self).same_graph(old(self)),
            final(self).same_content(old(self)),
            final(self).same_engagement(old(self)),
            final(self).same_moderation(old(self)),
    {
        match self.users.get(p) {
            Some(u) => {
                let mut v = u.copy();
                v.is_suspended = true;
                v.suspension_until = Some(now.saturating_add(hours_to_nanos(duration_hours)));
                self.users.insert(p.copy(), v);
                true
            },
            None => false,
        }
    }

    /// Lifts the suspension of `p`; false if `p` has no account.
    pub fn unsuspend_user(&mut self, p: &Identity) -> (r: bool)
        requires
            old(self).wf(),
        ensures
            final(self).wf(),
            r == old(self).users@.contains_key(p@),
            r ==> final(self).users@ == old(self).users@.insert(
                p@,
                User { is_suspended: false, suspension_until: None, ..old(self).users@[p@] },
            ),
            !r ==> final(self).same_accounts(old(self)),
            final(self).same_graph(old(self)),
            final(self).same_content(old(self)),
            final(self).same_engagement(old(self)),
            final(self).same_moderation(old(self)),
    {
        match self.users.get(p) {
            Some(u) => {
                let mut v = u.copy();
                v.is_suspended = false;
                v.suspension_until = None;
                self.users.insert(p.copy(), v);
                true
            },
            None => false,
        }
    }

    /// Marks `p` as verified; false if `p` has no account.
    pub fn verify_user(&mut self, p: &Identity) -> (r: bool)
        requires
            old(self).wf(),
        ensures
            final(self).wf(),
            r == old(self).users@.contains_key(p@),
            r ==> final(self).users@ == old(self).users@.insert(
                p@,
                User { is_verified: true, ..old(self).users@[p@] },
            ),
            !r ==> final(self).same_accounts(old(self)),
            final(self).same_graph(old(self)),
            final(self).same_content(old(self)),
            final(self).same_engagement(old(self)),
            final(self).same_moderation(old(self)),
    {
        match self.users.get(p) {
            Some(u) => {
                let mut v = u.copy();
                v.is_verified = true;
                self.users.insert(p.copy(), v);
                true
            },
            None => false,
        }
    }

    /// `caller` follows `user`: each goes into the other's list unless it is there already.
    pub fn follow(&mut self, caller: &Identity, user: &Identity)
        requires
            old(self).wf(),
        ensures
            final(self).wf(),
            final(self).outbound(caller@) == (if old(self).outbound(caller@).contains(user@) {
                old(self).outbound(caller@)
            } else {
                old(self).outbound(caller@).push(user@)
            }),
            final(self).inbound(user@) == (if old(self).inbound(user@).contains(caller@) {
                old(self).inbound(user@)
            } else {
                old(self).inbound(user@).push(caller@)
            }),
            forall|a: Seq<u8>| a != caller@ ==> final(self).outbound(a) == old(self).outbound(a),
            forall|b: Seq<u8>| b != user@ ==> final(self).inbound(b) == old(self).inbound(b),
            final(self).same_accounts(old(self)),
            final(self).same_content(old(self)),
            final(self).same_engagement(old(self)),
            final(self).same_moderation(old(self)),
    {
        let ghost c = caller@;
        let ghost u = user@;
        let ghost old_out = self.outbound(c);
        let ghost old_in = self.inbound(u);
        let mut outs = match self.following.get(caller) {
            Some(v) => copy_ids(v),
            None => Vec::new(),
        };
        assert(ids(outs@) == old_out);
        if !holds(&outs, user) {
            proof {
                lemma_push_fresh(old_out, u);
            }
            outs.push(user.copy());
            assert(ids(outs@) =~= old_out.push(u));
        }
        self.following.insert(caller.copy(), outs);
        let mut ins = match self.followers.get(user) {
            Some(v) => copy_ids(v),
            None => Vec::new(),
        };
        assert(ids(ins@) == old_in);
        if !holds(&ins, caller) {
            proof {
                lemma_push_fresh(old_in, c);
            }
            ins.push(caller.copy());
            assert(ids(ins@) =~= old_in.push(c));
        }
        self.followers.insert(user.copy(), ins);
        proof {
            assert forall|y: Seq<u8>| #[trigger] self.outbound(c).contains(y) <==> (old_out.contains(y) || y == u) by {
                if !old_out.contains(u) {
                    lemma_push_fresh(old_out, u);
                }
            }
            assert forall|y: Seq<u8>| #[trigger] self.inbound(u).contains(y) <==> (old_in.contains(y) || y == c) by {
                if !old_in.contains(c) {
                    lemma_push_fresh(old_in, c);
                }
            }
            assert forall|a: Seq<u8>, b: Seq<u8>|
                #![trigger list_at(self.following, a).contains(b)]
                #![trigger list_at(self.followers, b).contains(a)]
                list_at(self.following, a).contains(b) <==> list_at(self.followers, b).contains(a) by {
                assert(list_at(old(self).following, a).contains(b) <==> list_at(old(self).followers, b).contains(a));
                if a == c {
                    assert(self.outbound(a).contains(b) <==> (old_out.contains(b) || b == u));
                }
                if b == u {
                    assert(self.inbound(b).contains(a) <==> (old_in.contains(a) || a == c));
                }
            }
            assert forall|a: Seq<u8>| #[trigger] list_at(self.following, a).no_duplicates() by {
                assert(list_at(old(self).following, a).no_duplicates());
                if a == c && !old_out.contains(u) {
                    lemma_push_fresh(old_out, u);
                }
            }
            assert forall|b: Seq<u8>| #[trigger] list_at(self.followers, b).no_duplicates() by {
                assert(list_at(old(self).followers, b).no_duplicates());
                if b == u && !old_in.contains(c) {
                    lemma_push_fresh(old_in, c);
                }
            }
        }
    }

    /// The identities that follow `p`.
    pub fn get_followers(&self, p: &Identity) -> (r: Vec<Identity>)
        requires
            self.wf(),
        ensures
            ids(r@) == self.inbound(p@),
    {
        match self.followers.get(p) {
            Some(v) => copy_ids(v),
            None => Vec::new(),
        }
    }

    /// The identities that `p` follows.
    pub fn get_following(&self, p: &Identity) -> (r: Vec<Identity>)
        requires
            self.wf(),
        ensures
            ids(r@) == self.outbound(p@),
    {
        match self.following.get(p) {
            Some(v) => copy_ids(v),
            None => Vec::new(),
        }
    }

    /// Whether `p` likes update `update_id`.
    pub fn has_liked_update(&self, update_id: u64, p: &Identity) -> (r: bool)
        requires
            self.wf(),
        ensures
            r == self.liked_by(update_id).contains(p@),
    {
        match self.likes.get(&update_id) {
            Some(v) => holds(v, p),
            None => false,
        }
    }

    /// Whether `p` is recorded as having reposted update `update_id`.
    pub fn has_reposted_update(&self, update_id: u64, p: &Identity) -> (r: bool)
        requires
            self.wf(),
        ensures
            r == self.reposted_by(update_id).contains(p@),
    {
        match self.repost_sets.get(&update_id) {
            Some(v) => holds(v, p),
            None => false,
        }
    }

    /// Toggles the like of `caller` on update `update_id` and returns whether
    /// `caller` likes it now. The update's like counter follows, by one up or
    /// (never below zero) one down, where the update exists.
    pub fn like_update(&mut self, caller: &Identity, update_id: u64) -> (r: bool)
        requires
            old(self).wf(),
        ensures
            final(self).wf(),
            old(self).toggled(final(self), caller@, update_id, r),
    {
        let ghost before = self.liked_by(update_id);
        let ghost c = caller@;
        let mut list = match self.likes.get(&update_id) {
            Some(v) => copy_ids(v),
            None => Vec::new(),
        };
        assert(ids(list@) == before);
        assert(before.no_duplicates());
        let liked: bool;
        if holds(&list, caller) {
            list = without(&list, caller);
            liked = false;
        } else {
            proof {
                lemma_push_fresh(before, c);
            }
            list.push(caller.copy());
            assert(ids(list@) =~= before.push(c));
            liked = true;
        }
        self.likes.insert(update_id, list);
        assert(forall|u: u64| u != update_id ==> list_at(self.likes, u) == list_at(old(self).likes, u));
        if 1 <= update_id && update_id <= self.updates.len() as u64 {
            let i = (update_id - 1) as usize;
            let mut up = self.updates[i].copy();
            if liked {
                if up.likes < u64::MAX {
                    up.likes = up.likes + 1;
                }
            } else if up.likes > 0 {
                up.likes = up.likes - 1;
            }
            self.updates.set(i, up);
            assert(views(self.updates@) =~= views(old(self).updates@).update(i as int, up@));
        }
        liked
    }

    /// `n` is `self` after `c` toggled a like on update `u`, with result `r`:
    /// `r` says whether `c` likes it now, the like set changed in `c` alone,
    /// and the update's like counter moved with it.
    pub open spec fn toggled(&self, n: &Social, c: Seq<u8>, u: u64, r: bool) -> bool {
        &&& r == !self.liked_by(u).contains(c)
        &&& forall|x: Seq<u8>| #[trigger] n.liked_by(u).contains(x) <==> (if x == c {
            r
        } else {
            self.liked_by(u).contains(x)
        })
        &&& forall|v: u64| v != u ==> n.liked_by(v) == self.liked_by(v)
        &&& n.repost_sets@ == self.repost_sets@
        &&& match self.update(u) {
            Some(up) => views(n.updates@) == views(self.updates@).update(
                u - 1,
                UpdateView {
                    likes: if r {
                        bump(up.likes)
                    } else if up.likes > 0 {
                        (up.likes - 1) as u64
                    } else {
                        0
                    },
                    ..up@
                },
            ),
            None => n.updates@ == self.updates@,
        }
        &&& n.next_update_id == self.next_update_id
        &&& n.same_accounts(self)
        &&& n.same_graph(self)
        &&& n.same_moderation(self)
    }

    /// A step that may create an update: `r` is 0 and the id counter stays,
    /// or `r` is the next id and the counter moves past it.
    pub open spec fn id_step(&self, n: &Social, r: u64) -> bool {
        ||| r == 0 && n.next_update_id == self.next_update_id
        ||| r == self.next_update_id && r != 0 && n.next_update_id == r + 1
    }

    /// `p` has an account whose suspension blocks posting at time `now`: it
    /// is suspended with no end, or with an end after `now`.
    pub open spec fn blocked(&self, p: Seq<u8>, now: u64) -> bool {
        &&& self.users@.contains_key(p)
        &&& self.users@[p].is_suspended
        &&& match self.users@[p].suspension_until {
            Some(t) => now < t,
            None => true,
        }
    }

    fn add_warning(&mut self, p: &Identity, w: Warning)
        requires
            old(self).wf(),
        ensures
            final(self).wf(),
            warned(final(self).warnings, old(self).warnings, p@, w),
            final(self).same_accounts(old(self)),
            final(self).same_graph(old(self)),
            final(self).same_content(old(self)),
            final(self).same_engagement(old(self)),
            final(self).flags@ == old(self).flags@,
            final(self).next_moderation_id == old(self).next_moderation_id,
    {
        let ghost ww = w;
        let mut list = match self.warnings.get(p) {
            Some(v) => copy_warnings(v),
            None => Vec::new(),
        };
        list.push(w);
        assert(list@ == old(self).warnings_of(p@).push(ww));
        self.warnings.insert(p.copy(), list);
    }

    /// Publishes `content` by `caller` at time `now` and returns its id, or 0
    /// where a suspension blocks `caller`. The content filter runs first: a
    /// flagged update is stored hidden and moderated, and its author gets a
    /// warning and one more on the account's warning count.
    pub fn post_update(&mut self, caller: &Identity, content: String, now: u64) -> (r: u64)
        requires
            old(self).wf(),
            old(self).has_room(),
        ensures
            final(self).wf(),
            old(self).id_step(final(self), r),
            old(self).blocked(caller@, now) ==> r == 0 && *final(self) == *old(self),
            !old(self).blocked(caller@, now) ==> {
                let v = verdict_of(content@);
                &&& r == old(self).next_update_id
                &&& r != 0
                &&& final(self).next_update_id == r + 1
                &&& final(self).updates@ == old(self).updates@.push(final(self).updates@.last())
                &&& final(self).updates@.last()@ == fresh_view(r, caller@, content@, now, None, None, v.0, v.1)
                &&& final(self).same_graph(old(self))
                &&& final(self).same_engagement(old(self))
                &&& final(self).flags@ == old(self).flags@
                &&& v.0 ==> {
                    &&& final(self).next_moderation_id == old(self).next_moderation_id + 1
                    &&& warned(final(self).warnings, old(self).warnings, caller@, final(self).warnings_of(caller@).last())
                    &&& warning_is(final(self).warnings_of(caller@).last(), old(self).next_moderation_id, v.1->0, v.2, now)
                    &&& if old(self).users@.contains_key(caller@) {
                        final(self).users@ == old(self).users@.insert(caller@, User {
                            warning_count: bump32(old(self).users@[caller@].warning_count),
                            ..old(self).users@[caller@]
                        })
                    } else {
                        final(self).same_accounts(old(self))
                    }
                }
                &&& !v.0 ==> final(self).same_moderation(old(self)) && final(self).same_accounts(old(self))
            },
    {
        match self.users.get(caller) {
            Some(u) => {
                if u.is_suspended {
                    match u.suspension_until {
                        Some(t) => {
                            if now < t {
                                return 0;
                            }
                        },
                        None => {
                            return 0;
                        },
                    }
                }
            },
            None => {},
        }
        let verdict = filter_content(content.as_str());
        let flagged = verdict.0;
        let reason = verdict.1;
        let severity = verdict.2;
        let id = self.next_update_id;
        let up = Update {
            id,
            author: caller.copy(),
            content,
            timestamp: now,
            likes: 0,
            reposts: 0,
            quotes: 0,
            original_post_id: None,
            quote_content: None,
            is_moderated: flagged,
            moderation_reason: copy_text(&reason),
            is_hidden: flagged,
        };
        self.updates.push(up);
        self.next_update_id = id + 1;
        if flagged {
            let text = match reason {
                Some(t) => t,
                None => String::from_str("Content flagged by automatic moderation"),
            };
            let w = Warning {
                id: self.next_moderation_id,
                reason: text,
                severity,
                timestamp: now,
                expires_at: Some(now.saturating_add(WARNING_LIFETIME)),
            };
            let ghost wv = w;
            assert(w.reason@ == verdict_of(content@).1->0);
            self.next_moderation_id = self.next_moderation_id + 1;
            self.add_warning(caller, w);
            assert(self.warnings_of(caller@).last() == wv);
            match self.users.get(caller) {
                Some(u) => {
                    let mut v = u.copy();
                    if v.warning_count < u32::MAX {
                        v.warning_count = v.warning_count + 1;
                    }
                    self.users.insert(caller.copy(), v);
                },
                None => {},
            }
        }
        assert(self.updates@ =~= old(self).updates@.push(self.updates@.last()));
        id
    }

    /// Adds 1 to the repost or quote counter of the update at position `i`.
    fn count_dependent(&mut self, i: usize, quote: bool)
        requires
            old(self).wf(),
            i < old(self).updates@.len(),
        ensures
            final(self).wf(),
            views(final(self).updates@) == views(old(self).updates@).update(
                i as int,
                if quote {
                    UpdateView { quotes: bump(old(self).updates@[i as int].quotes), ..old(self).updates@[i as int]@ }
                } else {
                    UpdateView { reposts: bump(old(self).updates@[i as int].reposts), ..old(self).updates@[i as int]@ }
                },
            ),
            final(self).next_update_id == old(self).next_update_id,
            final(self).same_accounts(old(self)),
            final(self).same_graph(old(self)),
            final(self).same_engagement(old(self)),
            final(self).same_moderation(old(self)),
    {
        let mut up = self.updates[i].copy();
        if quote {
            if up.quotes < u64::MAX {
                up.quotes = up.quotes + 1;
            }
        } else if up.reposts < u64::MAX {
            up.reposts = up.reposts + 1;
        }
        self.updates.set(i, up);
        assert(views(self.updates@) =~= views(old(self).updates@).update(i as int, up@));
    }

    /// Reposts update `original_post_id` as `caller` at time `now` and returns
    /// the new id, or 0, with nothing changed, where that update does not exist.
    pub fn repost_update(&mut self, caller: &Identity, original_post_id: u64, now: u64) -> (r: u64)
        requires
            old(self).wf(),
            old(self).next_update_id < u64::MAX,
        ensures
            final(self).wf(),
            old(self).id_step(final(self), r),
            old(self).update(original_post_id) is None ==> r == 0 && *final(self) == *old(self),
            old(self).update(original_post_id) matches Some(orig) ==> {
                &&& r == old(self).next_update_id
                &&& r != 0
                &&& final(self).next_update_id == r + 1
                &&& views(final(self).updates@) == views(old(self).updates@).update(
                    original_post_id - 1,
                    UpdateView { reposts: bump(orig.reposts), ..orig@ },
                ).push(fresh_view(r, caller@, repost_prefix() + orig.content@, now, Some(original_post_id), None, false, None))
                &&& final(self).same_accounts(old(self))
                &&& final(self).same_graph(old(self))
                &&& final(self).same_engagement(old(self))
                &&& final(self).same_moderation(old(self))
            },
    {
        if original_post_id == 0 || original_post_id > self.updates.len() as u64 {
            return 0;
        }
        let i = (original_post_id - 1) as usize;
        let mut text = String::from_str("Reposted: ");
        text.append(self.updates[i].content.as_str());
        let id = self.next_update_id;
        self.count_dependent(i, false);
        let ghost mid = views(self.updates@);
        let up = Update {
            id,
            author: caller.copy(),
            content: text,
            timestamp: now,
            likes: 0,
            reposts: 0,
            quotes: 0,
            original_post_id: Some(original_post_id),
            quote_content: None,
            is_moderated: false,
            moderation_reason: None,
            is_hidden: false,
        };
        self.updates.push(up);
        self.next_update_id = id + 1;
        assert(views(self.updates@) =~= mid.push(up@));
        id
    }

    /// Quotes update `original_post_id` as `caller` with `quote_content` at
    /// time `now` and returns the new id, or 0, with nothing changed, where
    /// that update does not exist. The quote keeps a copy of the original's content.
    pub fn quote_update(
        &mut self,
        caller: &Identity,
        original_post_id: u64,
        quote_content: String,
        now: u64,
    ) -> (r: u64)
        requires
            old(self).wf(),
            old(self).next_update_id < u64::MAX,
        ensures
            final(self).wf(),
            old(self).id_step(final(self), r),
            old(self).update(original_post_id) is None ==> r == 0 && *final(self) == *old(self),
            old(self).update(original_post_id) matches Some(orig) ==> {
                &&& r == old(self).next_update_id
                &&& r != 0
                &&& final(self).next_update_id == r + 1
                &&& views(final(self).updates@) == views(old(self).updates@).update(
                    original_post_id - 1,
                    UpdateView { quotes: bump(orig.quotes), ..orig@ },
                ).push(fresh_view(r, caller@, quote_prefix() + quote_content@, now, Some(original_post_id), Some(orig.content@), false, None))
                &&& final(self).same_accounts(old(self))
                &&& final(self).same_graph(old(self))
                &&& final(self).same_engagement(old(self))
                &&& final(self).same_moderation(old(self))
            },
    {
        if original_post_id == 0 || original_post_id > self.updates.len() as u64 {
            return 0;
        }
        let i = (original_post_id - 1) as usize;
        let snapshot = self.updates[i].content.clone();
        let mut text = String::from_str("Quote: ");
        text.append(quote_content.as_str());
        let id = self.next_update_id;
        self.count_dependent(i, true);
        let ghost mid = views(self.updates@);
        let up = Update {
            id,
            author: caller.copy(),
            content: text,
            timestamp: now,
            likes: 0,
            reposts: 0,
            quotes: 0,
            original_post_id: Some(original_post_id),
            quote_content: Some(snapshot),
            is_moderated: false,
            moderation_reason: None,
            is_hidden: false,
        };
        self.updates.push(up);
        self.next_update_id = id + 1;
        assert(views(self.updates@) =~= mid.push(up@));
        id
    }

    /// The warnings against `p`, oldest first.
    pub fn get_user_warnings(&self, p: &Identity) -> (r: Vec<Warning>)
        requires
            self.wf(),
        ensures
            r@ == self.warnings_of(p@),
    {
        match self.warnings.get(p) {
            Some(v) => copy_warnings(v),
            None => Vec::new(),
        }
    }

    /// `caller` reports update `update_id` at time `now`. Refused (false, with
    /// nothing changed) where the update does not exist or is already
    /// moderated; otherwise a flag is stored under a fresh id and the update's
    /// author gets a warning with the same id.
    pub fn flag_update(
        &mut self,
        caller: &Identity,
        update_id: u64,
        reason: String,
        severity: Severity,
        now: u64,
    ) -> (r: bool)
        requires
            old(self).wf(),
            old(self).next_moderation_id < u64::MAX,
        ensures
            final(self).wf(),
            r == (old(self).update(update_id) matches Some(u) && !u.is_moderated),
            !r ==> *final(self) == *old(self),
            r ==> {
                let fid = old(self).next_moderation_id;
                let author = old(self).update(update_id)->0.author@;
                &&& !old(self).flags@.contains_key(fid)
                &&& final(self).flags@ == old(self).flags@.insert(fid, final(self).flags@[fid])
                &&& final(self).flags@[fid]@ == FlagView {
                    update_id,
                    flagged_by: caller@,
                    reason: reason@,
                    severity,
                    timestamp: now,
                    is_resolved: false,
                }
                &&& final(self).next_moderation_id == fid + 1
                &&& warned(final(self).warnings, old(self).warnings, author, final(self).warnings_of(author).last())
                &&& warning_is(final(self).warnings_of(author).last(), fid, reason@, severity, now)
                &&& final(self).same_accounts(old(self))
                &&& final(self).same_graph(old(self))
                &&& final(self).same_content(old(self))
                &&& final(self).same_engagement(old(self))
            },
    {
        if update_id == 0 || update_id > self.updates.len() as u64 {
            return false;
        }
        let i = (update_id - 1) as usize;
        if self.updates[i].is_moderated {
            return false;
        }
        let author = self.updates[i].author.copy();
        let fid = self.next_moderation_id;
        let flag = ModerationFlag {
            update_id,
            flagged_by: caller.copy(),
            reason: reason.clone(),
            severity,
            timestamp: now,
            is_resolved: false,
        };
        self.flags.insert(fid, flag);
        self.next_moderation_id = fid + 1;
        let w = Warning {
            id: fid,
            reason,
            severity,
            timestamp: now,
            expires_at: Some(now.saturating_add(WARNING_LIFETIME)),
        };
        let ghost wv = w;
        self.add_warning(&author, w);
        assert(self.warnings_of(author@).last() == wv);
        assert(self.flags@ =~= old(self).flags@.insert(fid, self.flags@[fid]));
        true
    }

    /// Marks flag `flag_id` resolved; false if there is no such flag. The
    /// flagged update is left as it is.
    pub fn resolve_flag(&mut self, flag_id: u64) -> (r: bool)
        requires
            old(self).wf(),
        ensures
            final(self).wf(),
            r == old(self).flags@.contains_key(flag_id),
            !r ==> *final(self) == *old(self),
            r ==> final(self).flags@ == old(self).flags@.insert(flag_id, final(self).flags@[flag_id]),
            r ==> final(self).flags@[flag_id]@ == (FlagView {
                is_resolved: true,
                ..old(self).flags@[flag_id]@
            }),
            final(self).warnings@ == old(self).warnings@,
            final(self).next_moderation_id == old(self).next_moderation_id,
            final(self).same_accounts(old(self)),
            final(self).same_graph(old(self)),
            final(self).same_content(old(self)),
            final(self).same_engagement(old(self)),
    {
        match self.flags.get(&flag_id) {
            Some(f) => {
                let mut g = f.copy();
                g.is_resolved = true;
                self.flags.insert(flag_id, g);
                assert(self.flags@ =~= old(self).flags@.insert(flag_id, self.flags@[flag_id]));
                true
            },
            None => false,
        }
    }

    /// Sets the moderation state of the update at position `i`.
    fn set_moderation(&mut self, i: usize, moderated: bool, reason: Option<String>)
        requires
            old(self).wf(),
            i < old(self).updates@.len(),
        ensures
            final(self).wf(),
            views(final(self).updates@) == views(old(self).updates@).update(
                i as int,
                UpdateView {
                    is_moderated: moderated,
                    moderation_reason: opt_view(reason),
                    is_hidden: moderated,
                    ..old(self).updates@[i as int]@
                },
            ),
            final(self).next_update_id == old(self).next_update_id,
            final(self).same_accounts(old(self)),
            final(self).same_graph(old(self)),
            final(self).same_engagement(old(self)),
            final(self).same_moderation(old(self)),
    {
        let mut up = self.updates[i].copy();
        up.is_moderated = moderated;
        up.moderation_reason = reason;
        up.is_hidden = moderated;
        self.updates.set(i, up);
        assert(views(self.updates@) =~= views(old(self).updates@).update(i as int, up@));
    }

    /// Hides update `update_id` as moderated, with `reason`; false, with
    /// nothing changed, if there is no such update.
    pub fn moderate_update(&mut self, update_id: u64, reason: String, _severity: Severity) -> (r: bool)
        requires
            old(self).wf(),
        ensures
            final(self).wf(),
            r == old(self).update(update_id) is Some,
            !r ==> *final(self) == *old(self),
            r ==> views(final(self).updates@) == views(old(self).updates@).update(
                update_id - 1,
                UpdateView {
                    is_moderated: true,
                    moderation_reason: Some(reason@),
                    is_hidden: true,
                    ..old(self).updates@[update_id - 1]@
                },
            ),
            final(self).next_update_id == old(self).next_update_id,
            final(self).same_accounts(old(self)),
            final(self).same_graph(old(self)),
            final(self).same_engagement(old(self)),
            final(self).same_moderation(old(self)),
    {
        if update_id == 0 || update_id > self.updates.len() as u64 {
            return false;
        }
        self.set_moderation((update_id - 1) as usize, true, Some(reason));
        true
    }

    /// Clears the moderation of update `update_id` and shows it again; false,
    /// with nothing changed, if there is no such update.
    pub fn unmoderate_update(&mut self, update_id: u64) -> (r: bool)
        requires
            old(self).wf(),
        ensures
            final(self).wf(),
            r == old(self).update(update_id) is Some,
            !r ==> *final(self) == *old(self),
            r ==> views(final(self).updates@) == views(old(self).updates@).update(
                update_id - 1,
                UpdateView {
                    is_moderated: false,
                    moderation_reason: None,
                    is_hidden: false,
                    ..old(self).updates@[update_id - 1]@
                },
            ),
            final(self).next_update_id == old(self).next_update_id,
            final(self).same_accounts(old(self)),
            final(self).same_graph(old(self)),
            final(self).same_engagement(old(self)),
            final(self).same_moderation(old(self)),
    {
        if update_id == 0 || update_id > self.updates.len() as u64 {
            return false;
        }
        self.set_moderation((update_id - 1) as usize, false, None);
        true
    }
}

} // verus!
