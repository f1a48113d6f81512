//! The records the stores hold: accounts, updates, moderation flags and warnings.
use vstd::prelude::*;
use crate::filter::{opt_view, Severity};
use crate::identity::{Identity, Key};

verus! {

/// An account.
pub struct User {
    pub handle: String,
    pub is_verified: bool,
    pub warning_count: u32,
    pub is_suspended: bool,
    pub suspension_until: Option<u64>,
}

impl User {
    /// The record a fresh registration creates.
    pub open spec fn fresh_spec(handle: String) -> User {
        User {
            handle,
            is_verified: false,
            warning_count: 0,
            is_suspended: false,
            suspension_until: None,
        }
    }

    pub fn fresh(handle: String) -> (r: User)
        ensures
            r == User::fresh_spec(handle),
    {
        User {
            handle,
            is_verified: false,
            warning_count: 0,
            is_suspended: false,
            suspension_until: None,
        }
    }

    pub fn copy(&self) -> (r: User)
        ensures
            r == *self,
    {
        User {
            handle: self.handle.clone(),
            is_verified: self.is_verified,
            warning_count: self.warning_count,
            is_suspended: self.is_suspended,
            suspension_until: self.suspension_until,
        }
    }
}

/// A published record: an original post, a repost or a quote.
pub struct Update {
    pub id: u64,
    pub author: Identity,
    pub content: String,
    pub timestamp: u64,
    pub likes: u64,
    pub reposts: u64,
    pub quotes: u64,
    pub original_post_id: Option<u64>,
    pub quote_content: Option<String>,
    pub is_moderated: bool,
    pub moderation_reason: Option<String>,
    pub is_hidden: bool,
}

/// The mathematical value of an update.
pub struct UpdateView {
    pub id: u64,
    pub author: Seq<u8>,
    pub content: Seq<char>,
    pub timestamp: u64,
    pub likes: u64,
    pub reposts: u64,
    pub quotes: u64,
    pub original_post_id: Option<u64>,
    pub quote_content: Option<Seq<char>>,
    pub is_moderated: bool,
    pub moderation_reason: Option<Seq<char>>,
    pub is_hidden: bool,
}

impl View for Update {
    type V = UpdateView;

    open spec fn view(&self) -> UpdateView {
        UpdateView {
            id: self.id,
            author: self.author@,
            content: self.content@,
            timestamp: self.timestamp,
            likes: self.likes,
            reposts: self.reposts,
            quotes: self.quotes,
            original_post_id: self.original_post_id,
            quote_content: opt_view(self.quote_content),
            is_moderated: self.is_moderated,
            moderation_reason: opt_view(self.moderation_reason),
            is_hidden: self.is_hidden,
        }
    }
}

/// The views of a sequence of updates.
pub open spec fn views(s: Seq<Update>) -> Seq<UpdateView> {
    s.map_values(|u: Update| u@)
}

pub fn copy_text(o: &Option<String>) -> (r: Option<String>)
    ensures
        r == *o,
{
    match o {
        Some(s) => Some(s.clone()),
        None => None,
    }
}

impl Update {
    pub fn copy(&self) -> (r: Update)
        ensures
            r@ == self@,
    {
        Update {
            id: self.id,
            author: self.author.copy(),
            content: self.content.clone(),
            timestamp: self.timestamp,
            likes: self.likes,
            reposts: self.reposts,
            quotes: self.quotes,
            original_post_id: self.original_post_id,
            quote_content: copy_text(&self.quote_content),
            is_moderated: self.is_moderated,
            moderation_reason: copy_text(&self.moderation_reason),
            is_hidden: self.is_hidden,
        }
    }
}

/// A manual report against an update.
pub struct ModerationFlag {
    pub update_id: u64,
    pub flagged_by: Identity,
    pub reason: String,
    pub severity: Severity,
    pub timestamp: u64,
    pub is_resolved: bool,
}

/// The mathematical value of a moderation flag.
pub struct FlagView {
    pub update_id: u64,
    pub flagged_by: Seq<u8>,
    pub reason: Seq<char>,
    pub severity: Severity,
    pub timestamp: u64,
    pub is_resolved: bool,
}

impl View for ModerationFlag {
    type V = FlagView;

    open spec fn view(&self) -> FlagView {
        FlagView {
            update_id: self.update_id,
            flagged_by: self.flagged_by@,
            reason: self.reason@,
            severity: self.severity,
            timestamp: self.timestamp,
            is_resolved: self.is_resolved,
        }
    }
}

impl ModerationFlag {
    pub fn copy(&self) -> (r: ModerationFlag)
        ensures
            r@ == self@,
    {
        ModerationFlag {
            update_id: self.update_id,
            flagged_by: self.flagged_by.copy(),
            reason: self.reason.clone(),
            severity: self.severity,
            timestamp: self.timestamp,
            is_resolved: self.is_resolved,
        }
    }
}

/// A record of a moderation event against a user.
pub struct Warning {
    pub id: u64,
    pub reason: String,
    pub severity: Severity,
    pub timestamp: u64,
    pub expires_at: Option<u64>,
}

impl Warning {
    pub fn copy(&self) -> (r: Warning)
        ensures
            r == *self,
    {
        Warning {
            id: self.id,
            reason: self.reason.clone(),
            severity: self.severity,
            timestamp: self.timestamp,
            expires_at: self.expires_at,
        }
    }
}

pub fn copy_warnings(v: &Vec<Warning>) -> (r: Vec<Warning>)
    ensures
        r@ == v@,
{
    let mut out: Vec<Warning> = Vec::new();
    let mut i: usize = 0;
    while i < v.len()
        invariant
            i <= v.len(),
            out@ == v@.take(i as int),
        decreases v.len() - i,
    {
        out.push(v[i].copy());
        i += 1;
        assert(out@ =~= v@.take(i as int));
    }
    assert(v@.take(i as int) =~= v@);
    out
}

} // verus!
