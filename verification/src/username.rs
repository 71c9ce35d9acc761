//! User ids with a display name that is learnt later.

use crate::views::{group_views, views};
use vstd::prelude::*;

verus! {

broadcast use group_views;

/// What a room knows of one of its members.
pub struct Member {
    pub user_id: String,
    pub display_name: Option<String>,
}

/// A user id, with the display name once a member record has brought it.
pub struct Username {
    pub id: String,
    pub display_name: Option<String>,
}

pub struct MemberView {
    pub user_id: Seq<char>,
    pub display_name: Option<Seq<char>>,
}

pub struct UsernameView {
    pub id: Seq<char>,
    pub display_name: Option<Seq<char>>,
}

/// The view of an optional string.
pub open spec fn opt_text(s: Option<String>) -> Option<Seq<char>> {
    match s {
        Some(t) => Some(t@),
        None => None,
    }
}

impl View for Member {
    type V = MemberView;

    open spec fn view(&self) -> MemberView {
        MemberView { user_id: self.user_id@, display_name: opt_text(self.display_name) }
    }
}

impl View for Username {
    type V = UsernameView;

    open spec fn view(&self) -> UsernameView {
        UsernameView { id: self.id@, display_name: opt_text(self.display_name) }
    }
}

/// A user of whom only the id is known.
pub open spec fn fresh(id: Seq<char>) -> UsernameView {
    UsernameView { id, display_name: None }
}

/// `name` after the member record `member` has been seen: the record of the
/// same user replaces the display name, any other record changes nothing.
pub open spec fn updated(name: UsernameView, member: MemberView) -> UsernameView {
    if name.id == member.user_id {
        UsernameView { id: name.id, display_name: member.display_name }
    } else {
        name
    }
}

/// `name` after each of `members` has been seen, in order.
pub open spec fn updated_by_all(name: UsernameView, members: Seq<MemberView>) -> UsernameView
    decreases members.len(),
{
    if members.len() == 0 {
        name
    } else {
        updated(updated_by_all(name, members.drop_last()), members.last())
    }
}

/// What is shown for a user: the display name if there is one, else the id.
pub open spec fn shown(name: UsernameView) -> Seq<char> {
    match name.display_name {
        Some(d) => d,
        None => name.id,
    }
}

/// A copy of an optional string.
pub fn copy_opt(s: &Option<String>) -> (c: Option<String>)
    ensures
        opt_text(c) == opt_text(*s),
{
    match s {
        Some(t) => Some(t.clone()),
        None => None,
    }
}

impl Username {
    pub fn new(id: String) -> (name: Username)
        ensures
            name@ == fresh(id@),
    {
        Username { id, display_name: None }
    }

    /// Takes the display name over from `member` if it is the same user.
    pub fn update(&mut self, member: &Member)
        ensures
            final(self)@ == updated(old(self)@, member@),
    {
        if self.id == member.user_id {
            self.display_name = copy_opt(&member.display_name);
        }
    }

    /// Takes the display name over from each of `members` in turn.
    pub fn update_all(&mut self, members: &Vec<Member>)
        ensures
            final(self)@ == updated_by_all(old(self)@, views(members@)),
    {
        let ghost all = views(members@);
        let mut i: usize = 0;
        assert(all.take(0) == Seq::<MemberView>::empty());
        while i < members.len()
            invariant
                i <= members.len(),
                all == views(members@),
                self@ == updated_by_all(old(self)@, all.take(i as int)),
            decreases members.len() - i,
        {
            self.update(&members[i]);
            assert(all.take(i + 1).drop_last() == all.take(i as int));
            i += 1;
        }
        assert(all.take(members.len() as int) == all);
    }

    pub fn as_str(&self) -> (s: &str)
        ensures
            s@ == shown(self@),
    {
        match &self.display_name {
            Some(d) => d.as_str(),
            None => self.id.as_str(),
        }
    }

    /// Whether both name the same user, whatever is known of the display names.
    pub fn same_user(&self, other: &Username) -> (same: bool)
        ensures
            same == (self@.id == other@.id),
    {
        self.id == other.id
    }

    pub fn copy(&self) -> (c: Username)
        ensures
            c@ == self@,
    {
        Username { id: self.id.clone(), display_name: copy_opt(&self.display_name) }
    }
}

} // verus!
