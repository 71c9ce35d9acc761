//! Which messages become notifications of the desktop, and which
//! notification stands for which room.

use crate::display::message_text;
use crate::event::{EventView, TimelineEvent};
use crate::message::{message_of, Message};
use crate::username::opt_text;
use crate::views::{group_views, views};
use vstd::prelude::*;

verus! {

broadcast use group_views;

/// The notification that is out for a room.
pub struct Outstanding {
    pub room_id: String,
    pub handle: u32,
}

pub struct OutstandingView {
    pub room_id: Seq<char>,
    pub handle: u32,
}

impl View for Outstanding {
    type V = OutstandingView;

    open spec fn view(&self) -> OutstandingView {
        OutstandingView { room_id: self.room_id@, handle: self.handle }
    }
}

/// A notification to show.
pub struct Notice {
    pub room_id: String,
    /// The user who sent the message; the summary is their name.
    pub sender: String,
    pub body: String,
    /// The notification of the same room that this one takes the place of.
    pub replaces: Option<u32>,
}

pub struct NoticeView {
    pub room_id: Seq<char>,
    pub sender: Seq<char>,
    pub body: Seq<char>,
    pub replaces: Option<u32>,
}

impl View for Notice {
    type V = NoticeView;

    open spec fn view(&self) -> NoticeView {
        NoticeView {
            room_id: self.room_id@,
            sender: self.sender@,
            body: self.body@,
            replaces: self.replaces,
        }
    }
}

/// The view of an optional notice.
pub open spec fn opt_notice(n: Option<Notice>) -> Option<NoticeView> {
    match n {
        Some(x) => Some(x@),
        None => None,
    }
}

/// Whether the window has the focus, which room was visited last, and the
/// notifications that are out.
pub struct Notify {
    focus: bool,
    room_id: Option<String>,
    rooms: Vec<Outstanding>,
}

pub struct NotifyView {
    pub focus: bool,
    pub room_id: Option<Seq<char>>,
    pub rooms: Seq<OutstandingView>,
}

impl View for Notify {
    type V = NotifyView;

    closed spec fn view(&self) -> NotifyView {
        NotifyView { focus: self.focus, room_id: opt_text(self.room_id), rooms: views(self.rooms@) }
    }
}

/// The notification that is out for the room, among the first `n`.
pub open spec fn handle_of(rooms: Seq<OutstandingView>, room_id: Seq<char>, n: nat) -> Option<u32>
    decreases n,
{
    if n == 0 || n > rooms.len() {
        None
    } else {
        match handle_of(rooms, room_id, (n - 1) as nat) {
            Some(h) => Some(h),
            None => {
                if rooms[n - 1].room_id == room_id {
                    Some(rooms[n - 1].handle)
                } else {
                    None
                }
            },
        }
    }
}

/// Holds of the notifications of other rooms than `room_id`.
pub open spec fn elsewhere(room_id: Seq<char>) -> spec_fn(OutstandingView) -> bool {
    |o: OutstandingView| o.room_id != room_id
}

/// Whether a message is passed over: it is one's own, its room is muted,
/// or its room is the one that the user is looking at.
pub open spec fn passed_over(g: NotifyView, room_id: Seq<char>, sender: Seq<char>, me: Seq<char>, muted: bool) -> bool {
    sender == me || muted || (g.focus && g.room_id == Some(room_id))
}

/// The notification that an event asks for, if it asks for one: an event
/// that makes a message does, unless the message is passed over.
pub open spec fn noticed(g: NotifyView, e: EventView, me: Seq<char>, muted: bool) -> Option<NoticeView> {
    match message_of(e, true) {
        Some(m) => {
            if passed_over(g, m.room_id, m.sender.id, me, muted) {
                None
            } else {
                Some(
                    NoticeView {
                        room_id: m.room_id,
                        sender: m.sender.id,
                        body: message_text(m),
                        replaces: handle_of(g.rooms, m.room_id, g.rooms.len()),
                    },
                )
            }
        },
        None => None,
    }
}

/// No notification comes of a message of one's own, of a message in a
/// muted room, or of a message in the room that the user is looking at.
pub proof fn lemma_gate(g: NotifyView, e: EventView, me: Seq<char>, muted: bool)
    requires
        message_of(e, true) matches Some(m) && passed_over(g, m.room_id, m.sender.id, me, muted),
    ensures
        noticed(g, e, me, muted) is None,
{
}

impl Notify {
    /// Nothing is out, no room was visited, the window is without focus.
    pub fn new() -> (g: Notify)
        ensures
            g@ == (NotifyView { focus: false, room_id: None, rooms: Seq::empty() }),
    {
        Notify { focus: false, room_id: None, rooms: Vec::new() }
    }

    fn find(&self, room_id: &String) -> (found: Option<u32>)
        ensures
            found == handle_of(self@.rooms, room_id@, self@.rooms.len()),
    {
        let mut i: usize = 0;
        while i < self.rooms.len()
            invariant
                i <= self.rooms.len(),
                handle_of(self@.rooms, room_id@, i as nat) is None,
            decreases self.rooms.len() - i,
        {
            assert(self@.rooms[i as int] == self.rooms@[i as int]@);
            if self.rooms[i].room_id == *room_id {
                proof {
                    lemma_handle_stays(self@.rooms, room_id@, (i + 1) as nat, self@.rooms.len());
                }
                return Some(self.rooms[i].handle);
            }
            i += 1;
        }
        None
    }

    /// The notification that an event asks for: see `noticed`. `muted`
    /// says whether the room of the event is muted.
    pub fn timeline_event(&self, event: &TimelineEvent, me: &str, muted: bool) -> (notice: Option<Notice>)
        ensures
            opt_notice(notice) == noticed(self@, event@, me@, muted),
    {
        let message = match Message::try_from(event, true) {
            Some(m) => m,
            None => {
                return None;
            },
        };
        if crate::text::same_text(message.sender.id.as_str(), me) {
            return None;
        }
        if muted {
            return None;
        }
        if self.focus {
            if let Some(current) = &self.room_id {
                if *current == message.room_id {
                    return None;
                }
            }
        }
        let body = message.display();
        let replaces = self.find(&message.room_id);
        Some(Notice { room_id: message.room_id, sender: message.sender.id, body, replaces })
    }

    /// A notification for the room was shown under the handle `handle`: it
    /// is the one that is out for the room now.
    pub fn shown(&mut self, room_id: String, handle: u32)
        ensures
            final(self)@ == (NotifyView {
                rooms: old(self)@.rooms.filter(elsewhere(room_id@)).push(
                    OutstandingView { room_id: room_id@, handle },
                ),
                ..old(self)@
            }),
    {
        self.forget(&room_id);
        self.rooms.push(Outstanding { room_id, handle });
    }

    fn forget(&mut self, room_id: &String)
        ensures
            final(self)@ == (NotifyView {
                rooms: old(self)@.rooms.filter(elsewhere(room_id@)),
                ..old(self)@
            }),
    {
        let mut all: Vec<Outstanding> = Vec::new();
        std::mem::swap(&mut self.rooms, &mut all);
        let ghost given = views(all@);
        proof {
            reveal(Seq::filter);
            assert(given.take(0).filter(elsewhere(room_id@)) == Seq::<OutstandingView>::empty());
        }
        for o in it: all
            invariant
                given == views(it.seq()),
                self.focus == old(self).focus,
                self.room_id == old(self).room_id,
                views(self.rooms@) == given.take(it.index() as int).filter(elsewhere(room_id@)),
        {
            proof {
                let i = it.index() as int;
                assert(given.take(i + 1) == given.take(i).push(given[i]));
                given.take(i).lemma_filter_push(given[i], elsewhere(room_id@));
            }
            if o.room_id != *room_id {
                self.rooms.push(o);
            }
        }
        assert(given.take(given.len() as int) == given);
    }

    pub fn focus_event(&mut self)
        ensures
            final(self)@ == (NotifyView { focus: true, ..old(self)@ }),
    {
        self.focus = true;
    }

    pub fn blur_event(&mut self)
        ensures
            final(self)@ == (NotifyView { focus: false, ..old(self)@ }),
    {
        self.focus = false;
    }

    /// The user has looked at the room: it is the room that was visited
    /// last, and the notification that is out for it, which is handed back,
    /// is to be closed.
    pub fn room_visit_event(&mut self, room_id: &String) -> (close: Option<u32>)
        ensures
            close == handle_of(old(self)@.rooms, room_id@, old(self)@.rooms.len()),
            final(self)@ == (NotifyView {
                focus: old(self)@.focus,
                room_id: Some(room_id@),
                rooms: old(self)@.rooms.filter(elsewhere(room_id@)),
            }),
    {
        let close = self.find(room_id);
        self.forget(room_id);
        self.room_id = Some(room_id.clone());
        close
    }

    pub fn focused(&self) -> (b: bool)
        ensures
            b == self@.focus,
    {
        self.focus
    }
}

proof fn lemma_handle_stays(rooms: Seq<OutstandingView>, room_id: Seq<char>, n: nat, m: nat)
    requires
        n <= m <= rooms.len(),
        handle_of(rooms, room_id, n) is Some,
    ensures
        handle_of(rooms, room_id, m) == handle_of(rooms, room_id, n),
    decreases m,
{
    if m > n {
        lemma_handle_stays(rooms, room_id, n, (m - 1) as nat);
    }
}

/// Once a room was visited, no notification is out for it.
pub proof fn lemma_visit_clears(rooms: Seq<OutstandingView>, room_id: Seq<char>, n: nat)
    requires
        n <= rooms.filter(elsewhere(room_id)).len(),
    ensures
        handle_of(rooms.filter(elsewhere(room_id)), room_id, n) is None,
    decreases n,
{
    if n > 0 {
        lemma_visit_clears(rooms, room_id, (n - 1) as nat);
        rooms.lemma_filter_pred(elsewhere(room_id), n - 1);
    }
}

} // verus!
