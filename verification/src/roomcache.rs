//! The rooms that the user has joined, each with what the list of rooms
//! shows of it: its name, how much is unread, and its last message.

use crate::event::{ContentView, BodyView, EventContent, EventView, MessageBody, TimelineEvent};
use crate::username::{copy_opt, opt_text};
use crate::views::{group_views, views};
use vstd::prelude::*;

verus! {

broadcast use group_views;

/// A room with what the list of rooms shows of it.
pub struct DecoratedRoom {
    pub room_id: String,
    pub name: String,
    /// Whether the user has looked at the room since something happened
    /// in it.
    pub visited: bool,
    pub last_message: Option<String>,
    pub last_sender: Option<String>,
    pub last_ts: Option<u64>,
    /// The number of unread messages, as the server counts them.
    pub notifications: u64,
    /// The number of unread messages that name the user.
    pub highlights: u64,
}

pub struct RoomView {
    pub room_id: Seq<char>,
    pub name: Seq<char>,
    pub visited: bool,
    pub last_message: Option<Seq<char>>,
    pub last_sender: Option<Seq<char>>,
    pub last_ts: Option<u64>,
    pub notifications: u64,
    pub highlights: u64,
}

impl View for DecoratedRoom {
    type V = RoomView;

    open spec fn view(&self) -> RoomView {
        RoomView {
            room_id: self.room_id@,
            name: self.name@,
            visited: self.visited,
            last_message: opt_text(self.last_message),
            last_sender: opt_text(self.last_sender),
            last_ts: self.last_ts,
            notifications: self.notifications,
            highlights: self.highlights,
        }
    }
}

/// The number of unread messages that is shown: none once the room was
/// visited.
pub open spec fn unread(r: RoomView) -> u64 {
    if r.visited {
        0
    } else {
        r.notifications
    }
}

/// The number of highlights that is shown: none once the room was visited.
pub open spec fn highlighted(r: RoomView) -> u64 {
    if r.visited {
        0
    } else {
        r.highlights
    }
}

/// What the last events of a room say of its last message.
pub struct Preview {
    pub last_message: Option<String>,
    /// The user who sent the last message.
    pub last_sender: Option<String>,
    pub last_ts: Option<u64>,
}

pub struct PreviewView {
    pub last_message: Option<Seq<char>>,
    pub last_sender: Option<Seq<char>>,
    pub last_ts: Option<u64>,
}

impl View for Preview {
    type V = PreviewView;

    open spec fn view(&self) -> PreviewView {
        PreviewView {
            last_message: opt_text(self.last_message),
            last_sender: opt_text(self.last_sender),
            last_ts: self.last_ts,
        }
    }
}

/// An event as far as it could be read.
pub open spec fn opt_event(e: Option<TimelineEvent>) -> Option<EventView> {
    match e {
        Some(x) => Some(x@),
        None => None,
    }
}

/// The events `v` as far as they could be read.
pub open spec fn read_events(v: Seq<Option<TimelineEvent>>) -> Seq<Option<EventView>> {
    Seq::new(v.len(), |i: int| opt_event(v[i]))
}

/// What the events from `k` on say of the last message, the newest event
/// first: the first text message among them is the last message, whatever
/// stands before it; without a text message there is none. The time is
/// `ts` if a time was found before, else that of the first event that
/// could be read.
pub open spec fn previewed(events: Seq<Option<EventView>>, k: int, ts: Option<u64>) -> PreviewView
    decreases events.len() - k,
{
    if k < 0 || k >= events.len() {
        PreviewView { last_message: None, last_sender: None, last_ts: ts }
    } else {
        match events[k] {
            Some(e) => {
                let seen = match ts {
                    Some(t) => Some(t),
                    None => Some(e.ts),
                };
                match e.content {
                    ContentView::Message { body: BodyView::Text { body }, .. } => PreviewView {
                        last_message: Some(body),
                        last_sender: Some(e.sender),
                        last_ts: seen,
                    },
                    _ => previewed(events, k + 1, seen),
                }
            },
            None => previewed(events, k + 1, ts),
        }
    }
}

impl DecoratedRoom {
    pub fn room_id(&self) -> (id: &str)
        ensures
            id@ == self@.room_id,
    {
        self.room_id.as_str()
    }

    pub fn unread_count(&self) -> (n: u64)
        ensures
            n == unread(self@),
    {
        if self.visited {
            return 0;
        }
        self.notifications
    }

    pub fn highlight_count(&self) -> (n: u64)
        ensures
            n == highlighted(self@),
    {
        if self.visited {
            return 0;
        }
        self.highlights
    }

    pub fn copy(&self) -> (c: DecoratedRoom)
        ensures
            c@ == self@,
    {
        DecoratedRoom {
            room_id: self.room_id.clone(),
            name: self.name.clone(),
            visited: self.visited,
            last_message: copy_opt(&self.last_message),
            last_sender: copy_opt(&self.last_sender),
            last_ts: self.last_ts,
            notifications: self.notifications,
            highlights: self.highlights,
        }
    }

    /// What the last events of a room, the newest first, say of its last
    /// message: see `previewed`. An event that could not be read is `None`.
    pub fn preview(events: &Vec<Option<TimelineEvent>>) -> (p: Preview)
        ensures
            p@ == previewed(read_events(events@), 0, None),
    {
        let ghost es = read_events(events@);
        let mut ts: Option<u64> = None;
        let mut k: usize = 0;
        while k < events.len()
            invariant
                k <= events.len(),
                es == read_events(events@),
                previewed(es, k as int, ts) == previewed(es, 0, None),
            decreases events.len() - k,
        {
            assert(es[k as int] == opt_event(events@[k as int]));
            if let Some(e) = &events[k] {
                if ts.is_none() {
                    ts = Some(e.ts);
                }
                if let EventContent::Message { body: MessageBody::Text { body }, .. } = &e.content {
                    return Preview {
                        last_message: Some(body.clone()),
                        last_sender: Some(e.sender.clone()),
                        last_ts: ts,
                    };
                }
            }
            k += 1;
        }
        Preview { last_message: None, last_sender: None, last_ts: ts }
    }

    /// A room as it is when something has happened in it: not visited.
    pub fn from_room(room_id: String, name: String, notifications: u64, highlights: u64, preview: Preview) -> (r:
        DecoratedRoom)
        ensures
            r@ == (RoomView {
                room_id: room_id@,
                name: name@,
                visited: false,
                last_message: preview@.last_message,
                last_sender: preview@.last_sender,
                last_ts: preview@.last_ts,
                notifications,
                highlights,
            }),
    {
        DecoratedRoom {
            room_id,
            name,
            visited: false,
            last_message: preview.last_message,
            last_sender: preview.last_sender,
            last_ts: preview.last_ts,
            notifications,
            highlights,
        }
    }
}

/// The index of the first of the first `n` rooms with the id `id`; `n`
/// where none has it.
pub open spec fn room_index(rooms: Seq<RoomView>, id: Seq<char>, n: nat) -> nat
    decreases n,
{
    if n == 0 || n > rooms.len() {
        n
    } else {
        let before = room_index(rooms, id, (n - 1) as nat);
        if before < n - 1 {
            before
        } else if rooms[n - 1].room_id == id {
            (n - 1) as nat
        } else {
            n
        }
    }
}

/// The rooms after the user looked at the room `id`.
pub open spec fn visited(rooms: Seq<RoomView>, id: Seq<char>) -> Seq<RoomView> {
    let i = room_index(rooms, id, rooms.len());
    if i < rooms.len() {
        rooms.update(i as int, RoomView { visited: true, ..rooms[i as int] })
    } else {
        rooms
    }
}

/// The rooms after something happened in the room `room`: it takes the
/// place of what was known of it, and a room that is new comes first.
pub open spec fn refreshed(rooms: Seq<RoomView>, room: RoomView) -> Seq<RoomView> {
    let i = room_index(rooms, room.room_id, rooms.len());
    if i < rooms.len() {
        rooms.update(i as int, room)
    } else {
        rooms.insert(0, room)
    }
}

/// Copies of the rooms of `v`.
pub fn copy_rooms(v: &Vec<DecoratedRoom>) -> (c: Vec<DecoratedRoom>)
    ensures
        views(c@) == views(v@),
{
    let mut c: Vec<DecoratedRoom> = Vec::new();
    let mut i: usize = 0;
    while i < v.len()
        invariant
            i <= v.len(),
            views(c@) == views(v@.take(i as int)),
        decreases v.len() - i,
    {
        c.push(v[i].copy());
        assert(v@.take(i + 1) == v@.take(i as int).push(v@[i as int]));
        i += 1;
    }
    assert(v@.take(v.len() as int) == v@);
    c
}

/// The rooms that the user has joined.
pub struct RoomCache {
    rooms: Vec<DecoratedRoom>,
}

impl View for RoomCache {
    type V = Seq<RoomView>;

    closed spec fn view(&self) -> Seq<RoomView> {
        views(self.rooms@)
    }
}

impl RoomCache {
    pub fn new() -> (c: RoomCache)
        ensures
            c@ == Seq::<RoomView>::empty(),
    {
        RoomCache { rooms: Vec::new() }
    }

    /// Takes the rooms as they are now.
    pub fn populate(&mut self, rooms: Vec<DecoratedRoom>)
        ensures
            final(self)@ == views(rooms@),
    {
        self.rooms = rooms;
    }

    pub fn get_rooms(&self) -> (rooms: Vec<DecoratedRoom>)
        ensures
            views(rooms@) == self@,
    {
        copy_rooms(&self.rooms)
    }

    fn find(&self, room_id: &str) -> (i: usize)
        ensures
            i == room_index(self@, room_id@, self@.len()),
            i <= self@.len(),
    {
        let mut i: usize = 0;
        while i < self.rooms.len()
            invariant
                i <= self.rooms.len(),
                room_index(self@, room_id@, i as nat) == i,
            decreases self.rooms.len() - i,
        {
            assert(self@[i as int] == self.rooms@[i as int]@);
            if crate::text::same_text(self.rooms[i].room_id.as_str(), room_id) {
                proof {
                    lemma_index_stays(self@, room_id@, (i + 1) as nat, self@.len());
                }
                return i;
            }
            i += 1;
        }
        i
    }

    /// What is known of the room `room_id`, if it is one of the rooms.
    pub fn wrap(&self, room_id: &str) -> (room: Option<DecoratedRoom>)
        ensures
            match room {
                Some(r) => room_index(self@, room_id@, self@.len()) < self@.len() && r@
                    == self@[room_index(self@, room_id@, self@.len()) as int],
                None => room_index(self@, room_id@, self@.len()) >= self@.len(),
            },
    {
        let i = self.find(room_id);
        if i < self.rooms.len() {
            Some(self.rooms[i].copy())
        } else {
            None
        }
    }

    /// The user has looked at the room: see `visited`.
    pub fn room_visit_event(&mut self, room_id: &str)
        ensures
            final(self)@ == visited(old(self)@, room_id@),
    {
        let i = self.find(room_id);
        if i < self.rooms.len() {
            let room = &mut self.rooms[i];
            room.visited = true;
            assert(self@ =~= visited(old(self)@, room_id@));
        }
    }

    /// Something has happened in a room, and this is how the room is now:
    /// see `refreshed`.
    pub fn timeline_event(&mut self, room: DecoratedRoom)
        ensures
            final(self)@ == refreshed(old(self)@, room@),
    {
        let i = self.find(room.room_id.as_str());
        if i < self.rooms.len() {
            self.rooms.set(i, room);
        } else {
            self.rooms.insert(0, room);
        }
    }
}

proof fn lemma_index_stays(rooms: Seq<RoomView>, id: Seq<char>, n: nat, m: nat)
    requires
        n <= m <= rooms.len(),
        room_index(rooms, id, n) < n,
    ensures
        room_index(rooms, id, m) == room_index(rooms, id, n),
    decreases m,
{
    if m > n {
        lemma_index_stays(rooms, id, n, (m - 1) as nat);
    }
}

/// Whether the room `a` comes no later than the room `b` in the list: it
/// has more unread messages, or as many and a last message that is no
/// older. A room without a last message counts as the oldest.
pub open spec fn ranks_above(a: RoomView, b: RoomView) -> bool {
    unread(a) > unread(b) || (unread(a) == unread(b) && match (a.last_ts, b.last_ts) {
        (Some(x), Some(y)) => x >= y,
        (Some(_), None) => true,
        (None, Some(_)) => false,
        (None, None) => true,
    })
}

/// Where a room goes in a list that is in order: before the first room
/// that it ranks above.
pub open spec fn slot(rooms: Seq<RoomView>, r: RoomView) -> int
    decreases rooms.len(),
{
    if rooms.len() == 0 || ranks_above(r, rooms[0]) {
        0
    } else {
        1 + slot(rooms.drop_first(), r)
    }
}

/// The rooms in the order of the list: those with more unread messages
/// first, then those with the newer last message; of rooms that are equal
/// in both, the one that stood later comes first.
pub open spec fn arranged(rooms: Seq<RoomView>) -> Seq<RoomView>
    decreases rooms.len(),
{
    if rooms.len() == 0 {
        Seq::empty()
    } else {
        let before = arranged(rooms.drop_last());
        before.insert(slot(before, rooms.last()), rooms.last())
    }
}

/// Each room of the list ranks above the next.
pub open spec fn in_order(rooms: Seq<RoomView>) -> bool {
    forall|i: int, j: int| 0 <= i < j < rooms.len() ==> ranks_above(rooms[i], rooms[j])
}

proof fn lemma_slot(rooms: Seq<RoomView>, r: RoomView)
    requires
        in_order(rooms),
    ensures
        0 <= slot(rooms, r) <= rooms.len(),
        forall|i: int| 0 <= i < slot(rooms, r) ==> ranks_above(rooms[i], r),
        forall|i: int| slot(rooms, r) <= i < rooms.len() ==> ranks_above(r, rooms[i]),
    decreases rooms.len(),
{
    if rooms.len() > 0 {
        let rest = rooms.drop_first();
        assert forall|i: int, j: int| 0 <= i < j < rest.len() implies ranks_above(rest[i], rest[j]) by {
            assert(ranks_above(rooms[i + 1], rooms[j + 1]));
        }
        if ranks_above(r, rooms[0]) {
            assert forall|i: int| 0 <= i < rooms.len() implies ranks_above(r, rooms[i]) by {
                if i > 0 {
                    assert(ranks_above(rooms[0], rooms[i]));
                }
            }
        } else {
            lemma_slot(rest, r);
            assert forall|i: int| 0 <= i < slot(rooms, r) implies ranks_above(rooms[i], r) by {
                if i > 0 {
                    assert(ranks_above(rest[i - 1], r));
                }
            }
            assert forall|i: int| slot(rooms, r) <= i < rooms.len() implies ranks_above(r, rooms[i]) by {
                assert(ranks_above(r, rest[i - 1]));
            }
        }
    }
}

/// The arranged list is in order, and it holds the same rooms.
pub proof fn lemma_arranged(rooms: Seq<RoomView>)
    ensures
        in_order(arranged(rooms)),
        arranged(rooms).to_multiset() == rooms.to_multiset(),
        arranged(rooms).len() == rooms.len(),
    decreases rooms.len(),
{
    broadcast use vstd::seq_lib::to_multiset_insert, vstd::seq_lib::to_multiset_build;

    if rooms.len() > 0 {
        let before = arranged(rooms.drop_last());
        let r = rooms.last();
        lemma_arranged(rooms.drop_last());
        lemma_slot(before, r);
        let k = slot(before, r);
        let out = before.insert(k, r);
        assert forall|i: int, j: int| 0 <= i < j < out.len() implies ranks_above(out[i], out[j]) by {
            if j < k {
                assert(ranks_above(before[i], before[j]));
            } else if j == k {
                assert(ranks_above(before[i], r));
            } else if i < k {
                assert(ranks_above(before[i], before[j - 1]));
            } else if i == k {
                assert(ranks_above(r, before[j - 1]));
            } else {
                assert(ranks_above(before[i - 1], before[j - 1]));
            }
        }
        assert(rooms == rooms.drop_last().push(r));
        assert(out.to_multiset() == before.to_multiset().insert(r));
        assert(rooms.to_multiset() == rooms.drop_last().to_multiset().insert(r));
    } else {
        assert(rooms =~= Seq::<RoomView>::empty());
    }
}

fn ranks(a: &DecoratedRoom, b: &DecoratedRoom) -> (above: bool)
    ensures
        above == ranks_above(a@, b@),
{
    let x = a.unread_count();
    let y = b.unread_count();
    if x != y {
        return x > y;
    }
    match (a.last_ts, b.last_ts) {
        (Some(s), Some(t)) => s >= t,
        (Some(_), None) => true,
        (None, Some(_)) => false,
        (None, None) => true,
    }
}

/// Puts the rooms in the order of the list: see `arranged`.
pub fn sort_rooms(rooms: &mut Vec<DecoratedRoom>)
    ensures
        views(final(rooms)@) == arranged(views(old(rooms)@)),
{
    let mut all: Vec<DecoratedRoom> = Vec::new();
    std::mem::swap(rooms, &mut all);
    let ghost given = views(all@);
    proof {
        assert(given.take(0) == Seq::<RoomView>::empty());
    }
    for r in it: all
        invariant
            given == views(it.seq()),
            views(rooms@) == arranged(given.take(it.index() as int)),
    {
        let ghost before = views(rooms@);
        proof {
            let i = it.index() as int;
            assert(given.take(i + 1).drop_last() == given.take(i));
            assert(given.take(i + 1).last() == r@);
            lemma_arranged(given.take(i));
            assert(before.skip(0) == before);
        }
        let mut k: usize = 0;
        while k < rooms.len() && !ranks(&r, &rooms[k])
            invariant
                k <= rooms.len(),
                before == views(rooms@),
                slot(before, r@) == k + slot(before.skip(k as int), r@),
            decreases rooms.len() - k,
        {
            assert(before.skip(k as int)[0] == rooms@[k as int]@);
            assert(before.skip(k as int).drop_first() == before.skip(k + 1));
            k += 1;
        }
        proof {
            if k < rooms.len() {
                assert(before.skip(k as int)[0] == rooms@[k as int]@);
            }
        }
        rooms.insert(k, r);
    }
    assert(given.take(given.len() as int) == given);
}

} // verus!
