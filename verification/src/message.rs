//! Messages as the chat shows them: a tree of messages and their replies,
//! each with its edits, reactions and read receipts, built up from the
//! events of a room.

use crate::event::{
    BodyView, ContentView, EventContent, EventView, MessageBody, Relation, RelationView,
    TimelineEvent,
};
use crate::reaction::{
    copy_reactions, single, Reaction, ReactionEvent, ReactionEventView, ReactionView,
};
use crate::username::{copy_opt, fresh, opt_text, Username, UsernameView};
use crate::views::{group_views, views};
use vstd::prelude::*;

verus! {

broadcast use group_views;

/// A line of the chat: what a user would call a message. Events come in
/// and change it: edits, reactions, replies, redactions, receipts.
pub struct Message {
    pub id: String,
    pub in_reply_to: Option<String>,
    pub room_id: String,
    /// When the server received it, in milliseconds since the Unix epoch.
    pub sent: u64,
    /// The content after the last edit.
    pub body: MessageBody,
    /// The contents that edits replaced, oldest first.
    pub history: Vec<MessageBody>,
    pub sender: Username,
    pub reactions: Vec<Reaction>,
    pub replies: Vec<Message>,
    /// The users whose read marker stands at this message.
    pub receipts: Vec<Username>,
}

pub struct MessageView {
    pub id: Seq<char>,
    pub in_reply_to: Option<Seq<char>>,
    pub room_id: Seq<char>,
    pub sent: u64,
    pub body: BodyView,
    pub history: Seq<BodyView>,
    pub sender: UsernameView,
    pub reactions: Seq<ReactionView>,
    pub replies: Seq<MessageView>,
    pub receipts: Seq<UsernameView>,
}

/// The mathematical model of a message and of the replies below it.
pub open spec fn message_view(m: Message) -> MessageView
    decreases m,
{
    MessageView {
        id: m.id@,
        in_reply_to: opt_text(m.in_reply_to),
        room_id: m.room_id@,
        sent: m.sent,
        body: m.body@,
        history: views(m.history@),
        sender: m.sender@,
        reactions: views(m.reactions@),
        replies: Seq::new(
            m.replies@.len(),
            |i: int|
                if 0 <= i < m.replies@.len() {
                    message_view(m.replies@[i])
                } else {
                    arbitrary()
                },
        ),
        receipts: views(m.receipts@),
    }
}

impl View for Message {
    type V = MessageView;

    open spec fn view(&self) -> MessageView {
        message_view(*self)
    }
}

/// The replies of a message's view are the views of its replies.
pub broadcast proof fn lemma_replies_view(m: Message)
    ensures
        #[trigger] m@.replies == views(m.replies@),
{
    assert(m@.replies =~= views(m.replies@));
}

/// What became of an event that was handed to a list of messages.
#[derive(Clone, Copy, Debug, PartialEq, Eq, Structural)]
pub enum MergeResult {
    /// A message took the event in.
    Consumed,
    /// The event answers a message that is not there.
    Missed,
    /// The event changes no message, or only takes something away.
    Ignored,
}

/// The message that the event `e` starts, with the content `body`.
pub open spec fn started(e: EventView, body: BodyView, in_reply_to: Option<Seq<char>>) -> MessageView {
    MessageView {
        id: e.id,
        in_reply_to,
        room_id: e.room_id,
        sent: e.ts,
        body,
        history: Seq::empty(),
        sender: fresh(e.sender),
        reactions: Seq::empty(),
        replies: Seq::empty(),
        receipts: Seq::empty(),
    }
}

/// The message that an event makes by itself, if it makes one: a text,
/// image, video or file that replaces nothing. An answer to another message
/// makes one only where `force` is set.
pub open spec fn message_of(e: EventView, force: bool) -> Option<MessageView> {
    match e.content {
        ContentView::Message { body, relation } => {
            if body is Other {
                None
            } else {
                match relation {
                    RelationView::Replacement { .. } => None,
                    RelationView::Reply { event_id } => {
                        if force {
                            Some(started(e, body, Some(event_id)))
                        } else {
                            None
                        }
                    },
                    RelationView::Plain => Some(started(e, body, None)),
                }
            }
        },
        _ => None,
    }
}

/// Whether one of `ms` has the id `id`.
pub open spec fn has_id(ms: Seq<MessageView>, id: Seq<char>) -> bool {
    exists|i: int| 0 <= i < ms.len() && (#[trigger] ms[i]).id == id
}

/// Whether `ms[i]` is the first of `ms` with the id `id`.
pub open spec fn is_first(ms: Seq<MessageView>, id: Seq<char>, i: int) -> bool {
    &&& 0 <= i < ms.len()
    &&& ms[i].id == id
    &&& forall|j: int| 0 <= j < i ==> (#[trigger] ms[j]).id != id
}

/// The index of the first of `ms` with the id `id`.
pub open spec fn position(ms: Seq<MessageView>, id: Seq<char>) -> int {
    choose|i: int| is_first(ms, id, i)
}

/// The first message with an id is the one that `position` names.
pub proof fn lemma_position(ms: Seq<MessageView>, id: Seq<char>, i: int)
    requires
        is_first(ms, id, i),
    ensures
        position(ms, id) == i,
        has_id(ms, id),
{
    let p = position(ms, id);
    assert(is_first(ms, id, p));
    if p < i {
        assert(ms[p].id != id);
    }
    if i < p {
        assert(ms[i].id != id);
    }
}

/// `m` after an edit that installs `body`: the old content goes to the end
/// of the history.
pub open spec fn edited(m: MessageView, body: BodyView) -> MessageView {
    MessageView { body, history: m.history.push(m.body), ..m }
}

/// `m` with one more reply.
pub open spec fn with_reply(m: MessageView, reply: MessageView) -> MessageView {
    MessageView { replies: m.replies.push(reply), ..m }
}

/// `m` with one more reaction.
pub open spec fn with_reaction(m: MessageView, r: ReactionView) -> MessageView {
    MessageView { reactions: m.reactions.push(r), ..m }
}

/// The depth of the replies to a list at depth `d`. Below the fourth level
/// nothing nests, and the depth is no longer counted.
pub open spec fn deeper(d: nat) -> nat {
    if d > 3 {
        d
    } else {
        d + 1
    }
}

/// The message that the event `e` looks for in a list, if it looks for one:
/// the one it edits, answers or reacts to.
pub open spec fn target(e: EventView) -> Option<Seq<char>> {
    match e.content {
        ContentView::Message { relation: RelationView::Replacement { event_id, .. }, .. } => Some(
            event_id,
        ),
        ContentView::Message { body, relation: RelationView::Reply { event_id } } => {
            if body is Other {
                None
            } else {
                Some(event_id)
            }
        },
        ContentView::Reaction { relates_to, .. } => Some(relates_to),
        _ => None,
    }
}

/// Whether the event `e` finds its message in the list `ms` itself.
pub open spec fn handled(ms: Seq<MessageView>, e: EventView) -> bool {
    target(e) matches Some(id) && has_id(ms, id)
}

/// The list `ms`, at depth `d`, after the event `e` found its message in
/// it. An edit and a reaction change that message where it stands. A reply
/// goes under it and moves it to the end of the list; at depth four and
/// below the reply is added to the list itself instead.
pub open spec fn applied_here(ms: Seq<MessageView>, e: EventView, d: nat) -> Seq<MessageView> {
    let i = position(ms, target(e).unwrap());
    match e.content {
        ContentView::Message { relation: RelationView::Replacement { new_body, .. }, .. } => {
            ms.update(i, edited(ms[i], new_body))
        },
        ContentView::Message { body, relation: RelationView::Reply { event_id } } => {
            let reply = started(e, body, Some(event_id));
            if d > 3 {
                ms.push(reply)
            } else {
                ms.remove(i).push(with_reply(ms[i], reply))
            }
        },
        ContentView::Reaction { key, .. } => {
            ms.update(i, with_reaction(ms[i], single(key, e.id, e.sender)))
        },
        _ => ms,
    }
}

/// The event that the redaction `e` deletes, if `e` is a redaction that
/// names one.
pub open spec fn redacted(e: EventView) -> Option<Seq<char>> {
    match e.content {
        ContentView::Redaction { redacts } => redacts,
        _ => None,
    }
}

/// Holds of the reaction events other than `id`.
pub open spec fn not_event(id: Seq<char>) -> spec_fn(ReactionEventView) -> bool {
    |e: ReactionEventView| e.id != id
}

/// Holds of the messages other than `id`.
pub open spec fn not_message(id: Seq<char>) -> spec_fn(MessageView) -> bool {
    |m: MessageView| m.id != id
}

/// Holds of the reactions that have an event.
pub open spec fn occupied() -> spec_fn(ReactionView) -> bool {
    |r: ReactionView| r.events.len() > 0
}

/// The reactions `rs`, each without the event `id`.
pub open spec fn stripped(rs: Seq<ReactionView>, id: Seq<char>) -> Seq<ReactionView> {
    Seq::new(
        rs.len(),
        |i: int| ReactionView { body: rs[i].body, events: rs[i].events.filter(not_event(id)) },
    )
}

/// The reactions `rs` after the event `id` was deleted: no reaction holds
/// it, and no reaction is left without events.
pub open spec fn without_event(rs: Seq<ReactionView>, id: Seq<char>) -> Seq<ReactionView> {
    stripped(rs, id).filter(occupied())
}

/// The reactions `rs` after the event `e`.
pub open spec fn cleaned(rs: Seq<ReactionView>, e: EventView) -> Seq<ReactionView> {
    match redacted(e) {
        Some(id) => without_event(rs, id),
        None => rs,
    }
}

/// The list `ms`, at depth `d`, after the event `e` was handed to it.
///
/// Where `e` finds its message in `ms`, see `applied_here`. Otherwise the
/// event is handed on to the replies of every message; a redaction also
/// takes its event out of the reactions of every message, and takes the
/// messages with that id out of the list.
pub open spec fn merged(ms: Seq<MessageView>, e: EventView, d: nat) -> Seq<MessageView>
    decreases ms, 1nat,
{
    if handled(ms, e) {
        applied_here(ms, e, d)
    } else {
        match redacted(e) {
            Some(id) => handed_down(ms, e, d).filter(not_message(id)),
            None => handed_down(ms, e, d),
        }
    }
}

/// The messages of `ms`, each with the reactions and the replies that the
/// event `e` leaves it.
pub open spec fn handed_down(ms: Seq<MessageView>, e: EventView, d: nat) -> Seq<MessageView>
    decreases ms, 0nat,
{
    Seq::new(
        ms.len(),
        |i: int|
            if 0 <= i < ms.len() {
                MessageView {
                    reactions: cleaned(ms[i].reactions, e),
                    replies: merged(ms[i].replies, e, deeper(d)),
                    ..ms[i]
                }
            } else {
                arbitrary()
            },
    )
}

/// The result with which the search for the message of `e` starts: an
/// answer is missed until its message is found.
pub open spec fn unplaced(e: EventView) -> MergeResult {
    match e.content {
        ContentView::Message { relation: RelationView::Reply { .. }, .. } => MergeResult::Missed,
        _ => MergeResult::Ignored,
    }
}

/// Whether a message with the id `id` stands in the tree `ms`: in the list
/// itself or among the replies below it, at any depth.
pub open spec fn occurs(ms: Seq<MessageView>, id: Seq<char>) -> bool
    decreases ms,
{
    exists|i: int|
        0 <= i < ms.len() && ((#[trigger] ms[i]).id == id || occurs(ms[i].replies, id))
}

/// Whether a message with the id `id` stands below one of the first `n`
/// messages of `ms`.
pub open spec fn occurs_below(ms: Seq<MessageView>, id: Seq<char>, n: nat) -> bool {
    exists|j: int| 0 <= j < n && j < ms.len() && occurs((#[trigger] ms[j]).replies, id)
}

/// A message stands in a tree if it stands in the list or below one of
/// its messages.
pub proof fn lemma_occurs(ms: Seq<MessageView>, id: Seq<char>)
    ensures
        occurs(ms, id) == (has_id(ms, id) || occurs_below(ms, id, ms.len())),
{
    if occurs(ms, id) {
        let i = choose|i: int|
            0 <= i < ms.len() && ((#[trigger] ms[i]).id == id || occurs(ms[i].replies, id));
        if ms[i].id != id {
            assert(occurs(ms[i].replies, id));
        }
    }
    if has_id(ms, id) {
        let i = choose|i: int| 0 <= i < ms.len() && (#[trigger] ms[i]).id == id;
        assert(ms[i].id == id);
    }
    if occurs_below(ms, id, ms.len()) {
        let j = choose|j: int| 0 <= j < ms.len() && occurs((#[trigger] ms[j]).replies, id);
        assert(occurs(ms[j].replies, id));
    }
}

/// What `apply_timeline_event` returns for the tree `ms`: `Consumed` where
/// the message that the event edits, answers or reacts to stands anywhere
/// in the tree; otherwise `Missed` for an answer and `Ignored` for every
/// other event.
pub open spec fn merge_result(ms: Seq<MessageView>, e: EventView) -> MergeResult {
    match target(e) {
        Some(id) => if occurs(ms, id) {
            MergeResult::Consumed
        } else {
            unplaced(e)
        },
        None => unplaced(e),
    }
}

/// The result after the replies of the first `n` messages of `ms` had the
/// event, where the event did not find its message in `ms` itself.
pub open spec fn result_below(ms: Seq<MessageView>, e: EventView, n: nat) -> MergeResult {
    match target(e) {
        Some(id) => if occurs_below(ms, id, n) {
            MergeResult::Consumed
        } else {
            unplaced(e)
        },
        None => unplaced(e),
    }
}

/// The view of an optional message.
pub open spec fn opt_message(m: Option<Message>) -> Option<MessageView> {
    match m {
        Some(x) => Some(x@),
        None => None,
    }
}

/// Copies of the bodies of `v`.
pub fn copy_bodies(v: &Vec<MessageBody>) -> (c: Vec<MessageBody>)
    ensures
        views(c@) == views(v@),
{
    let mut c: Vec<MessageBody> = Vec::new();
    let mut i: usize = 0;
    while i < v.len()
        invariant
            i <= v.len(),
            views(c@) == views(v@.take(i as int)),
        decreases v.len() - i,
    {
        c.push(v[i].copy());
        assert(v@.take(i + 1) == v@.take(i as int).push(v@[i as int]));
        i += 1;
    }
    assert(v@.take(v.len() as int) == v@);
    c
}

/// Copies of the user names of `v`.
pub fn copy_usernames(v: &Vec<Username>) -> (c: Vec<Username>)
    ensures
        views(c@) == views(v@),
{
    let mut c: Vec<Username> = Vec::new();
    let mut i: usize = 0;
    while i < v.len()
        invariant
            i <= v.len(),
            views(c@) == views(v@.take(i as int)),
        decreases v.len() - i,
    {
        c.push(v[i].copy());
        assert(v@.take(i + 1) == v@.take(i as int).push(v@[i as int]));
        i += 1;
    }
    assert(v@.take(v.len() as int) == v@);
    c
}

/// Copies of the messages of `v`, replies included.
pub fn copy_messages(v: &Vec<Message>) -> (c: Vec<Message>)
    ensures
        views(c@) == views(v@),
    decreases v,
{
    let mut c: Vec<Message> = Vec::new();
    let mut i: usize = 0;
    while i < v.len()
        invariant
            i <= v.len(),
            views(c@) == views(v@.take(i as int)),
        decreases v.len() - i,
    {
        c.push(v[i].copy());
        assert(v@.take(i + 1) == v@.take(i as int).push(v@[i as int]));
        i += 1;
    }
    assert(v@.take(v.len() as int) == v@);
    c
}

/// The index of the first of `messages` with the id `id`.
pub fn find(messages: &Vec<Message>, id: &String) -> (found: Option<usize>)
    ensures
        found matches Some(i) ==> is_first(views(messages@), id@, i as int),
        found is None ==> !has_id(views(messages@), id@),
{
    let mut i: usize = 0;
    while i < messages.len()
        invariant
            i <= messages.len(),
            forall|j: int| 0 <= j < i ==> (#[trigger] views(messages@)[j]).id != id@,
        decreases messages.len() - i,
    {
        if messages[i].id == *id {
            return Some(i);
        }
        i += 1;
    }
    None
}

impl Message {
    pub fn copy(&self) -> (c: Message)
        ensures
            c@ == self@,
        decreases self,
    {
        let c = Message {
            id: self.id.clone(),
            in_reply_to: copy_opt(&self.in_reply_to),
            room_id: self.room_id.clone(),
            sent: self.sent,
            body: self.body.copy(),
            history: copy_bodies(&self.history),
            sender: self.sender.copy(),
            reactions: copy_reactions(&self.reactions),
            replies: copy_messages(&self.replies),
            receipts: copy_usernames(&self.receipts),
        };
        proof {
            lemma_replies_view(c);
            lemma_replies_view(*self);
        }
        c
    }

    /// Installs a new content and keeps the old one in the history.
    pub fn edit(&mut self, new_body: MessageBody)
        ensures
            final(self)@ == edited(old(self)@, new_body@),
    {
        let mut body = new_body;
        std::mem::swap(&mut self.body, &mut body);
        self.history.push(body);
        proof {
            lemma_replies_view(*self);
            lemma_replies_view(*old(self));
        }
    }

    /// The time by which the message is ordered among others: its own, or
    /// that of its last reply.
    pub fn sort_order(&self) -> (ts: u64)
        ensures
            ts == if self@.replies.len() == 0 {
                self@.sent
            } else {
                self@.replies.last().sent
            },
    {
        proof {
            lemma_replies_view(*self);
        }
        if self.replies.len() == 0 {
            self.sent
        } else {
            self.replies[self.replies.len() - 1].sent
        }
    }

    /// The message that `event` starts, if it starts one: see `message_of`.
    pub fn try_from(event: &TimelineEvent, force: bool) -> (message: Option<Message>)
        ensures
            opt_message(message) == message_of(event@, force),
    {
        let (body, in_reply_to) = match &event.content {
            EventContent::Message { body, relation } => {
                if let MessageBody::Other = body {
                    return None;
                }
                match relation {
                    Relation::Replacement { .. } => {
                        return None;
                    },
                    Relation::Reply { event_id } => {
                        if !force {
                            return None;
                        }
                        (body.copy(), Some(event_id.clone()))
                    },
                    Relation::Plain => (body.copy(), None),
                }
            },
            _ => {
                return None;
            },
        };
        let message = Message {
            id: event.id.clone(),
            in_reply_to,
            room_id: event.room_id.clone(),
            sent: event.ts,
            body,
            history: Vec::new(),
            sender: Username::new(event.sender.clone()),
            reactions: Vec::new(),
            replies: Vec::new(),
            receipts: Vec::new(),
        };
        proof {
            lemma_replies_view(message);
        }
        Some(message)
    }
}

/// Takes the event `id` out of `events`.
fn strip_events(events: &mut Vec<ReactionEvent>, id: &String)
    ensures
        views(final(events)@) == views(old(events)@).filter(not_event(id@)),
{
    let mut all: Vec<ReactionEvent> = Vec::new();
    std::mem::swap(events, &mut all);
    let ghost given = views(all@);
    proof {
        reveal(Seq::filter);
        assert(given.take(0).filter(not_event(id@)) == Seq::<ReactionEventView>::empty());
    }
    for e in it: all
        invariant
            given == views(it.seq()),
            views(events@) == given.take(it.index() as int).filter(not_event(id@)),
    {
        proof {
            let i = it.index() as int;
            assert(given.take(i + 1) == given.take(i).push(given[i]));
            given.take(i).lemma_filter_push(given[i], not_event(id@));
        }
        if e.id != *id {
            events.push(e);
        }
    }
    assert(given.take(given.len() as int) == given);
}

/// Takes the event `id` out of every reaction, and the reactions that are
/// left without events out of the list.
fn clean_reactions(reactions: &mut Vec<Reaction>, id: &String)
    ensures
        views(final(reactions)@) == without_event(views(old(reactions)@), id@),
{
    let mut all: Vec<Reaction> = Vec::new();
    std::mem::swap(reactions, &mut all);
    let ghost given = views(all@);
    let ghost bare = stripped(given, id@);
    proof {
        reveal(Seq::filter);
        assert(bare.take(0).filter(occupied()) == Seq::<ReactionView>::empty());
    }
    for r in it: all
        invariant
            given == views(it.seq()),
            bare == stripped(given, id@),
            views(reactions@) == bare.take(it.index() as int).filter(occupied()),
    {
        proof {
            let i = it.index() as int;
            assert(bare.take(i + 1) == bare.take(i).push(bare[i]));
            bare.take(i).lemma_filter_push(bare[i], occupied());
        }
        let mut r = r;
        strip_events(&mut r.events, id);
        if r.events.len() > 0 {
            reactions.push(r);
        }
    }
    assert(bare.take(bare.len() as int) == bare);
}

/// Takes the messages with the id `id` out of the list.
fn drop_messages(messages: &mut Vec<Message>, id: &String)
    ensures
        views(final(messages)@) == views(old(messages)@).filter(not_message(id@)),
{
    let mut all: Vec<Message> = Vec::new();
    std::mem::swap(messages, &mut all);
    let ghost given = views(all@);
    proof {
        reveal(Seq::filter);
        assert(given.take(0).filter(not_message(id@)) == Seq::<MessageView>::empty());
    }
    for m in it: all
        invariant
            given == views(it.seq()),
            views(messages@) == given.take(it.index() as int).filter(not_message(id@)),
    {
        proof {
            let i = it.index() as int;
            assert(given.take(i + 1) == given.take(i).push(given[i]));
            given.take(i).lemma_filter_push(given[i], not_message(id@));
        }
        if m.id != *id {
            messages.push(m);
        }
    }
    assert(given.take(given.len() as int) == given);
}

/// The result after one more message: `Consumed` where the event found
/// its message below that one or below one before it.
proof fn lemma_result_step(ms: Seq<MessageView>, e: EventView, n: nat)
    requires
        n < ms.len(),
    ensures
        result_below(ms, e, n + 1) == if merge_result(ms[n as int].replies, e)
            == MergeResult::Consumed {
            MergeResult::Consumed
        } else {
            result_below(ms, e, n)
        },
        ms[n as int].replies.len() == 0 ==> merge_result(ms[n as int].replies, e) == unplaced(e),
        merge_result(ms[n as int].replies, e) != MergeResult::Consumed ==> merge_result(
            ms[n as int].replies,
            e,
        ) == unplaced(e),
{
    match target(e) {
        Some(id) => {
            if occurs_below(ms, id, n) {
                let j = choose|j: int| 0 <= j < n && j < ms.len() && occurs((#[trigger] ms[j]).replies, id);
                assert(occurs(ms[j].replies, id));
            }
            if occurs(ms[n as int].replies, id) {
                assert(occurs_below(ms, id, n + 1));
            }
            if occurs_below(ms, id, n + 1) {
                let j = choose|j: int|
                    0 <= j < n + 1 && j < ms.len() && occurs((#[trigger] ms[j]).replies, id);
                if j < n {
                    assert(occurs_below(ms, id, n));
                }
            }
        },
        None => {},
    }
}

/// The depth one level down, as far as it is counted.
fn next_depth(depth: usize) -> (d: usize)
    ensures
        d == deeper(depth as nat),
{
    if depth > 3 {
        depth
    } else {
        depth + 1
    }
}

impl Message {
    /// Hands an event that starts no message to a list of messages: an
    /// edit, a reply, a reaction or a redaction finds the message it is
    /// about, in the list or among the replies below it, and changes it.
    /// `depth` is the depth of the list: 0 for the messages of a room, one
    /// more for the replies to each.
    pub fn apply_timeline_event(
        messages: &mut Vec<Message>,
        event: &TimelineEvent,
        depth: usize,
    ) -> (result: MergeResult)
        ensures
            views(final(messages)@) == merged(views(old(messages)@), event@, depth as nat),
            result == merge_result(views(old(messages)@), event@),
        decreases *old(messages),
    {
        let ghost given = views(messages@);
        let ghost e = event@;
        let ghost d = depth as nat;
        match &event.content {
            EventContent::Message { body, relation } => {
                match relation {
                    Relation::Replacement { event_id, new_body } => {
                        if let Some(i) = find(messages, event_id) {
                            proof {
                                lemma_position(given, event_id@, i as int);
                                lemma_occurs(given, event_id@);
                            }
                            let m = &mut messages[i];
                            m.edit(new_body.copy());
                            return MergeResult::Consumed;
                        }
                    },
                    Relation::Reply { event_id } => {
                        if let Some(reply) = Message::try_from(event, true) {
                            if let Some(i) = find(messages, event_id) {
                                proof {
                                    lemma_position(given, event_id@, i as int);
                                    lemma_occurs(given, event_id@);
                                }
                                if depth > 3 {
                                    messages.push(reply);
                                } else {
                                    let mut parent = messages.remove(i);
                                    proof {
                                        lemma_replies_view(parent);
                                    }
                                    parent.replies.push(reply);
                                    proof {
                                        lemma_replies_view(parent);
                                    }
                                    messages.push(parent);
                                }
                                return MergeResult::Consumed;
                            }
                        }
                    },
                    Relation::Plain => {},
                }
            },
            EventContent::Reaction { key, relates_to } => {
                if let Some(i) = find(messages, relates_to) {
                    proof {
                        lemma_position(given, relates_to@, i as int);
                        lemma_occurs(given, relates_to@);
                    }
                    let reaction = Reaction::new(
                        key.clone(),
                        ReactionEvent::new(event.id.clone(), event.sender.clone()),
                    );
                    let m = &mut messages[i];
                    proof {
                        lemma_replies_view(*m);
                    }
                    m.reactions.push(reaction);
                    proof {
                        lemma_replies_view(*m);
                    }
                    return MergeResult::Consumed;
                }
            },
            _ => {},
        }
        assert(!handled(given, e));
        let mut result = match &event.content {
            EventContent::Message { relation: Relation::Reply { .. }, .. } => MergeResult::Missed,
            _ => MergeResult::Ignored,
        };
        assert(result == unplaced(e));
        let n: usize = messages.len();
        let ghost below = handed_down(given, e, d);
        let mut i: usize = 0;
        while i < n
            invariant
                i <= n,
                n == messages.len(),
                n == given.len(),
                given == views(old(messages)@),
                e == event@,
                d == depth as nat,
                below == handed_down(given, e, d),
                below.len() == n,
                !handled(given, e),
                forall|j: int|
                    0 <= j < n ==> #[trigger] below[j] == (MessageView {
                        reactions: cleaned(given[j].reactions, e),
                        replies: merged(given[j].replies, e, deeper(d)),
                        ..given[j]
                    }),
                forall|j: int| 0 <= j < i ==> (#[trigger] messages@[j])@ == below[j],
                forall|j: int| i <= j < n ==> (#[trigger] messages@[j]) == old(messages)@[j],
                result == result_below(given, e, i as nat),
            decreases n - i,
        {
            let m = &mut messages[i];
            proof {
                lemma_replies_view(*m);
                assert(m@ == given[i as int]);
            }
            if m.replies.len() > 0 {
                let r = Message::apply_timeline_event(&mut m.replies, event, next_depth(depth));
                if r == MergeResult::Consumed || (r != MergeResult::Missed && result
                    != MergeResult::Consumed) {
                    result = r;
                }
            } else {
                proof {
                    lemma_merged_nothing(e, deeper(d));
                    assert(given[i as int].replies =~= Seq::<MessageView>::empty());
                }
            }
            proof {
                lemma_result_step(given, e, i as nat);
            }
            if let EventContent::Redaction { redacts: Some(id) } = &event.content {
                clean_reactions(&mut m.reactions, id);
            }
            proof {
                let now = messages@[i as int];
                lemma_replies_view(now);
                assert(now@.replies == merged(given[i as int].replies, e, deeper(d)));
                assert(now@.reactions == cleaned(given[i as int].reactions, e));
                assert(now@ == below[i as int]);
            }
            i += 1;
        }
        assert(views(messages@) =~= below);
        proof {
            if let Some(id) = target(e) {
                lemma_occurs(given, id);
            }
        }
        if let EventContent::Redaction { redacts: Some(id) } = &event.content {
            drop_messages(messages, id);
        }
        result
    }
}

/// An empty list stays empty.
pub proof fn lemma_merged_nothing(e: EventView, d: nat)
    ensures
        merged(Seq::<MessageView>::empty(), e, d) == Seq::<MessageView>::empty(),
{
    reveal(Seq::filter);
    let none = Seq::<MessageView>::empty();
    assert(!handled(none, e));
    assert(handed_down(none, e, d) =~= none);
}

} // verus!
