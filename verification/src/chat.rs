//! The view of one room: its events and what they make, the selected line,
//! and what the keys do. The chat does nothing outside itself: what has to
//! be fetched, sent or asked of the user it hands back as commands.

use crate::display::{
    flat, full_text, message_text, open_action, save_action, wrap, wrapped, AfterDownload,
    MessageAction,
};
use crate::event::{BodyView, EventView, MessageBody, TimelineEvent};
use crate::key::{KeyCode, KeyEvent, Modifiers};
use crate::keycombo::{exceeds, step, KeyCombo};
use crate::layout::{
    capture, captured, layout, lemma_resolved, lines_above, move_down, move_down_by, move_up,
    move_up_by, moved_down, moved_down_by, moved_up, moved_up_by, resolve, resolved, rows_of,
    rows_ok, selectable, short_above, shows, window, window_of, Bookmark, BookmarkView, Row,
    RowView, Selection,
};
use crate::listing::{listed, make_message_list};
use crate::message::{Message, MessageView};
use crate::react::{choice, React, ReactView};
use crate::reaction::{Reaction, ReactionView};
use crate::receipts::{one_each, queued, recorded_all, ReadReceipt, ReceiptView, Receipts};
use crate::text::{
    chars_of, first_word, first_word_of, limit_list, limited, pretty, pretty_list, same_text,
    shortened, string_of, truncate,
};
use crate::timeline::{inserted, inserted_all, lemma_inserted, ordered, Timeline};
use crate::username::{copy_opt, opt_text, Member, MemberView};
use crate::views::{group_views, views};
use vstd::prelude::*;

verus! {

broadcast use group_views;

/// What the chat asks the application to do.
pub enum Command {
    /// Fetch a page of older events.
    FetchMessages { cursor: Option<String>, limit: usize },
    /// Fetch what the room knows of a user.
    FetchMember { user_id: String },
    /// Tell the server that the room was read up to this event.
    ReadTo { event_id: String },
    /// The user has looked at the room.
    RoomVisit,
    SendReaction { event_id: String, key: String },
    RedactEvent { event_id: String },
    /// Fetch the attachment of a message, then show or store it.
    Download { body: MessageBody, after: AfterDownload },
    /// Open the links that the text holds.
    OpenLinks { text: String },
    /// Let the user edit the text of a message.
    EditMessage { event_id: String, text: String, note: String, in_reply_to: Option<String> },
    /// Let the user write a message.
    Compose { note: String },
    /// Let the user write an answer to a message.
    Reply { event_id: String, note: String },
    /// Show a text in the editor.
    ViewText { text: String },
    /// Let the user pick files to send.
    Upload,
    /// Ask whether the message is to be deleted.
    ConfirmDelete { question: String, event_id: String },
    /// Mute or unmute the room.
    SetMuted { muted: bool },
}

pub enum CommandView {
    FetchMessages { cursor: Option<Seq<char>>, limit: nat },
    FetchMember { user_id: Seq<char> },
    ReadTo { event_id: Seq<char> },
    RoomVisit,
    SendReaction { event_id: Seq<char>, key: Seq<char> },
    RedactEvent { event_id: Seq<char> },
    Download { body: BodyView, after: AfterDownload },
    OpenLinks { text: Seq<char> },
    EditMessage { event_id: Seq<char>, text: Seq<char>, note: Seq<char>, in_reply_to: Option<Seq<char>> },
    Compose { note: Seq<char> },
    Reply { event_id: Seq<char>, note: Seq<char> },
    ViewText { text: Seq<char> },
    Upload,
    ConfirmDelete { question: Seq<char>, event_id: Seq<char> },
    SetMuted { muted: bool },
}

impl View for Command {
    type V = CommandView;

    open spec fn view(&self) -> CommandView {
        match *self {
            Command::FetchMessages { cursor, limit } => CommandView::FetchMessages {
                cursor: opt_text(cursor),
                limit: limit as nat,
            },
            Command::FetchMember { user_id } => CommandView::FetchMember { user_id: user_id@ },
            Command::ReadTo { event_id } => CommandView::ReadTo { event_id: event_id@ },
            Command::RoomVisit => CommandView::RoomVisit,
            Command::SendReaction { event_id, key } => CommandView::SendReaction {
                event_id: event_id@,
                key: key@,
            },
            Command::RedactEvent { event_id } => CommandView::RedactEvent { event_id: event_id@ },
            Command::Download { body, after } => CommandView::Download { body: body@, after },
            Command::OpenLinks { text } => CommandView::OpenLinks { text: text@ },
            Command::EditMessage { event_id, text, note, in_reply_to } => CommandView::EditMessage {
                event_id: event_id@,
                text: text@,
                note: note@,
                in_reply_to: opt_text(in_reply_to),
            },
            Command::Compose { note } => CommandView::Compose { note: note@ },
            Command::Reply { event_id, note } => CommandView::Reply { event_id: event_id@, note: note@ },
            Command::ViewText { text } => CommandView::ViewText { text: text@ },
            Command::Upload => CommandView::Upload,
            Command::ConfirmDelete { question, event_id } => CommandView::ConfirmDelete {
                question: question@,
                event_id: event_id@,
            },
            Command::SetMuted { muted } => CommandView::SetMuted { muted },
        }
    }
}

/// The state of a chat.
pub struct ChatView {
    pub room_id: Seq<char>,
    pub room_name: Seq<char>,
    /// The user of the application.
    pub me: Seq<char>,
    pub events: Seq<EventView>,
    pub receipts: Seq<ReceiptView>,
    pub members: Seq<MemberView>,
    /// The users of whom the room was asked and has not answered yet.
    pub in_flight: Seq<Seq<char>>,
    /// The messages that are shown, the newest first.
    pub messages: Seq<MessageView>,
    pub rows: Seq<RowView>,
    pub bookmark: BookmarkView,
    pub selection: Selection,
    /// The event up to which the server was told that the room was read.
    pub read_to: Option<Seq<char>>,
    pub react: Option<ReactView>,
    pub typing: Option<Seq<char>>,
    /// Where the next page of older events starts, if there is one.
    pub next_cursor: Option<Seq<char>>,
    pub fetching: bool,
    pub width: nat,
    /// The number of lines of the window.
    pub page: nat,
    pub focus: bool,
    pub search: Seq<char>,
    /// The number of events at which no more are fetched; below zero there
    /// is no such number.
    pub max_events: int,
    pub muted: bool,
    /// How many keys of the command that deletes have been typed.
    pub combo: nat,
    /// The reactions that are always on offer.
    pub usual: Seq<Seq<char>>,
}

/// The state with its list of messages, its rows and its selection made
/// anew from the events, the receipts, the members, the search and the
/// bookmark.
pub open spec fn rebuilt(c: ChatView) -> ChatView {
    let messages = listed(c.events, queued(c.receipts), c.members, c.search);
    let rows = rows_of(messages, c.width, messages.len());
    ChatView { messages, rows, selection: resolved(rows, c.bookmark), ..c }
}

/// What holds of a chat at all times: the events are in order, no user has
/// two receipts, and the list, the rows and the selection are those that
/// `rebuilt` makes. So the selection stands on the message of the bookmark
/// as long as the list shows it.
pub open spec fn chat_ok(c: ChatView) -> bool {
    &&& ordered(c.events)
    &&& one_each(c.receipts, c.me)
    &&& c == rebuilt(c)
    &&& c.combo < 2
}

/// Whether the room knows the user, or has been asked.
pub open spec fn known(c: ChatView, user_id: Seq<char>) -> bool {
    ||| exists|i: int| 0 <= i < c.members.len() && (#[trigger] c.members[i]).user_id == user_id
    ||| c.in_flight.contains(user_id)
}

/// The state after it was made sure that the room is asked about a user,
/// and the command that asks.
pub open spec fn asked(c: ChatView, user_id: Seq<char>) -> (ChatView, Seq<CommandView>) {
    if known(c, user_id) {
        (c, Seq::empty())
    } else {
        (
            ChatView { in_flight: c.in_flight.push(user_id), ..c },
            seq![CommandView::FetchMember { user_id }],
        )
    }
}

/// The newest message that is shown.
pub open spec fn newest(c: ChatView) -> Option<Seq<char>> {
    if c.messages.len() > 0 {
        Some(c.messages[0].id)
    } else {
        None
    }
}

/// The state after the room was marked as read, and the command that tells
/// the server: while the chat has the focus, the server is told of the
/// newest message, and not twice of the same.
pub open spec fn marked_read(c: ChatView) -> (ChatView, Seq<CommandView>) {
    match newest(c) {
        Some(id) => {
            if c.focus && c.read_to != Some(id) {
                (ChatView { read_to: Some(id), ..c }, seq![CommandView::ReadTo { event_id: id }])
            } else {
                (c, Seq::empty())
            }
        },
        None => (c, Seq::empty()),
    }
}

/// Whether more events may be held.
pub open spec fn below_cap(c: ChatView) -> bool {
    c.max_events < 0 || c.events.len() < c.max_events
}

/// Whether a page of older events is fetched: there is one, none is on its
/// way, fewer than a hundred lines are left above the selection, and more
/// events may be held.
pub open spec fn wants_more(c: ChatView) -> bool {
    c.next_cursor is Some && !c.fetching && lines_above(c.rows, c.selection) < 100 && below_cap(c)
}

/// The size of a page: small, and large during a search.
pub open spec fn page_size(c: ChatView) -> nat {
    if c.search.len() > 0 {
        256
    } else {
        32
    }
}

/// The state after older events were fetched if they are wanted, and the
/// command that fetches them.
pub open spec fn fetched_more(c: ChatView) -> (ChatView, Seq<CommandView>) {
    if wants_more(c) {
        (
            ChatView { fetching: true, ..c },
            seq![CommandView::FetchMessages { cursor: c.next_cursor, limit: page_size(c) }],
        )
    } else {
        (c, Seq::empty())
    }
}

/// The state after an event of the timeline came in, and the commands: an
/// event of another room changes nothing; otherwise the room is asked
/// about the sender, the event goes to its place, the list is made anew
/// and the room is marked as read.
pub open spec fn after_timeline(c: ChatView, e: EventView) -> (ChatView, Seq<CommandView>) {
    if e.room_id != c.room_id {
        (c, Seq::empty())
    } else {
        let (c1, ask) = asked(c, e.sender);
        let c2 = rebuilt(ChatView { events: inserted(c1.events, e), ..c1 });
        let (c3, read) = marked_read(c2);
        (c3, ask + read)
    }
}

/// The state after the room was asked about the senders of the first `n`
/// of `events`, and the commands that ask.
pub open spec fn asked_all(c: ChatView, events: Seq<EventView>, n: nat) -> (ChatView, Seq<CommandView>)
    decreases n,
{
    if n == 0 || n > events.len() {
        (c, Seq::empty())
    } else {
        let (c1, before) = asked_all(c, events, (n - 1) as nat);
        let (c2, ask) = asked(c1, events[n - 1].sender);
        (c2, before + ask)
    }
}

/// Whether a page brought something: a message more to show, or, during a
/// search, an event more.
pub open spec fn progressed(before: ChatView, after: ChatView) -> bool {
    if after.search.len() > 0 {
        after.events.len() > before.events.len()
    } else {
        after.messages.len() > before.messages.len()
    }
}

/// The state after a page of older events came in, and the commands.
pub open spec fn after_batch(
    c: ChatView,
    room_id: Seq<char>,
    events: Seq<EventView>,
    cursor: Option<Seq<char>>,
) -> (ChatView, Seq<CommandView>) {
    if room_id != c.room_id {
        (c, Seq::empty())
    } else {
        let (c1, ask) = asked_all(c, events, events.len());
        let c2 = rebuilt(
            ChatView {
                events: inserted_all(c1.events, events),
                next_cursor: cursor,
                fetching: false,
                ..c1
            },
        );
        let (c3, read) = marked_read(c2);
        if progressed(c, c3) {
            let (c4, fetch) = fetched_more(c3);
            (c4, ask + read + fetch)
        } else {
            (c3, ask + read)
        }
    }
}

/// The state after a search term was set, and the commands: the list is
/// made anew and, for a term that is not empty, older events are fetched.
/// The bookmark stays.
pub open spec fn after_search(c: ChatView, term: Seq<char>) -> (ChatView, Seq<CommandView>) {
    let c1 = rebuilt(ChatView { search: term, ..c });
    if term.len() > 0 {
        fetched_more(c1)
    } else {
        (c1, Seq::empty())
    }
}

/// Two states that differ in nothing but what is being fetched.
pub open spec fn same_but_fetching(a: ChatView, b: ChatView) -> bool {
    a == (ChatView { fetching: a.fetching, ..b })
}

/// A search that is set and then ended leaves the chat as it was: the same
/// messages, the same rows, the same selection. Only a page of older events
/// may be on its way.
pub proof fn lemma_search_and_back(c: ChatView, term: Seq<char>)
    requires
        chat_ok(c),
        c.search.len() == 0,
    ensures
        same_but_fetching(after_search(after_search(c, term).0, Seq::empty()).0, c),
        chat_ok(after_search(c, term).0),
{
    let c1 = rebuilt(ChatView { search: term, ..c });
    let c2 = after_search(c, term).0;
    assert(c2 == ChatView { fetching: c2.fetching, ..c1 });
    let back = ChatView { search: Seq::<char>::empty(), ..c2 };
    assert(c.search =~= Seq::<char>::empty());
    assert(back.search == c.search);
    assert(rebuilt(back) == ChatView { fetching: c2.fetching, ..rebuilt(c) });
    assert(rebuilt(c1) == c1);
    assert(rebuilt(c2) == c2);
}

/// As long as the list shows the message of the bookmark, the selection
/// stands on it, whatever events came in.
pub proof fn lemma_bookmark_holds(c: ChatView)
    requires
        chat_ok(c),
        c.rows.len() <= usize::MAX,
        shows(c.rows, c.bookmark.message_id),
    ensures
        c.selection.row < c.rows.len(),
        c.rows[c.selection.row as int].id == c.bookmark.message_id,
{
    crate::layout::lemma_rows_of_ok(c.messages, c.width, c.messages.len());
    lemma_resolved(c.rows, c.bookmark);
}

/// A page of older events leaves the bookmark as it is, and the selection
/// on the message of the bookmark as long as the list still shows that
/// message. The list shows it no longer where the page brings the message
/// that the bookmarked one answers and the room has deleted that message
/// since: the answer goes with it.
pub proof fn lemma_batch_keeps_bookmark(
    c: ChatView,
    room_id: Seq<char>,
    events: Seq<EventView>,
    cursor: Option<Seq<char>>,
)
    requires
        chat_ok(c),
        after_batch(c, room_id, events, cursor).0.rows.len() <= usize::MAX,
        shows(after_batch(c, room_id, events, cursor).0.rows, c.bookmark.message_id),
    ensures
        ({
            let after = after_batch(c, room_id, events, cursor).0;
            &&& after.bookmark == c.bookmark
            &&& after.selection.row < after.rows.len()
            &&& after.rows[after.selection.row as int].id == c.bookmark.message_id
        }),
{
    if room_id == c.room_id {
        lemma_asked_all_room(c, events, events.len());
        let c1 = asked_all(c, events, events.len()).0;
        let c2 = rebuilt(
            ChatView {
                events: inserted_all(c1.events, events),
                next_cursor: cursor,
                fetching: false,
                ..c1
            },
        );
        crate::layout::lemma_rows_of_ok(c2.messages, c2.width, c2.messages.len());
        lemma_resolved(c2.rows, c2.bookmark);
    } else {
        lemma_bookmark_holds(c);
    }
}

/// Holds of the users other than `user_id`.
pub open spec fn not_user(user_id: Seq<char>) -> spec_fn(Seq<char>) -> bool {
    |u: Seq<char>| u != user_id
}

/// The state after the room answered about a member: the member is known,
/// is no longer waited for, and the list is made anew.
pub open spec fn after_member(c: ChatView, room_id: Seq<char>, member: MemberView) -> ChatView {
    if room_id != c.room_id {
        c
    } else {
        rebuilt(
            ChatView {
                in_flight: c.in_flight.filter(not_user(member.user_id)),
                members: c.members.push(member),
                ..c
            },
        )
    }
}

/// The state after the room was asked about the first `n` of `users`, with
/// a visit of the room for each of them who is the user of the
/// application; and the commands.
pub open spec fn readers_asked(c: ChatView, users: Seq<Seq<char>>, n: nat) -> (ChatView, Seq<CommandView>)
    decreases n,
{
    if n == 0 || n > users.len() {
        (c, Seq::empty())
    } else {
        let (c1, before) = readers_asked(c, users, (n - 1) as nat);
        let (c2, ask) = asked(c1, users[n - 1]);
        let visit = if users[n - 1] == c.me {
            seq![CommandView::RoomVisit]
        } else {
            Seq::empty()
        };
        (c2, before + ask + visit)
    }
}

/// The users that the entries of a receipt event speak of.
pub open spec fn readers(entries: Seq<ReceiptView>) -> Seq<Seq<char>> {
    Seq::new(entries.len(), |i: int| entries[i].user_id)
}

/// The state after a receipt event came in, and the commands: the receipts
/// are recorded and shown; the room is asked about the users it does not
/// know; a receipt of the user of the application counts as a visit.
pub open spec fn after_receipt(c: ChatView, room_id: Seq<char>, entries: Seq<ReceiptView>) -> (
    ChatView,
    Seq<CommandView>,
) {
    if room_id != c.room_id {
        (c, Seq::empty())
    } else {
        let c1 = rebuilt(ChatView { receipts: recorded_all(c.receipts, entries, c.me), ..c });
        readers_asked(c1, readers(entries), entries.len())
    }
}

/// What is shown of a member: the display name, or the id.
pub open spec fn member_name(m: MemberView) -> Seq<char> {
    match m.display_name {
        Some(name) => name,
        None => m.user_id,
    }
}

/// The names of those of the first `n` members who are among `ids`.
pub open spec fn typing_names(members: Seq<MemberView>, ids: Seq<Seq<char>>, n: nat) -> Seq<Seq<char>>
    decreases n,
{
    if n == 0 || n > members.len() {
        Seq::empty()
    } else if ids.contains(members[n - 1].user_id) {
        typing_names(members, ids, (n - 1) as nat).push(member_name(members[n - 1]))
    } else {
        typing_names(members, ids, (n - 1) as nat)
    }
}

/// The line that says who is typing, if a known member is.
pub open spec fn typing_text(members: Seq<MemberView>, ids: Seq<Seq<char>>) -> Option<Seq<char>> {
    let names = typing_names(members, ids, members.len());
    if names.len() == 0 {
        None
    } else {
        Some(
            pretty(limited(names, 3, names.len(), None)) + if names.len() > 1 {
                " are typing."@
            } else {
                " is typing."@
            },
        )
    }
}

/// The state after the room said who is typing.
pub open spec fn after_typing(c: ChatView, room_id: Seq<char>, ids: Seq<Seq<char>>) -> ChatView {
    if room_id != c.room_id {
        c
    } else {
        ChatView { typing: typing_text(c.members, ids), ..c }
    }
}

/// The chat of a room as it is entered: empty, with the focus, eighty
/// columns wide, and with the first page of events on its way.
pub open spec fn entered_chat(
    room_id: Seq<char>,
    room_name: Seq<char>,
    me: Seq<char>,
    max_events: int,
    muted: bool,
    usual: Seq<Seq<char>>,
) -> ChatView {
    rebuilt(
        ChatView {
            room_id,
            room_name,
            me,
            events: Seq::empty(),
            receipts: Seq::empty(),
            members: Seq::empty(),
            in_flight: Seq::empty(),
            messages: Seq::empty(),
            rows: Seq::empty(),
            bookmark: BookmarkView { message_id: Seq::empty(), offset: 0, window_offset: 0 },
            selection: Selection { row: 0, offset: 0 },
            read_to: None,
            react: None,
            typing: None,
            next_cursor: None,
            fetching: true,
            width: 80,
            page: 0,
            focus: true,
            search: Seq::empty(),
            max_events,
            muted,
            combo: 0,
            usual,
        },
    )
}

/// The chat of one room.
pub struct Chat {
    room_id: String,
    room_name: String,
    me: String,
    timeline: Timeline,
    receipts: Receipts,
    members: Vec<Member>,
    in_flight: Vec<String>,
    messages: Vec<Message>,
    rows: Vec<Row>,
    bookmark: Bookmark,
    selection: Selection,
    read_to: Option<String>,
    react: Option<React>,
    typing: Option<String>,
    next_cursor: Option<String>,
    fetching: bool,
    width: usize,
    page: usize,
    focus: bool,
    search: String,
    max_events: i64,
    muted: bool,
    delete_combo: KeyCombo,
    usual: Vec<String>,
}

/// The view of an optional list of reactions.
pub open spec fn opt_react(r: Option<React>) -> Option<ReactView> {
    match r {
        Some(x) => Some(x@),
        None => None,
    }
}

impl View for Chat {
    type V = ChatView;

    closed spec fn view(&self) -> ChatView {
        ChatView {
            room_id: self.room_id@,
            room_name: self.room_name@,
            me: self.me@,
            events: self.timeline@,
            receipts: self.receipts.entries(),
            members: views(self.members@),
            in_flight: views(self.in_flight@),
            messages: views(self.messages@),
            rows: views(self.rows@),
            bookmark: self.bookmark@,
            selection: self.selection,
            read_to: opt_text(self.read_to),
            react: opt_react(self.react),
            typing: opt_text(self.typing),
            next_cursor: opt_text(self.next_cursor),
            fetching: self.fetching,
            width: self.width as nat,
            page: self.page as nat,
            focus: self.focus,
            search: self.search@,
            max_events: self.max_events as int,
            muted: self.muted,
            combo: self.delete_combo.matched(),
            usual: views(self.usual@),
        }
    }
}

/// What a chat is made with.
pub struct ChatConfig {
    /// The number of events at which no more are fetched; -1 for none.
    pub max_events: i64,
    pub muted: bool,
    /// The reactions that are always on offer.
    pub reactions: Vec<String>,
}

impl Chat {
    /// The parts of the chat are sound each by itself and fit together.
    pub closed spec fn wf(&self) -> bool {
        &&& chat_ok(self@)
        &&& self.parts_ok()
    }

    closed spec fn parts_ok(&self) -> bool {
        &&& self.timeline.wf()
        &&& self.receipts.wf()
        &&& self.receipts.ignored() == self.me@
        &&& self.delete_combo.wf()
        &&& self.delete_combo.target() == seq!['d', 'd']
        &&& self.delete_combo.timeframe_ms() == 500
    }

    /// A chat that is sound keeps to what `chat_ok` says.
    pub proof fn lemma_wf(&self)
        requires
            self.wf(),
        ensures
            chat_ok(self@),
            rows_ok(self@.rows),
            selectable(self@.rows, self@.selection),
            self@.rows.len() <= usize::MAX,
    {
        crate::layout::lemma_rows_of_ok(self@.messages, self@.width, self@.messages.len());
        assert(self@.rows.len() == self.rows.len());
        lemma_resolved(self@.rows, self@.bookmark);
    }

    /// The chat of a room as it is entered: empty, with the focus, and with
    /// the first page of events on its way.
    pub fn try_new(room_id: String, room_name: String, me: String, config: ChatConfig) -> (made: (
        Chat,
        Vec<Command>,
    ))
        ensures
            made.0.wf(),
            made.0@ == entered_chat(
                room_id@,
                room_name@,
                me@,
                config.max_events as int,
                config.muted,
                views(config.reactions@),
            ),
            views(made.1@) == seq![CommandView::FetchMessages { cursor: None, limit: 32 }],
    {
        let mut combo: Vec<char> = Vec::new();
        combo.push('d');
        combo.push('d');
        assert(combo@ =~= seq!['d', 'd']);
        let mut chat = Chat {
            room_id,
            room_name,
            me: me.clone(),
            timeline: Timeline::new(),
            receipts: Receipts::new(me),
            members: Vec::new(),
            in_flight: Vec::new(),
            messages: Vec::new(),
            rows: Vec::new(),
            bookmark: Bookmark { message_id: String::new(), offset: 0, window_offset: 0 },
            selection: Selection { row: 0, offset: 0 },
            read_to: None,
            react: None,
            typing: None,
            next_cursor: None,
            fetching: true,
            width: 80,
            page: 0,
            focus: true,
            search: String::new(),
            max_events: config.max_events,
            muted: config.muted,
            delete_combo: KeyCombo::new(combo),
            usual: config.reactions,
        };
        chat.rebuild();
        let mut commands: Vec<Command> = Vec::new();
        commands.push(Command::FetchMessages { cursor: None, limit: 32 });
        assert(views(commands@) =~= seq![CommandView::FetchMessages { cursor: None, limit: 32 }]);
        (chat, commands)
    }

    /// Makes the list, the rows and the selection anew.
    fn rebuild(&mut self)
        requires
            old(self).parts_ok(),
        ensures
            final(self).parts_ok(),
            final(self)@ == rebuilt(old(self)@),
            final(self)@ == rebuilt(final(self)@),
    {
        let queue = self.receipts.get_all();
        self.messages = make_message_list(&self.timeline, &self.members, &queue, self.search.as_str());
        self.rows = layout(&self.messages, self.width);
        self.selection = resolve(&self.rows, &self.bookmark);
    }

    /// Asks the room about a user that it does not know yet.
    fn check_sender(&mut self, user_id: &String, commands: &mut Vec<Command>)
        requires
            old(self).wf(),
        ensures
            final(self).wf(),
            final(self)@ == asked(old(self)@, user_id@).0,
            views(final(commands)@) == views(old(commands)@) + asked(old(self)@, user_id@).1,
    {
        let mut i: usize = 0;
        while i < self.members.len()
            invariant
                i <= self.members.len(),
                *self == *old(self),
                *commands == *old(commands),
                self.wf(),
                forall|j: int| 0 <= j < i ==> (#[trigger] self@.members[j]).user_id != user_id@,
            decreases self.members.len() - i,
        {
            if self.members[i].user_id == *user_id {
                assert(self@.members[i as int].user_id == user_id@);
                return ;
            }
            i += 1;
        }
        if crate::text::contains_string(&self.in_flight, user_id.as_str()) {
            return ;
        }
        self.in_flight.push(user_id.clone());
        commands.push(Command::FetchMember { user_id: user_id.clone() });
    }

    /// Tells the server of the newest message: see `marked_read`.
    fn set_fully_read(&mut self, commands: &mut Vec<Command>)
        requires
            old(self).wf(),
        ensures
            final(self).wf(),
            final(self)@ == marked_read(old(self)@).0,
            views(final(commands)@) == views(old(commands)@) + marked_read(old(self)@).1,
    {
        if self.messages.len() == 0 || !self.focus {
            return ;
        }
        let id = self.messages[0].id.clone();
        assert(id@ == self@.messages[0].id);
        let told = match &self.read_to {
            Some(read) => *read == id,
            None => false,
        };
        if told {
            return ;
        }
        commands.push(Command::ReadTo { event_id: id.clone() });
        self.read_to = Some(id);
    }

    /// Fetches older events if they are wanted: see `fetched_more`.
    fn try_fetch_previous(&mut self, commands: &mut Vec<Command>)
        requires
            old(self).wf(),
        ensures
            final(self).wf(),
            final(self)@ == fetched_more(old(self)@).0,
            views(final(commands)@) == views(old(commands)@) + fetched_more(old(self)@).1,
    {
        proof {
            self.lemma_wf();
        }
        if self.next_cursor.is_none() || self.fetching {
            return ;
        }
        if !short_above(&self.rows, self.selection) {
            return ;
        }
        if self.max_events >= 0 && self.timeline.len() as u128 >= self.max_events as u128 {
            return ;
        }
        let limit: usize = if self.search.as_str().is_empty() {
            32
        } else {
            256
        };
        commands.push(Command::FetchMessages { cursor: copy_opt(&self.next_cursor), limit });
        self.fetching = true;
    }

    /// An event of the timeline has come in: see `after_timeline`.
    pub fn timeline_event(&mut self, event: TimelineEvent) -> (commands: Vec<Command>)
        requires
            old(self).wf(),
        ensures
            final(self).wf(),
            final(self)@ == after_timeline(old(self)@, event@).0,
            views(commands@) == after_timeline(old(self)@, event@).1,
    {
        let mut commands: Vec<Command> = Vec::new();
        if event.room_id != self.room_id {
            return commands;
        }
        self.check_sender(&event.sender, &mut commands);
        self.timeline.insert(event);
        self.rebuild();
        self.set_fully_read(&mut commands);
        commands
    }

    /// A page of older events has come in: see `after_batch`.
    pub fn batch_event(&mut self, room_id: &str, events: Vec<TimelineEvent>, cursor: Option<String>) -> (commands:
        Vec<Command>)
        requires
            old(self).wf(),
        ensures
            final(self).wf(),
            final(self)@ == after_batch(old(self)@, room_id@, views(events@), opt_text(cursor)).0,
            views(commands@) == after_batch(
                old(self)@,
                room_id@,
                views(events@),
                opt_text(cursor),
            ).1,
    {
        let mut commands: Vec<Command> = Vec::new();
        if !same_text(room_id, self.room_id.as_str()) {
            return commands;
        }
        let ghost given = views(events@);
        let shown_before: usize = self.messages.len();
        let held_before: usize = self.timeline.len();
        let n: usize = events.len();
        let mut i: usize = 0;
        while i < n
            invariant
                i <= n,
                n == events.len(),
                given == views(events@),
                self.wf(),
                self@ == asked_all(old(self)@, given, i as nat).0,
                views(commands@) == asked_all(old(self)@, given, i as nat).1,
            decreases n - i,
        {
            self.check_sender(&events[i].sender, &mut commands);
            i += 1;
        }
        let ghost c1 = self@;
        proof {
            assert(given.take(0) == Seq::<EventView>::empty());
        }
        for event in it: events
            invariant
                given == views(it.seq()),
                self.parts_ok(),
                self@ == (ChatView { events: inserted_all(c1.events, given.take(it.index() as int)), ..c1 }),
        {
            proof {
                let k = it.index() as int;
                assert(given.take(k + 1).drop_last() == given.take(k));
                assert(given.take(k + 1).last() == given[k]);
            }
            self.timeline.insert(event);
        }
        proof {
            assert(given.take(given.len() as int) == given);
        }
        self.next_cursor = cursor;
        self.fetching = false;
        self.rebuild();
        self.set_fully_read(&mut commands);
        let progressed = if self.search.as_str().is_empty() {
            self.messages.len() > shown_before
        } else {
            self.timeline.len() > held_before
        };
        if progressed {
            self.try_fetch_previous(&mut commands);
        }
        commands
    }

    /// The room has answered about a member: see `after_member`.
    pub fn room_member_event(&mut self, room_id: &str, member: Member)
        requires
            old(self).wf(),
        ensures
            final(self).wf(),
            final(self)@ == after_member(old(self)@, room_id@, member@),
    {
        if !same_text(room_id, self.room_id.as_str()) {
            return ;
        }
        let mut all: Vec<String> = Vec::new();
        std::mem::swap(&mut self.in_flight, &mut all);
        let ghost given = views(all@);
        let ghost c0 = old(self)@;
        proof {
            reveal(Seq::filter);
            assert(given.take(0).filter(not_user(member@.user_id)) == Seq::<Seq<char>>::empty());
        }
        for id in it: all
            invariant
                given == views(it.seq()),
                self.parts_ok(),
                self@ == (ChatView {
                    in_flight: given.take(it.index() as int).filter(not_user(member@.user_id)),
                    ..c0
                }),
        {
            proof {
                let k = it.index() as int;
                assert(given.take(k + 1) == given.take(k).push(given[k]));
                given.take(k).lemma_filter_push(given[k], not_user(member@.user_id));
            }
            if id != member.user_id {
                self.in_flight.push(id);
            }
        }
        proof {
            assert(given.take(given.len() as int) == given);
        }
        self.members.push(member);
        self.rebuild();
    }

    /// A receipt event has come in: see `after_receipt`.
    pub fn receipt_event(&mut self, room_id: &str, entries: &Vec<ReadReceipt>) -> (commands: Vec<Command>)
        requires
            old(self).wf(),
        ensures
            final(self).wf(),
            final(self)@ == after_receipt(old(self)@, room_id@, views(entries@)).0,
            views(commands@) == after_receipt(old(self)@, room_id@, views(entries@)).1,
    {
        let mut commands: Vec<Command> = Vec::new();
        if !same_text(room_id, self.room_id.as_str()) {
            return commands;
        }
        self.receipts.apply_event(entries);
        self.rebuild();
        let ghost c1 = self@;
        let ghost users = readers(views(entries@));
        let senders = Receipts::get_senders(entries);
        assert(views(senders@) =~= users);
        let n: usize = senders.len();
        let mut i: usize = 0;
        while i < n
            invariant
                i <= n,
                n == senders.len(),
                users == views(senders@),
                self.wf(),
                c1.me == self.me@,
                self@ == readers_asked(c1, users, i as nat).0,
                views(commands@) == readers_asked(c1, users, i as nat).1,
            decreases n - i,
        {
            self.check_sender(&senders[i], &mut commands);
            if senders[i] == self.me {
                commands.push(Command::RoomVisit);
            }
            i += 1;
        }
        commands
    }

    /// The room has said who is typing: see `after_typing`.
    pub fn typing_event(&mut self, room_id: &str, ids: &Vec<String>)
        requires
            old(self).wf(),
        ensures
            final(self).wf(),
            final(self)@ == after_typing(old(self)@, room_id@, views(ids@)),
    {
        if !same_text(room_id, self.room_id.as_str()) {
            return ;
        }
        let ghost members = self@.members;
        let mut names: Vec<String> = Vec::new();
        let mut i: usize = 0;
        while i < self.members.len()
            invariant
                i <= self.members.len(),
                members == views(self.members@),
                views(names@) == typing_names(members, views(ids@), i as nat),
            decreases self.members.len() - i,
        {
            let m = &self.members[i];
            assert(members[i as int] == m@);
            if crate::text::contains_string(ids, m.user_id.as_str()) {
                let name = match &m.display_name {
                    Some(d) => d.clone(),
                    None => m.user_id.clone(),
                };
                names.push(name);
            }
            i += 1;
        }
        if names.len() == 0 {
            self.typing = None;
            return ;
        }
        let total: usize = names.len();
        let mut text = pretty_list(limit_list(names, 3, total, None));
        if total > 1 {
            text.append(" are typing.");
        } else {
            text.append(" is typing.");
        }
        self.typing = Some(text);
    }

    /// The window has the focus again: the room is marked as read.
    pub fn focus_event(&mut self) -> (commands: Vec<Command>)
        requires
            old(self).wf(),
        ensures
            final(self).wf(),
            final(self)@ == marked_read(ChatView { focus: true, ..old(self)@ }).0,
            views(commands@) == marked_read(ChatView { focus: true, ..old(self)@ }).1,
    {
        let mut commands: Vec<Command> = Vec::new();
        self.focus = true;
        self.set_fully_read(&mut commands);
        commands
    }

    /// The window has lost the focus.
    pub fn blur_event(&mut self)
        requires
            old(self).wf(),
        ensures
            final(self).wf(),
            final(self)@ == (ChatView { focus: false, ..old(self)@ }),
    {
        self.focus = false;
    }

    /// A search term was set; the empty term ends the search. See
    /// `after_search`.
    pub fn search_event(&mut self, term: &str) -> (commands: Vec<Command>)
        requires
            old(self).wf(),
        ensures
            final(self).wf(),
            final(self)@ == after_search(old(self)@, term@).0,
            views(commands@) == after_search(old(self)@, term@).1,
    {
        let mut commands: Vec<Command> = Vec::new();
        self.search = String::from_str(term);
        self.rebuild();
        if !term.is_empty() {
            self.try_fetch_previous(&mut commands);
        }
        commands
    }

    /// The chat was given a place of `width` columns and `page` lines.
    pub fn set_size(&mut self, width: usize, page: usize)
        requires
            old(self).wf(),
        ensures
            final(self).wf(),
            final(self)@ == rebuilt(ChatView { width: width as nat, page: page as nat, ..old(self)@ }),
    {
        self.page = page;
        if width != self.width {
            self.width = width;
            self.rebuild();
        }
    }
}

/// The messages of the rows of one message of the room, from the bottom
/// up: its last reply first, the message itself last.
pub open spec fn shown_for(m: MessageView) -> Seq<MessageView> {
    let all = flat(m);
    Seq::new(all.len(), |k: int| all[all.len() - 1 - k])
}

/// The messages of the rows of the first `n` messages of the list.
pub open spec fn shown_of(ms: Seq<MessageView>, n: nat) -> Seq<MessageView>
    decreases n,
{
    if n == 0 || n > ms.len() {
        Seq::empty()
    } else {
        shown_of(ms, (n - 1) as nat) + shown_for(ms[n - 1])
    }
}

/// The message or reply of the selected row.
pub open spec fn selected_message(c: ChatView) -> Option<MessageView> {
    let all = shown_of(c.messages, c.messages.len());
    if c.selection.row < all.len() {
        Some(all[c.selection.row as int])
    } else {
        None
    }
}

/// The state with the selection moved to `s`: the bookmark is set to it.
pub open spec fn moved_to(c: ChatView, s: Selection) -> ChatView {
    let bookmark = captured(c.rows, s, c.messages.len());
    ChatView { bookmark, selection: resolved(c.rows, bookmark), ..c }
}

/// Whether the user `me` sent one of the events of the reaction.
pub open spec fn sent_by(r: ReactionView, me: Seq<char>) -> bool {
    exists|k: int| 0 <= k < r.events.len() && (#[trigger] r.events[k]).sender.id == me
}

/// The emojis of the first `n` reactions.
pub open spec fn emojis_of(rs: Seq<ReactionView>, n: nat) -> Seq<Seq<char>>
    decreases n,
{
    if n == 0 || n > rs.len() {
        Seq::empty()
    } else {
        emojis_of(rs, (n - 1) as nat).push(rs[n - 1].body)
    }
}

/// The emojis of those of the first `n` reactions that `me` sent.
pub open spec fn my_emojis(rs: Seq<ReactionView>, me: Seq<char>, n: nat) -> Seq<Seq<char>>
    decreases n,
{
    if n == 0 || n > rs.len() {
        Seq::empty()
    } else if sent_by(rs[n - 1], me) {
        my_emojis(rs, me, (n - 1) as nat).push(rs[n - 1].body)
    } else {
        my_emojis(rs, me, (n - 1) as nat)
    }
}

/// The first event with which `me` sent the emoji `body`, among the first
/// `n` reactions.
pub open spec fn my_event(rs: Seq<ReactionView>, body: Seq<char>, me: Seq<char>, n: nat) -> Option<
    Seq<char>,
>
    decreases n,
{
    if n == 0 || n > rs.len() {
        None
    } else {
        match my_event(rs, body, me, (n - 1) as nat) {
            Some(id) => Some(id),
            None => {
                if rs[n - 1].body == body {
                    first_by(rs[n - 1], me, rs[n - 1].events.len())
                } else {
                    None
                }
            },
        }
    }
}

/// The first of the first `n` events of the reaction that `me` sent.
pub open spec fn first_by(r: ReactionView, me: Seq<char>, n: nat) -> Option<Seq<char>>
    decreases n,
{
    if n == 0 || n > r.events.len() {
        None
    } else {
        match first_by(r, me, (n - 1) as nat) {
            Some(id) => Some(id),
            None => {
                if r.events[n - 1].sender.id == me {
                    Some(r.events[n - 1].id)
                } else {
                    None
                }
            },
        }
    }
}

/// The list of reactions that opens for a message.
pub open spec fn react_for(reactions: Seq<ReactionView>, me: Seq<char>, usual: Seq<Seq<char>>) -> ReactView {
    let on_offer = crate::react::offered(emojis_of(reactions, reactions.len()), usual);
    ReactView {
        reactions: Seq::new(on_offer.len(), |i: int| choice(on_offer[i])),
        existing: my_emojis(reactions, me, reactions.len()),
        selected: 0,
    }
}

/// The note under a message that is edited.
pub open spec fn edit_note(room: Seq<char>) -> Seq<char> {
    "<!-- Edit your message above to change it in "@ + room + ". -->"@
}

/// The note under a message that is written.
pub open spec fn compose_note(room: Seq<char>) -> Seq<char> {
    "<!-- Type a new message above to send to "@ + room + ". -->"@
}

/// The first `n` of `lines`, one below the other.
pub open spec fn stacked(lines: Seq<Seq<char>>, n: nat) -> Seq<char>
    decreases n,
{
    if n == 0 || n > lines.len() {
        Seq::empty()
    } else if n == 1 {
        lines[0]
    } else {
        stacked(lines, (n - 1) as nat) + "\n"@ + lines[n - 1]
    }
}

/// The note under an answer: the message that is answered, wrapped at
/// sixty columns and indented.
pub open spec fn reply_note(m: MessageView) -> Seq<char> {
    let lines = wrapped(message_text(m), 60, "  "@, "  "@);
    "<!--\n  Replying to:\n\n"@ + stacked(lines, lines.len()) + "\n-->"@
}

/// The question that is asked before a message is deleted.
pub open spec fn delete_question(m: MessageView) -> Seq<char> {
    "Are you sure you want to delete \""@ + shortened(message_text(m), 16) + "\""@
}

/// The account of a room: its name, its id, and its members.
pub open spec fn room_text(c: ChatView) -> Seq<char> {
    c.room_name + " ("@ + c.room_id + ")\n\n# Members\n\n"@ + member_lines(c.members, c.members.len())
}

/// The lines for the first `n` members.
pub open spec fn member_lines(members: Seq<MemberView>, n: nat) -> Seq<char>
    decreases n,
{
    if n == 0 || n > members.len() {
        Seq::empty()
    } else {
        member_lines(members, (n - 1) as nat) + "* "@ + member_name(members[n - 1]) + " ("@
            + members[n - 1].user_id + ")\n"@
    }
}

/// What a key does while the list of reactions is open, if the list takes
/// the key: the state after it, and the commands.
pub open spec fn react_key(c: ChatView, key: KeyEvent) -> Option<(ChatView, Seq<CommandView>)> {
    match c.react {
        None => None,
        Some(r) => {
            let closed = ChatView { react: None, ..c };
            match crate::react::react_result(r, key) {
                crate::react::ReactResultView::Exit => Some((closed, Seq::empty())),
                crate::react::ReactResultView::SelectReaction(emoji) => Some(
                    (
                        closed,
                        match selected_message(c) {
                            Some(m) => seq![CommandView::SendReaction { event_id: m.id, key: emoji }],
                            None => Seq::empty(),
                        },
                    ),
                ),
                crate::react::ReactResultView::RemoveReaction(emoji) => Some(
                    (
                        closed,
                        match selected_message(c) {
                            Some(m) => match my_event(m.reactions, emoji, c.me, m.reactions.len()) {
                                Some(id) => seq![CommandView::RedactEvent { event_id: id }],
                                None => Seq::empty(),
                            },
                            None => Seq::empty(),
                        },
                    ),
                ),
                crate::react::ReactResultView::Consumed => Some(
                    (ChatView { react: Some(crate::react::react_after(r, key)), ..c }, Seq::empty()),
                ),
                crate::react::ReactResultView::Ignored => None,
            }
        },
    }
}

/// What a key does to the chat itself: the state after it, whether the
/// chat took the key, and the commands. `date` is the time of the selected
/// message as the machine writes it.
pub open spec fn plain_key(c: ChatView, key: KeyEvent, date: Seq<char>) -> (ChatView, bool, Seq<CommandView>) {
    let selected = selected_message(c);
    if key.modifiers == Modifiers::Control {
        match key.code {
            KeyCode::Char('d') => (
                moved_to(c, moved_down_by(c.rows, c.selection, c.page / 2)),
                true,
                Seq::empty(),
            ),
            KeyCode::Char('u') => {
                let (c1, fetch) = fetched_more(
                    moved_to(c, moved_up_by(c.rows, c.selection, c.page / 2)),
                );
                (c1, true, fetch)
            },
            _ => (c, false, Seq::empty()),
        }
    } else {
        match key.code {
            KeyCode::Char('j') | KeyCode::Down => (
                moved_to(c, moved_down(c.rows, c.selection)),
                true,
                Seq::empty(),
            ),
            KeyCode::Char('k') | KeyCode::Up => {
                let (c1, fetch) = fetched_more(moved_to(c, moved_up(c.rows, c.selection)));
                (c1, true, fetch)
            },
            KeyCode::Char('G') => (moved_to(c, Selection { row: 0, offset: 0 }), true, Seq::empty()),
            KeyCode::Enter => (
                c,
                true,
                match selected {
                    Some(m) => action_command(m, open_action(m.body)),
                    None => Seq::empty(),
                },
            ),
            KeyCode::Char('s') => (
                c,
                true,
                match selected {
                    Some(m) => action_command(m, save_action(m.body)),
                    None => Seq::empty(),
                },
            ),
            KeyCode::Char('c') => match selected {
                Some(m) => (
                    c,
                    true,
                    if m.body is Text {
                        seq![
                            CommandView::EditMessage {
                                event_id: m.id,
                                text: message_text(m),
                                note: edit_note(c.room_name),
                                in_reply_to: m.in_reply_to,
                            },
                        ]
                    } else {
                        Seq::empty()
                    },
                ),
                None => (c, false, Seq::empty()),
            },
            KeyCode::Char('i') => (c, true, seq![CommandView::Compose { note: compose_note(c.room_name) }]),
            KeyCode::Char('R') => (
                c,
                true,
                match selected {
                    Some(m) => seq![CommandView::Reply { event_id: m.id, note: reply_note(m) }],
                    None => Seq::empty(),
                },
            ),
            KeyCode::Char('v') => match selected {
                Some(m) => (c, true, seq![CommandView::ViewText { text: full_text(m, date) }]),
                None => (c, false, Seq::empty()),
            },
            KeyCode::Char('V') => (c, true, seq![CommandView::ViewText { text: room_text(c) }]),
            KeyCode::Char('r') => (
                ChatView {
                    react: Some(
                        react_for(
                            match selected {
                                Some(m) => m.reactions,
                                None => Seq::empty(),
                            },
                            c.me,
                            c.usual,
                        ),
                    ),
                    ..c
                },
                true,
                Seq::empty(),
            ),
            KeyCode::Char('u') => (c, true, seq![CommandView::Upload]),
            KeyCode::Char('m') => (
                ChatView { muted: !c.muted, ..c },
                true,
                seq![CommandView::SetMuted { muted: !c.muted }],
            ),
            _ => (c, false, Seq::empty()),
        }
    }
}

/// The command that an action on a message asks for.
pub open spec fn action_command(m: MessageView, action: MessageAction) -> Seq<CommandView> {
    match action {
        MessageAction::Download(after) => seq![CommandView::Download { body: m.body, after }],
        MessageAction::ViewText => seq![CommandView::OpenLinks { text: message_text(m) }],
        MessageAction::Nothing => Seq::empty(),
    }
}

/// Whether the key is a character that counts for the command that
/// deletes: one that is typed without the control key.
pub open spec fn counts(key: KeyEvent) -> bool {
    key.code is Char && key.modifiers != Modifiers::Control
}

/// What a key does: the state after it, whether the chat took the key, and
/// the commands. The open list of reactions has the key first. Then `dd`,
/// typed without a pause, asks whether the selected message is to be
/// deleted. Then come the keys of the chat. `timed_out` says whether the
/// pause before the key was too long for `dd`.
pub open spec fn after_key(c: ChatView, key: KeyEvent, timed_out: bool, date: Seq<char>) -> (
    ChatView,
    bool,
    Seq<CommandView>,
) {
    match react_key(c, key) {
        Some((c1, commands)) => (c1, true, commands),
        None => {
            if counts(key) {
                let (fired, matched) = step(seq!['d', 'd'], c.combo, key.code->Char_0, timed_out);
                let c1 = ChatView { combo: matched, ..c };
                if fired {
                    match selected_message(c) {
                        Some(m) => (
                            c1,
                            true,
                            seq![
                                CommandView::ConfirmDelete {
                                    question: delete_question(m),
                                    event_id: m.id,
                                },
                            ],
                        ),
                        None => (c1, false, Seq::empty()),
                    }
                } else {
                    plain_key(c1, key, date)
                }
            } else {
                plain_key(c, key, date)
            }
        },
    }
}

/// Whether a pause of `elapsed_nanos` nanoseconds before a key is too long
/// for `dd`: longer than half a second.
pub open spec fn too_long(elapsed_nanos: u128) -> bool {
    exceeds(500, elapsed_nanos)
}

/// The key `d` without the control key.
pub open spec fn plain_d(key: KeyEvent) -> bool {
    key.code == KeyCode::Char('d') && key.modifiers != Modifiers::Control
}

/// The first `d` of `dd` is noted and does nothing else: the chat does not
/// take the key.
pub proof fn lemma_d_waits(c: ChatView, key: KeyEvent, timed_out: bool, date: Seq<char>)
    requires
        c.react is None,
        c.combo == 0,
        plain_d(key),
    ensures
        after_key(c, key, timed_out, date) == (ChatView { combo: 1, ..c }, false, Seq::<CommandView>::empty()),
{
    assert(seq!['d', 'd'].len() == 2);
    assert(seq!['d', 'd'][0] == 'd');
}

/// The second `d`, typed without a pause, asks whether the selected message
/// is to be deleted, and deletes nothing itself. After a pause it is a
/// first `d` again.
pub proof fn lemma_dd_asks(c: ChatView, key: KeyEvent, date: Seq<char>)
    requires
        c.react is None,
        c.combo == 1,
        plain_d(key),
        selected_message(c) is Some,
    ensures
        after_key(c, key, false, date) == (
            ChatView { combo: 0, ..c },
            true,
            seq![
                CommandView::ConfirmDelete {
                    question: delete_question(selected_message(c)->0),
                    event_id: selected_message(c)->0.id,
                },
            ],
        ),
        after_key(c, key, true, date) == (ChatView { combo: 1, ..c }, false, Seq::<CommandView>::empty()),
{
    assert(seq!['d', 'd'].len() == 2);
    assert(seq!['d', 'd'][0] == 'd');
    assert(seq!['d', 'd'][1] == 'd');
}

/// What a key did.
pub struct Outcome {
    /// Whether the chat took the key.
    pub consumed: bool,
    pub commands: Vec<Command>,
}

/// The emojis of the reactions `rs`.
fn emojis(rs: &Vec<Reaction>) -> (out: Vec<String>)
    ensures
        views(out@) == emojis_of(views(rs@), rs@.len()),
{
    let mut out: Vec<String> = Vec::new();
    let mut i: usize = 0;
    while i < rs.len()
        invariant
            i <= rs.len(),
            views(out@) == emojis_of(views(rs@), i as nat),
        decreases rs.len() - i,
    {
        out.push(rs[i].body.clone());
        i += 1;
    }
    out
}

/// The first event of the reaction that `me` sent.
fn first_event_by(r: &Reaction, me: &String) -> (id: Option<String>)
    ensures
        opt_text(id) == first_by(r@, me@, r@.events.len()),
{
    let mut i: usize = 0;
    while i < r.events.len()
        invariant
            i <= r.events.len(),
            r@.events == views(r.events@),
            first_by(r@, me@, i as nat) is None,
        decreases r.events.len() - i,
    {
        assert(r@.events[i as int] == r.events@[i as int]@);
        if r.events[i].sender.id == *me {
            let id = r.events[i].id.clone();
            proof {
                lemma_first_by_stays(r@, me@, (i + 1) as nat, r@.events.len());
            }
            return Some(id);
        }
        i += 1;
    }
    None
}

proof fn lemma_first_by_stays(r: ReactionView, me: Seq<char>, n: nat, m: nat)
    requires
        n <= m <= r.events.len(),
        first_by(r, me, n) is Some,
    ensures
        first_by(r, me, m) == first_by(r, me, n),
    decreases m,
{
    if m > n {
        lemma_first_by_stays(r, me, n, (m - 1) as nat);
    }
}

proof fn lemma_sent_by(r: ReactionView, me: Seq<char>, n: nat)
    requires
        n <= r.events.len(),
    ensures
        first_by(r, me, n) is Some <==> exists|k: int|
            0 <= k < n && (#[trigger] r.events[k]).sender.id == me,
    decreases n,
{
    if n > 0 {
        lemma_sent_by(r, me, (n - 1) as nat);
        if first_by(r, me, (n - 1) as nat) is None && r.events[n - 1].sender.id != me {
            assert forall|k: int| 0 <= k < n implies (#[trigger] r.events[k]).sender.id != me by {}
        }
    }
}

/// The emojis of those of the reactions `rs` that `me` sent.
fn my_emojis_of(rs: &Vec<Reaction>, me: &String) -> (out: Vec<String>)
    ensures
        views(out@) == my_emojis(views(rs@), me@, rs@.len()),
{
    let mut out: Vec<String> = Vec::new();
    let mut i: usize = 0;
    while i < rs.len()
        invariant
            i <= rs.len(),
            views(out@) == my_emojis(views(rs@), me@, i as nat),
        decreases rs.len() - i,
    {
        proof {
            lemma_sent_by(rs@[i as int]@, me@, rs@[i as int]@.events.len());
        }
        if first_event_by(&rs[i], me).is_some() {
            out.push(rs[i].body.clone());
        }
        i += 1;
    }
    out
}

/// The first event with which `me` sent the emoji `body`.
fn my_reaction_event(rs: &Vec<Reaction>, body: &String, me: &String) -> (id: Option<String>)
    ensures
        opt_text(id) == my_event(views(rs@), body@, me@, rs@.len()),
{
    let mut i: usize = 0;
    while i < rs.len()
        invariant
            i <= rs.len(),
            my_event(views(rs@), body@, me@, i as nat) is None,
        decreases rs.len() - i,
    {
        if rs[i].body == *body {
            let found = first_event_by(&rs[i], me);
            if found.is_some() {
                proof {
                    lemma_my_event_stays(views(rs@), body@, me@, (i + 1) as nat, rs@.len());
                }
                return found;
            }
        }
        i += 1;
    }
    None
}

proof fn lemma_my_event_stays(rs: Seq<ReactionView>, body: Seq<char>, me: Seq<char>, n: nat, m: nat)
    requires
        n <= m <= rs.len(),
        my_event(rs, body, me, n) is Some,
    ensures
        my_event(rs, body, me, m) == my_event(rs, body, me, n),
    decreases m,
{
    if m > n {
        lemma_my_event_stays(rs, body, me, n, (m - 1) as nat);
    }
}

/// The lines `lines`, one below the other.
fn stack(lines: &Vec<String>) -> (text: String)
    ensures
        text@ == stacked(views(lines@), lines@.len()),
{
    let mut text = String::new();
    let mut i: usize = 0;
    while i < lines.len()
        invariant
            i <= lines.len(),
            text@ == stacked(views(lines@), i as nat),
        decreases lines.len() - i,
    {
        if i > 0 {
            text.append("\n");
        }
        text.append(lines[i].as_str());
        proof {
            if i == 0 {
                assert(text@ =~= views(lines@)[0]);
            }
        }
        i += 1;
    }
    text
}

impl Chat {
    /// The message or reply of the selected row.
    pub fn selected_reply(&self) -> (message: Option<&Message>)
        requires
            self.wf(),
        ensures
            match message {
                Some(m) => selected_message(self@) == Some(m@),
                None => selected_message(self@) is None,
            },
    {
        let ghost ms = views(self.messages@);
        let mut left: usize = self.selection.row;
        let mut i: usize = 0;
        while i < self.messages.len()
            invariant
                i <= self.messages.len(),
                ms == views(self.messages@),
                left + shown_of(ms, i as nat).len() == self.selection.row,
            decreases self.messages.len() - i,
        {
            let all = self.messages[i].flatten();
            let ghost m = ms[i as int];
            assert(shown_of(ms, (i + 1) as nat) == shown_of(ms, i as nat) + shown_for(m));
            if left < all.len() {
                let found = all[all.len() - 1 - left];
                proof {
                    let k = self.selection.row as int;
                    assert(shown_of(ms, (i + 1) as nat)[k] == shown_for(m)[left as int]);
                    lemma_shown_prefix(ms, (i + 1) as nat, ms.len(), k);
                }
                return Some(found);
            }
            left -= all.len();
            i += 1;
        }
        None
    }

    /// Moves the selection and sets the bookmark to it.
    fn select(&mut self, s: Selection)
        requires
            old(self).wf(),
        ensures
            final(self).wf(),
            final(self)@ == moved_to(old(self)@, s),
    {
        proof {
            self.lemma_wf();
        }
        self.bookmark = capture(&self.rows, s, self.messages.len());
        self.selection = resolve(&self.rows, &self.bookmark);
    }

    /// The account of the room: see `room_text`.
    pub fn display_full(&self) -> (text: String)
        ensures
            text@ == room_text(self@),
    {
        let mut text = self.room_name.clone();
        text.append(" (");
        text.append(self.room_id.as_str());
        text.append(")\n\n# Members\n\n");
        let ghost head = text@;
        let mut i: usize = 0;
        while i < self.members.len()
            invariant
                i <= self.members.len(),
                text@ == head + member_lines(self@.members, i as nat),
            decreases self.members.len() - i,
        {
            let m = &self.members[i];
            assert(self@.members[i as int] == m@);
            text.append("* ");
            match &m.display_name {
                Some(name) => text.append(name.as_str()),
                None => text.append(m.user_id.as_str()),
            }
            text.append(" (");
            text.append(m.user_id.as_str());
            text.append(")\n");
            assert(text@ == head + member_lines(self@.members, (i + 1) as nat));
            i += 1;
        }
        text
    }

    /// Hands a key to the list of reactions, if it is open.
    fn react_key_event(&mut self, input: &KeyEvent) -> (commands: Option<Vec<Command>>)
        requires
            old(self).wf(),
        ensures
            final(self).wf(),
            match commands {
                Some(cs) => react_key(old(self)@, *input) == Some((final(self)@, views(cs@))),
                None => react_key(old(self)@, *input) is None && final(self)@ == old(self)@,
            },
    {
        let result = match &mut self.react {
            Some(react) => react.key_event(input),
            None => {
                return None;
            },
        };
        let mut commands: Vec<Command> = Vec::new();
        match result {
            crate::react::ReactResult::Exit => {
                self.react = None;
                Some(commands)
            },
            crate::react::ReactResult::SelectReaction(emoji) => {
                self.react = None;
                if let Some(m) = self.selected_reply() {
                    commands.push(Command::SendReaction { event_id: m.id.clone(), key: emoji });
                }
                Some(commands)
            },
            crate::react::ReactResult::RemoveReaction(emoji) => {
                self.react = None;
                if let Some(m) = self.selected_reply() {
                    if let Some(id) = my_reaction_event(&m.reactions, &emoji, &self.me) {
                        commands.push(Command::RedactEvent { event_id: id });
                    }
                }
                Some(commands)
            },
            crate::react::ReactResult::Consumed => Some(commands),
            crate::react::ReactResult::Ignored => None,
        }
    }

    /// The command that an action on a message asks for.
    fn action(m: &Message, action: MessageAction, commands: &mut Vec<Command>)
        ensures
            views(final(commands)@) == views(old(commands)@) + action_command(m@, action),
    {
        match action {
            MessageAction::Download(after) => {
                commands.push(Command::Download { body: m.body.copy(), after });
            },
            MessageAction::ViewText => {
                commands.push(Command::OpenLinks { text: m.display() });
            },
            MessageAction::Nothing => {},
        }
    }

    /// Hands a key to the chat itself: see `plain_key`.
    fn plain_key_event(&mut self, input: &KeyEvent, date: &str) -> (outcome: Outcome)
        requires
            old(self).wf(),
        ensures
            final(self).wf(),
            (final(self)@, outcome.consumed, views(outcome.commands@)) == plain_key(
                old(self)@,
                *input,
                date@,
            ),
    {
        proof {
            self.lemma_wf();
        }
        let mut commands: Vec<Command> = Vec::new();
        let mut consumed = true;
        if let Modifiers::Control = input.modifiers {
            match input.code {
                KeyCode::Char('d') => {
                    let s = move_down_by(&self.rows, self.selection, self.page / 2);
                    self.select(s);
                },
                KeyCode::Char('u') => {
                    let s = move_up_by(&self.rows, self.selection, self.page / 2);
                    self.select(s);
                    self.try_fetch_previous(&mut commands);
                },
                _ => {
                    consumed = false;
                },
            }
        } else {
            match input.code {
                KeyCode::Char('j') | KeyCode::Down => {
                    let s = move_down(&self.rows, self.selection);
                    self.select(s);
                },
                KeyCode::Char('k') | KeyCode::Up => {
                    let s = move_up(&self.rows, self.selection);
                    self.select(s);
                    self.try_fetch_previous(&mut commands);
                },
                KeyCode::Char('G') => {
                    self.select(Selection { row: 0, offset: 0 });
                },
                KeyCode::Enter => {
                    if let Some(m) = self.selected_reply() {
                        Chat::action(m, m.open(), &mut commands);
                    }
                },
                KeyCode::Char('s') => {
                    if let Some(m) = self.selected_reply() {
                        Chat::action(m, m.save(), &mut commands);
                    }
                },
                KeyCode::Char('c') => {
                    match self.selected_reply() {
                        Some(m) => {
                            if let MessageBody::Text { .. } = &m.body {
                                let mut note = String::from_str(
                                    "<!-- Edit your message above to change it in ",
                                );
                                note.append(self.room_name.as_str());
                                note.append(". -->");
                                commands.push(
                                    Command::EditMessage {
                                        event_id: m.id.clone(),
                                        text: m.display(),
                                        note,
                                        in_reply_to: copy_opt(&m.in_reply_to),
                                    },
                                );
                            }
                        },
                        None => {
                            consumed = false;
                        },
                    }
                },
                KeyCode::Char('i') => {
                    let mut note = String::from_str("<!-- Type a new message above to send to ");
                    note.append(self.room_name.as_str());
                    note.append(". -->");
                    commands.push(Command::Compose { note });
                },
                KeyCode::Char('R') => {
                    if let Some(m) = self.selected_reply() {
                        let text = m.display();
                        let lines = wrap(text.as_str(), 60, "  ", "  ");
                        let body = stack(&lines);
                        let mut note = String::from_str("<!--\n  Replying to:\n\n");
                        note.append(body.as_str());
                        note.append("\n-->");
                        commands.push(Command::Reply { event_id: m.id.clone(), note });
                    }
                },
                KeyCode::Char('v') => {
                    match self.selected_reply() {
                        Some(m) => {
                            let text = m.display_full_with(date);
                            commands.push(Command::ViewText { text });
                        },
                        None => {
                            consumed = false;
                        },
                    }
                },
                KeyCode::Char('V') => {
                    commands.push(Command::ViewText { text: self.display_full() });
                },
                KeyCode::Char('r') => {
                    let react = match self.selected_reply() {
                        Some(m) => React::new(
                            emojis(&m.reactions),
                            my_emojis_of(&m.reactions, &self.me),
                            &self.usual,
                        ),
                        None => {
                            let none: Vec<Reaction> = Vec::new();
                            React::new(emojis(&none), my_emojis_of(&none, &self.me), &self.usual)
                        },
                    };
                    proof {
                        let rs = match selected_message(self@) {
                            Some(m) => m.reactions,
                            None => Seq::empty(),
                        };
                        assert(react@.reactions =~= react_for(rs, self@.me, self@.usual).reactions);
                    }
                    self.react = Some(react);
                },
                KeyCode::Char('u') => {
                    commands.push(Command::Upload);
                },
                KeyCode::Char('m') => {
                    self.muted = !self.muted;
                    commands.push(Command::SetMuted { muted: self.muted });
                },
                _ => {
                    consumed = false;
                },
            }
        }
        assert((self@, consumed, views(commands@)) == plain_key(old(self)@, *input, date@));
        Outcome { consumed, commands }
    }

    /// A key was pressed after a pause that was too long for `dd` or not:
    /// see `after_key`. `date` is the time of the selected message as it
    /// is to be written.
    pub fn key_event_with(&mut self, input: &KeyEvent, timed_out: bool, date: &str) -> (outcome:
        Outcome)
        requires
            old(self).wf(),
        ensures
            final(self).wf(),
            (final(self)@, outcome.consumed, views(outcome.commands@)) == after_key(
                old(self)@,
                *input,
                timed_out,
                date@,
            ),
    {
        if let Some(commands) = self.react_key_event(input) {
            return Outcome { consumed: true, commands };
        }
        if let KeyCode::Char(c) = input.code {
            let counted = match input.modifiers {
                Modifiers::Control => false,
                _ => true,
            };
            if counted {
                let ghost before = self@;
                let fired = self.delete_combo.advance(c, timed_out);
                self.delete_combo.touch();
                assert(self@ == ChatView { combo: self.delete_combo.matched(), ..before });
                if fired {
                    let mut commands: Vec<Command> = Vec::new();
                    let consumed = match self.selected_reply() {
                        Some(m) => {
                            let preview = truncate(m.display(), 16);
                            let mut question = String::from_str("Are you sure you want to delete \"");
                            question.append(preview.as_str());
                            question.append("\"");
                            commands.push(Command::ConfirmDelete { question, event_id: m.id.clone() });
                            true
                        },
                        None => false,
                    };
                    return Outcome { consumed, commands };
                }
            }
        }
        self.plain_key_event(input, date)
    }

    /// Whether a pause of `elapsed_nanos` nanoseconds before a key is too
    /// long for `dd`: longer than half a second.
    pub fn pause_exceeds(&self, elapsed_nanos: u128) -> (late: bool)
        requires
            self.wf(),
        ensures
            late == too_long(elapsed_nanos),
    {
        self.delete_combo.pause_exceeds(elapsed_nanos)
    }

    /// The time since the last key that counted for `dd`, in nanoseconds,
    /// by the clock.
    pub(crate) fn pause(&self) -> (elapsed_nanos: u128) {
        self.delete_combo.pause()
    }

    /// The time of the selected message as the machine writes it; empty
    /// where no message is selected.
    pub(crate) fn selected_date(&self) -> (date: String)
        requires
            self.wf(),
        ensures
            selected_message(self@) is None ==> date@ == Seq::<char>::empty(),
    {
        match self.selected_reply() {
            Some(m) => m.local_date(),
            None => String::new(),
        }
    }

    /// A key was pressed: see `after_key`. The pause before it is read off
    /// the clock, and the time of a message is written as the machine
    /// writes it; `pause_exceeds` and `key_event_with` do the rest.
    pub fn key_event(&mut self, input: &KeyEvent) -> (outcome: Outcome)
        requires
            old(self).wf(),
        ensures
            final(self).wf(),
            exists|elapsed_nanos: u128, date: Seq<char>|
                (final(self)@, outcome.consumed, views(outcome.commands@)) == #[trigger] after_key(
                    old(self)@,
                    *input,
                    too_long(elapsed_nanos),
                    date,
                ),
    {
        let elapsed_nanos = self.pause();
        let timed_out = self.pause_exceeds(elapsed_nanos);
        let date = self.selected_date();
        let outcome = self.key_event_with(input, timed_out, date.as_str());
        assert((self@, outcome.consumed, views(outcome.commands@)) == after_key(
            old(self)@,
            *input,
            too_long(elapsed_nanos),
            date@,
        ));
        outcome
    }
}

impl Chat {
    pub fn room(&self) -> (id: &str)
        ensures
            id@ == self@.room_id,
    {
        self.room_id.as_str()
    }

    pub fn room_name(&self) -> (name: &str)
        ensures
            name@ == self@.room_name,
    {
        self.room_name.as_str()
    }

    /// The messages that are shown, the newest first.
    pub fn messages(&self) -> (messages: &Vec<Message>)
        ensures
            views(messages@) == self@.messages,
    {
        &self.messages
    }

    /// The rows of the list, from the bottom up.
    pub fn rows(&self) -> (rows: &Vec<Row>)
        ensures
            views(rows@) == self@.rows,
    {
        &self.rows
    }

    pub fn selection(&self) -> (s: Selection)
        ensures
            s == self@.selection,
    {
        self.selection
    }

    pub fn bookmark(&self) -> (b: &Bookmark)
        ensures
            b@ == self@.bookmark,
    {
        &self.bookmark
    }

    /// The window of messages that is drawn: see `window`.
    pub fn window(&self) -> (range: (usize, usize))
        ensures
            range.0 == window(self@.rows, self@.selection, self@.messages.len()).0,
            range.1 == window(self@.rows, self@.selection, self@.messages.len()).1,
    {
        window_of(&self.rows, self.selection, self.messages.len())
    }

    /// The line that says who is typing.
    pub fn typing(&self) -> (text: Option<&str>)
        ensures
            match text {
                Some(t) => self@.typing == Some(t@),
                None => self@.typing is None,
            },
    {
        match &self.typing {
            Some(t) => Some(t.as_str()),
            None => None,
        }
    }

    /// The term that is searched for and marked in the messages.
    pub fn search(&self) -> (term: &str)
        ensures
            term@ == self@.search,
    {
        self.search.as_str()
    }

    pub fn muted(&self) -> (m: bool)
        ensures
            m == self@.muted,
    {
        self.muted
    }

    pub fn fetching(&self) -> (f: bool)
        ensures
            f == self@.fetching,
    {
        self.fetching
    }

    /// The list of reactions, while it is open.
    pub fn react(&self) -> (r: Option<&React>)
        ensures
            match r {
                Some(x) => self@.react == Some(x@),
                None => self@.react is None,
            },
    {
        match &self.react {
            Some(r) => Some(r),
            None => None,
        }
    }

    /// The header of the chat: the name of the room, and whether it is
    /// muted.
    pub fn header(&self) -> (text: String)
        ensures
            text@ == if self@.muted {
                self@.room_name + " (muted)"@
            } else {
                self@.room_name
            },
    {
        let mut text = self.room_name.clone();
        if self.muted {
            text.append(" (muted)");
        }
        text
    }
}

/// The rows of the list are the rows of the messages in `shown_of`.
pub proof fn lemma_shown_prefix(ms: Seq<MessageView>, n: nat, m: nat, k: int)
    requires
        n <= m <= ms.len(),
        0 <= k < shown_of(ms, n).len(),
    ensures
        k < shown_of(ms, m).len(),
        shown_of(ms, m)[k] == shown_of(ms, n)[k],
    decreases m,
{
    if m > n {
        lemma_shown_prefix(ms, n, (m - 1) as nat, k);
    }
}

/// Asking the room about users leaves the chat in its room.
pub proof fn lemma_asked_all_room(c: ChatView, events: Seq<EventView>, n: nat)
    ensures
        asked_all(c, events, n).0 == (ChatView { in_flight: asked_all(c, events, n).0.in_flight, ..c }),
        asked_all(c, events, n).0.room_id == c.room_id,
        asked_all(c, events, n).0.me == c.me,
        asked_all(c, events, n).0.bookmark == c.bookmark,
    decreases n,
{
    if n > 0 && n <= events.len() {
        lemma_asked_all_room(c, events, (n - 1) as nat);
    }
}

/// Asking the room about readers leaves the chat in its room.
pub proof fn lemma_readers_asked_room(c: ChatView, users: Seq<Seq<char>>, n: nat)
    ensures
        readers_asked(c, users, n).0.room_id == c.room_id,
    decreases n,
{
    if n > 0 && n <= users.len() {
        lemma_readers_asked_room(c, users, (n - 1) as nat);
    }
}

/// No event makes a chat the chat of another room.
pub proof fn lemma_events_keep_room(c: ChatView)
    ensures
        forall|e: EventView| (#[trigger] after_timeline(c, e)).0.room_id == c.room_id,
        forall|room_id: Seq<char>, events: Seq<EventView>, cursor: Option<Seq<char>>|
            (#[trigger] after_batch(c, room_id, events, cursor)).0.room_id == c.room_id,
        forall|room_id: Seq<char>, entries: Seq<ReceiptView>|
            (#[trigger] after_receipt(c, room_id, entries)).0.room_id == c.room_id,
        forall|term: Seq<char>| (#[trigger] after_search(c, term)).0.room_id == c.room_id,
{
    assert forall|room_id: Seq<char>, events: Seq<EventView>, cursor: Option<Seq<char>>|
        (#[trigger] after_batch(c, room_id, events, cursor)).0.room_id == c.room_id by {
        lemma_asked_all_room(c, events, events.len());
    }
    assert forall|room_id: Seq<char>, entries: Seq<ReceiptView>|
        (#[trigger] after_receipt(c, room_id, entries)).0.room_id == c.room_id by {
        let c1 = rebuilt(ChatView { receipts: recorded_all(c.receipts, entries, c.me), ..c });
        lemma_readers_asked_room(c1, readers(entries), entries.len());
    }
}

/// An event that comes in a second time changes nothing: the events are
/// the same as after the first time, and so are the messages and the rows.
pub proof fn lemma_same_event_twice(c: ChatView, e: EventView)
    requires
        chat_ok(c),
    ensures
        ({
            let once = after_timeline(c, e).0;
            let twice = after_timeline(once, e).0;
            &&& twice.events == once.events
            &&& twice.messages == once.messages
            &&& twice.rows == once.rows
            &&& twice.selection == once.selection
        }),
{
    if e.room_id == c.room_id {
        let (c1, _ask) = asked(c, e.sender);
        lemma_inserted(c1.events, e);
        let once = after_timeline(c, e).0;
        assert(once.events == inserted(c.events, e));
        assert(once.room_id == c.room_id);
        let (d1, _ask2) = asked(once, e.sender);
        lemma_inserted(once.events, e);
        assert(inserted(d1.events, e) == once.events);
    }
}

/// The first of the first `n` members with the id `user_id`.
pub open spec fn member_of(members: Seq<MemberView>, user_id: Seq<char>, n: nat) -> Option<MemberView>
    decreases n,
{
    if n == 0 || n > members.len() {
        None
    } else {
        match member_of(members, user_id, (n - 1) as nat) {
            Some(m) => Some(m),
            None => {
                if members[n - 1].user_id == user_id {
                    Some(members[n - 1])
                } else {
                    None
                }
            },
        }
    }
}

/// The members behind the first `n` receipts of a queue, as far as the
/// room knows them.
pub open spec fn reading_members(members: Seq<MemberView>, queue: Seq<ReceiptView>, n: nat) -> Seq<
    MemberView,
>
    decreases n,
{
    if n == 0 || n > queue.len() {
        Seq::empty()
    } else {
        let before = reading_members(members, queue, (n - 1) as nat);
        match member_of(members, queue[n - 1].user_id, members.len()) {
            Some(m) => before.push(m),
            None => before,
        }
    }
}

/// Whether one of `chosen` is the user `user_id`.
pub open spec fn chosen_has(chosen: Seq<MemberView>, user_id: Seq<char>) -> bool {
    exists|i: int| 0 <= i < chosen.len() && (#[trigger] chosen[i]).user_id == user_id
}

/// The members `chosen` with the senders of the first `k` events, taken
/// from the newest back: a sender whom the room knows and who is not
/// chosen yet is added, until more than five are chosen or all members
/// are.
pub open spec fn with_senders(
    members: Seq<MemberView>,
    events: Seq<EventView>,
    chosen: Seq<MemberView>,
    k: nat,
) -> Seq<MemberView>
    decreases k,
{
    if k == 0 || k > events.len() {
        chosen
    } else if chosen_has(chosen, events[k - 1].sender) {
        with_senders(members, events, chosen, (k - 1) as nat)
    } else {
        let more = match member_of(members, events[k - 1].sender, members.len()) {
            Some(m) => chosen.push(m),
            None => chosen,
        };
        if more.len() > 5 || more.len() == members.len() {
            more
        } else {
            with_senders(members, events, more, (k - 1) as nat)
        }
    }
}

/// The index of the first colon among the first `n` characters; `n`
/// where there is none.
pub open spec fn colon(id: Seq<char>, n: nat) -> nat
    decreases n,
{
    if n == 0 || n > id.len() {
        n
    } else {
        let before = colon(id, (n - 1) as nat);
        if before < n - 1 {
            before
        } else if id[n - 1] == ':' {
            (n - 1) as nat
        } else {
            n
        }
    }
}

/// The part of a user id between the `@` and the server: the name of the
/// user on that server.
pub open spec fn local_part(id: Seq<char>) -> Seq<char> {
    let end = colon(id, id.len());
    if id.len() > 0 && id[0] == '@' && end >= 1 {
        id.subrange(1, end as int)
    } else {
        id.take(end as int)
    }
}

/// The word that stands for a member among the members of a room.
pub open spec fn member_word(m: MemberView) -> Seq<char> {
    first_word(
        match m.display_name {
            Some(name) => name,
            None => local_part(m.user_id),
        },
    )
}

/// The members of which the header of the chat speaks: those who have
/// read, the latest reader first, then those who wrote last.
pub open spec fn header_members(c: ChatView) -> Seq<MemberView> {
    let queue = queued(c.receipts);
    with_senders(
        c.members,
        c.events,
        reading_members(c.members, queue, queue.len()),
        c.events.len(),
    )
}

/// The line of the header that names the members: five of them at most,
/// and how many others there are at least.
pub open spec fn members_text(c: ChatView) -> Seq<char> {
    pretty(limited(member_words(header_members(c)), 5, c.members.len(), Some("at least"@)))
}

proof fn lemma_member_of_stays(members: Seq<MemberView>, user_id: Seq<char>, n: nat, m: nat)
    requires
        n <= m <= members.len(),
        member_of(members, user_id, n) is Some,
    ensures
        member_of(members, user_id, m) == member_of(members, user_id, n),
    decreases m,
{
    if m > n {
        lemma_member_of_stays(members, user_id, n, (m - 1) as nat);
    }
}

proof fn lemma_colon_stays(id: Seq<char>, n: nat, m: nat)
    requires
        n <= m <= id.len(),
        colon(id, n) < n,
    ensures
        colon(id, m) == colon(id, n),
    decreases m,
{
    if m > n {
        lemma_colon_stays(id, n, (m - 1) as nat);
    }
}

fn find_member(members: &Vec<Member>, user_id: &str) -> (found: Option<usize>)
    ensures
        match found {
            Some(i) => i < members.len() && member_of(views(members@), user_id@, members@.len())
                == Some(members@[i as int]@),
            None => member_of(views(members@), user_id@, members@.len()) is None,
        },
{
    let mut i: usize = 0;
    while i < members.len()
        invariant
            i <= members.len(),
            member_of(views(members@), user_id@, i as nat) is None,
        decreases members.len() - i,
    {
        if same_text(members[i].user_id.as_str(), user_id) {
            proof {
                lemma_member_of_stays(views(members@), user_id@, (i + 1) as nat, members@.len());
            }
            return Some(i);
        }
        i += 1;
    }
    None
}

/// The word that stands for a member: see `member_word`.
fn word_for(m: &Member) -> (word: String)
    ensures
        word@ == member_word(m@),
{
    match &m.display_name {
        Some(name) => first_word_of(name.as_str()),
        None => {
            let v = chars_of(m.user_id.as_str());
            let mut end: usize = 0;
            while end < v.len() && v[end] != ':'
                invariant
                    end <= v.len(),
                    colon(v@, end as nat) == end,
                decreases v.len() - end,
            {
                end += 1;
            }
            proof {
                if end < v.len() {
                    lemma_colon_stays(v@, (end + 1) as nat, v@.len());
                }
            }
            let local = if v.len() > 0 && v[0] == '@' && end >= 1 {
                string_of(&v, 1, end)
            } else {
                let s = string_of(&v, 0, end);
                assert(v@.subrange(0, end as int) == v@.take(end as int));
                s
            };
            first_word_of(local.as_str())
        },
    }
}

/// The members at the places `places`.
pub open spec fn members_at(members: Seq<MemberView>, places: Seq<usize>) -> Seq<MemberView> {
    Seq::new(places.len(), |j: int| members[places[j] as int])
}

/// The words that stand for the members `chosen`.
pub open spec fn member_words(chosen: Seq<MemberView>) -> Seq<Seq<char>> {
    Seq::new(chosen.len(), |i: int| member_word(chosen[i]))
}

impl Chat {
    /// The line of the header that names the members: see `members_text`.
    pub fn pretty_members(&self) -> (text: String)
        requires
            self.wf(),
        ensures
            text@ == members_text(self@),
    {
        let ghost members = self@.members;
        let queue = self.receipts.get_all();
        let mut chosen: Vec<usize> = Vec::new();
        let total: usize = queue.len();
        let mut i: usize = 0;
        assert(members_at(members, chosen@) =~= Seq::<MemberView>::empty());
        while i < total
            invariant
                i <= total,
                total == queue@.len(),
                members == views(self.members@),
                forall|k: int| 0 <= k < chosen.len() ==> (#[trigger] chosen@[k]) < self.members.len(),
                reading_members(members, queue@, i as nat) == members_at(members, chosen@),
            decreases total - i,
        {
            let ghost before = chosen@;
            if let Some(at) = find_member(&self.members, queue.get(i).user_id.as_str()) {
                chosen.push(at);
                assert(members_at(members, chosen@) =~= members_at(members, before).push(
                    members[at as int],
                ));
            }
            i += 1;
        }
        let ghost events = self@.events;
        let mut k: usize = self.timeline.len();
        while k > 0
            invariant_except_break
                with_senders(members, events, members_at(members, chosen@), k as nat)
                    == header_members(self@),
            invariant
                k <= events.len(),
                events == self.timeline@,
                members == views(self.members@),
                forall|j: int| 0 <= j < chosen.len() ==> (#[trigger] chosen@[j]) < self.members.len(),
            ensures
                members_at(members, chosen@) == header_members(self@),
                forall|j: int| 0 <= j < chosen.len() ==> (#[trigger] chosen@[j]) < self.members.len(),
            decreases k,
        {
            let ghost so_far = members_at(members, chosen@);
            let sender = &self.timeline.get(k - 1).sender;
            let mut known = false;
            let mut j: usize = 0;
            while j < chosen.len()
                invariant
                    j <= chosen.len(),
                    members == views(self.members@),
                    so_far == members_at(members, chosen@),
                    forall|x: int| 0 <= x < chosen.len() ==> (#[trigger] chosen@[x]) < self.members.len(),
                    known == exists|x: int| 0 <= x < j && (#[trigger] so_far[x]).user_id == sender@,
                decreases chosen.len() - j,
            {
                let at = chosen[j];
                assert(so_far[j as int] == self.members@[at as int]@);
                if self.members[at].user_id == *sender {
                    known = true;
                }
                j += 1;
            }
            assert(known == chosen_has(so_far, sender@));
            if !known {
                let ghost before = chosen@;
                if let Some(at) = find_member(&self.members, sender.as_str()) {
                    chosen.push(at);
                    assert(members_at(members, chosen@) =~= members_at(members, before).push(
                        members[at as int],
                    ));
                }
                if chosen.len() > 5 || chosen.len() == self.members.len() {
                    break ;
                }
            }
            k -= 1;
        }
        let ghost picked = members_at(members, chosen@);
        let mut words: Vec<String> = Vec::new();
        let mut w: usize = 0;
        while w < chosen.len()
            invariant
                w <= chosen.len(),
                members == views(self.members@),
                picked == members_at(members, chosen@),
                forall|x: int| 0 <= x < chosen.len() ==> (#[trigger] chosen@[x]) < self.members.len(),
                views(words@) == member_words(picked).take(w as int),
            decreases chosen.len() - w,
        {
            let at = chosen[w];
            assert(picked[w as int] == self.members@[at as int]@);
            words.push(word_for(&self.members[at]));
            assert(views(words@) =~= member_words(picked).take(w + 1));
            w += 1;
        }
        assert(member_words(picked).take(chosen.len() as int) == member_words(picked));
        pretty_list(limit_list(words, 5, self.members.len(), Some("at least")))
    }
}

} // verus!
