//! The application: one popup at most, the chat of one room at most, and
//! what every event does to them.

use crate::chat::{
    after_batch, after_key, after_member, after_receipt, after_search, after_timeline,
    after_typing, chat_ok, delete_question, entered_chat, lemma_dd_asks, marked_read, plain_d,
    selected_message, too_long, Chat, ChatConfig, ChatView, Command, CommandView,
};
use crate::emoji::{centered_all, format_emojis};
use crate::event::TimelineEvent;
use crate::handler::{for_room, Action, ActionView, Batch, MatuiEvent, MatuiEventView};
use crate::key::{KeyCode, KeyEvent, Modifiers};
use crate::layout::{rows_ok, selectable};
use crate::matrix::{
    timer_cleared, timer_fires, timer_key, timer_set, BlurTimer, BlurTimerView, SyncType,
};
use crate::message::MessageView;
use crate::notify::{elsewhere, handle_of, noticed, Notify, NotifyView};
use crate::receipts::{ReadReceipt, ReceiptView};
use crate::roomcache::{refreshed, room_index, visited, DecoratedRoom, RoomCache, RoomView};
use crate::settings::{
    blur_delay, is_muted, max_events, muted, reactions, set_muted, MuteChangeView, Settings,
    SettingsView,
};
use crate::views::{group_views, views};
use crate::widgets::button::ButtonView;
use crate::widgets::confirm::{
    confirm_after, confirm_result, Confirm, ConfirmBehavior, ConfirmBehaviorView, ConfirmView,
};
use crate::widgets::error::{Error, ErrorView};
use crate::widgets::help::Help;
use crate::widgets::progress::{frame, Progress, ProgressView};
use crate::widgets::recover::{recover_result, Recover};
use crate::widgets::rooms::{rooms_after, rooms_result, rooms_start, Rooms, RoomsView};
use crate::widgets::search::{search_result, search_start, Search};
use crate::widgets::signin::{signin_after, signin_result, signin_start, Signin, SigninView};
use crate::widgets::textinput::{input_after, window_left, TextInputView};
use crate::widgets::{closing, Effect, EffectView, EventResult, EventResultView};
use vstd::prelude::*;

verus! {

broadcast use group_views;

/// The popup that is open. It has the keys first.
pub enum Popup {
    Confirm(Confirm),
    Error(Error),
    Progress(Progress),
    Rooms(Rooms),
    Signin(Signin),
    Help(Help),
    Search(Search),
    Recover(Recover),
}

pub enum PopupView {
    Confirm(ConfirmView),
    Error(ErrorView),
    Progress(ProgressView),
    Rooms(RoomsView),
    Signin(SigninView),
    Help,
    Search(TextInputView),
    Recover(TextInputView),
}

impl View for Popup {
    type V = PopupView;

    open spec fn view(&self) -> PopupView {
        match *self {
            Popup::Confirm(w) => PopupView::Confirm(w@),
            Popup::Error(w) => PopupView::Error(w@),
            Popup::Progress(w) => PopupView::Progress(w@),
            Popup::Rooms(w) => PopupView::Rooms(w@),
            Popup::Signin(w) => PopupView::Signin(w@),
            Popup::Help(_) => PopupView::Help,
            Popup::Search(w) => PopupView::Search(w@),
            Popup::Recover(w) => PopupView::Recover(w@),
        }
    }
}

/// The view of an optional popup.
pub open spec fn opt_popup(p: Option<Popup>) -> Option<PopupView> {
    match p {
        Some(x) => Some(x@),
        None => None,
    }
}

/// The popup after a key.
pub open spec fn popup_after(p: PopupView, key: KeyEvent) -> PopupView {
    match p {
        PopupView::Confirm(w) => PopupView::Confirm(confirm_after(w, key)),
        PopupView::Rooms(w) => PopupView::Rooms(rooms_after(w, key)),
        PopupView::Signin(w) => PopupView::Signin(signin_after(w, key)),
        PopupView::Search(w) => PopupView::Search(input_after(w, key)),
        PopupView::Recover(w) => PopupView::Recover(input_after(w, key)),
        _ => p,
    }
}

/// What a key asks for when the popup has it. A popup that shows work in
/// progress takes no key.
pub open spec fn popup_result(p: PopupView, key: KeyEvent) -> EventResultView {
    match p {
        PopupView::Confirm(w) => confirm_result(w, key),
        PopupView::Error(_) => closing(),
        PopupView::Progress(_) => EventResultView::Ignored,
        PopupView::Rooms(w) => rooms_result(w, key),
        PopupView::Signin(w) => signin_result(w, key),
        PopupView::Help => closing(),
        PopupView::Search(w) => search_result(w, key),
        PopupView::Recover(w) => recover_result(w, key),
    }
}

/// The popup after its text fields were given `size` columns each: their
/// windows show the cursor.
pub open spec fn popup_adjusted(p: PopupView, size: nat) -> PopupView {
    match p {
        PopupView::Rooms(w) => PopupView::Rooms(
            RoomsView { textinput: TextInputView { left: window_left(w.textinput, size), ..w.textinput }, ..w },
        ),
        PopupView::Signin(w) => PopupView::Signin(
            SigninView {
                id: TextInputView { left: window_left(w.id, size), ..w.id },
                password: TextInputView { left: window_left(w.password, size), ..w.password },
                ..w
            },
        ),
        PopupView::Search(w) => PopupView::Search(TextInputView { left: window_left(w, size), ..w }),
        PopupView::Recover(w) => PopupView::Recover(TextInputView { left: window_left(w, size), ..w }),
        _ => p,
    }
}

/// The popup after a tick: the mark of work in progress moves on.
pub open spec fn popup_ticked(p: PopupView, timestamp: nat) -> PopupView {
    match p {
        PopupView::Progress(w) => PopupView::Progress(ProgressView { tail: frame(timestamp), ..w }),
        _ => p,
    }
}

impl Popup {
    pub open spec fn wf(&self) -> bool {
        match *self {
            Popup::Rooms(w) => w.wf(),
            Popup::Signin(w) => w.wf(),
            Popup::Search(w) => w.wf(),
            Popup::Recover(w) => w.wf(),
            _ => true,
        }
    }

    pub fn key_event(&mut self, event: &KeyEvent) -> (result: EventResult)
        requires
            old(self).wf(),
        ensures
            final(self).wf(),
            final(self)@ == popup_after(old(self)@, *event),
            result@ == popup_result(old(self)@, *event),
    {
        match self {
            Popup::Confirm(w) => w.key_event(event),
            Popup::Error(w) => w.key_event(event),
            Popup::Progress(_) => EventResult::Ignored,
            Popup::Rooms(w) => w.key_event(event),
            Popup::Signin(w) => w.input(event),
            Popup::Help(w) => w.key_event(event),
            Popup::Search(w) => w.key_event(event),
            Popup::Recover(w) => w.key_event(event),
        }
    }

    /// Gives the text fields of the popup `size` columns each.
    pub fn adjust_window(&mut self, size: usize)
        requires
            old(self).wf(),
        ensures
            final(self).wf(),
            final(self)@ == popup_adjusted(old(self)@, size as nat),
    {
        match self {
            Popup::Rooms(w) => w.adjust_window(size),
            Popup::Signin(w) => w.adjust_window(size),
            Popup::Search(w) => w.adjust_window(size),
            Popup::Recover(w) => w.adjust_window(size),
            _ => {},
        }
    }

    pub fn tick_event(&mut self, timestamp: usize)
        requires
            old(self).wf(),
        ensures
            final(self).wf(),
            final(self)@ == popup_ticked(old(self)@, timestamp as nat),
    {
        if let Popup::Progress(w) = self {
            w.tick(timestamp);
        }
    }
}

/// The receipts of a room that came in with one event.
pub struct RoomReceipts {
    pub room_id: String,
    pub entries: Vec<ReadReceipt>,
}

pub struct RoomReceiptsView {
    pub room_id: Seq<char>,
    pub entries: Seq<ReceiptView>,
}

impl View for RoomReceipts {
    type V = RoomReceiptsView;

    open spec fn view(&self) -> RoomReceiptsView {
        RoomReceiptsView { room_id: self.room_id@, entries: views(self.entries@) }
    }
}

/// The application.
pub struct App {
    /// Whether the application goes on.
    pub running: bool,
    /// How many ticks have passed.
    pub timestamp: usize,
    popup: Option<Popup>,
    chat: Option<Chat>,
    cache: RoomCache,
    notify: Notify,
    settings: Settings,
    blur: BlurTimer,
    me: String,
    /// Whether a verification waits for the answer of the user.
    sas: bool,
    /// The last receipt events, which a chat is given when it opens.
    receipts: Vec<RoomReceipts>,
}

pub struct AppView {
    pub running: bool,
    pub timestamp: nat,
    pub popup: Option<PopupView>,
    pub chat: Option<ChatView>,
    pub cache: Seq<RoomView>,
    pub notify: NotifyView,
    pub settings: SettingsView,
    pub blur: BlurTimerView,
    pub me: Seq<char>,
    pub sas: bool,
    pub receipts: Seq<RoomReceiptsView>,
}

/// The view of an optional chat.
pub open spec fn opt_chat(c: Option<Chat>) -> Option<ChatView> {
    match c {
        Some(x) => Some(x@),
        None => None,
    }
}

impl View for App {
    type V = AppView;

    closed spec fn view(&self) -> AppView {
        AppView {
            running: self.running,
            timestamp: self.timestamp as nat,
            popup: opt_popup(self.popup),
            chat: opt_chat(self.chat),
            cache: self.cache@,
            notify: self.notify@,
            settings: self.settings@,
            blur: self.blur@,
            me: self.me@,
            sas: self.sas,
            receipts: views(self.receipts@),
        }
    }
}

/// The number of receipt events that are kept for the chats to come.
pub open spec fn backlog() -> nat {
    500
}

/// The chat after the first `n` of the kept receipt events came in, and
/// the commands.
pub open spec fn caught_up(c: ChatView, kept: Seq<RoomReceiptsView>, n: nat) -> (ChatView, Seq<CommandView>)
    decreases n,
{
    if n == 0 || n > kept.len() {
        (c, Seq::empty())
    } else {
        let (c1, before) = caught_up(c, kept, (n - 1) as nat);
        let (c2, more) = after_receipt(c1, kept[n - 1].room_id, kept[n - 1].entries);
        (c2, before + more)
    }
}

/// The application after the user has looked at a room, and the actions:
/// the notification that is out for the room is closed, and the room
/// counts as visited.
pub open spec fn room_visited(a: AppView, room_id: Seq<char>) -> (AppView, Seq<ActionView>) {
    (
        AppView {
            notify: NotifyView {
                focus: a.notify.focus,
                room_id: Some(room_id),
                rooms: a.notify.rooms.filter(elsewhere(room_id)),
            },
            cache: visited(a.cache, room_id),
            ..a
        },
        match handle_of(a.notify.rooms, room_id, a.notify.rooms.len()) {
            Some(handle) => seq![ActionView::CloseNotification { handle }],
            None => Seq::empty(),
        },
    )
}

/// The application after a room was entered, and the actions. The room in
/// which the user is already, and a room that is not among the rooms,
/// change nothing. Otherwise a chat opens for the room, catches up on the
/// receipts that were kept, and the room counts as visited.
pub open spec fn entered(a: AppView, room_id: Seq<char>) -> (AppView, Seq<ActionView>) {
    let i = room_index(a.cache, room_id, a.cache.len());
    if a.chat matches Some(c) && c.room_id == room_id {
        (a, Seq::empty())
    } else if i >= a.cache.len() {
        (a, Seq::empty())
    } else {
        let room = a.cache[i as int];
        let fresh = entered_chat(
            room.room_id,
            room.name,
            a.me,
            a.settings.max_events as int,
            muted(a.settings, room.room_id),
            a.settings.reactions,
        );
        let (chat, commands) = caught_up(fresh, a.receipts, a.receipts.len());
        let (a1, closing) = room_visited(AppView { chat: Some(chat), ..a }, room_id);
        (
            a1,
            for_room(
                room.room_id,
                seq![CommandView::FetchMessages { cursor: None, limit: 32 }] + commands,
            ) + closing,
        )
    }
}

/// The popup that asks whether the emojis match.
pub open spec fn verify_popup(emojis: Seq<Seq<char>>) -> PopupView {
    PopupView::Confirm(
        ConfirmView {
            title: "Verify"@,
            message: "Do these emojis match your other session?\n\n"@ + centered_all(emojis),
            yes: ButtonView { label: "Yes"@, focused: true },
            no: ButtonView { label: "No"@, focused: false },
            behavior: ConfirmBehaviorView::Verification,
        },
    )
}

/// The popup that shows work in progress.
pub open spec fn progress_popup(text: Seq<char>, delay_ms: u64) -> PopupView {
    PopupView::Progress(ProgressView { text, tail: Seq::empty(), delay_ms })
}

/// The popup that shows a message under a heading.
pub open spec fn message_popup(heading: Seq<char>, message: Seq<char>) -> PopupView {
    PopupView::Error(ErrorView { heading, message, button: ButtonView { label: "OK"@, focused: true } })
}

/// The kept receipt events with one more: the oldest goes when more than
/// five hundred are kept.
pub open spec fn kept_with(kept: Seq<RoomReceiptsView>, r: RoomReceiptsView) -> Seq<RoomReceiptsView> {
    if kept.len() + 1 > backlog() {
        kept.push(r).drop_first()
    } else {
        kept.push(r)
    }
}

/// The application after the commands of its chat were seen to, and the
/// actions: a command to ask before a message is deleted opens the popup
/// that asks, a command to mute is noted in the settings, every other
/// command becomes an action. The first `n` commands are seen to.
pub open spec fn routed(a: AppView, room_id: Seq<char>, commands: Seq<CommandView>, n: nat) -> (
    AppView,
    Seq<ActionView>,
)
    decreases n,
{
    if n == 0 || n > commands.len() {
        (a, Seq::empty())
    } else {
        let (a1, before) = routed(a, room_id, commands, (n - 1) as nat);
        match commands[n - 1] {
            CommandView::ConfirmDelete { question, event_id } => (
                AppView {
                    popup: Some(
                        PopupView::Confirm(
                            ConfirmView {
                                title: "Delete Message"@,
                                message: question,
                                yes: ButtonView { label: "Yes"@, focused: true },
                                no: ButtonView { label: "No"@, focused: false },
                                behavior: ConfirmBehaviorView::DeleteMessage { room_id, event_id },
                            },
                        ),
                    ),
                    ..a1
                },
                before,
            ),
            CommandView::SetMuted { muted } => (
                AppView {
                    settings: SettingsView {
                        overrides: a1.settings.overrides.push(MuteChangeView { room_id, muted }),
                        ..a1.settings
                    },
                    ..a1
                },
                before,
            ),
            command => (a1, before.push(ActionView::Chat { room_id, command })),
        }
    }
}

/// The application after an event, and the actions.
pub open spec fn after_event(a: AppView, e: MatuiEventView) -> (AppView, Seq<ActionView>) {
    match e {
        MatuiEventView::Confirm(heading, message) => (
            AppView { popup: Some(message_popup(heading, message)), ..a },
            Seq::empty(),
        ),
        MatuiEventView::Error(message) => (
            AppView { popup: Some(message_popup("Error"@, message)), ..a },
            Seq::empty(),
        ),
        MatuiEventView::LoginRequired => (
            AppView { popup: Some(PopupView::Signin(signin_start())), ..a },
            Seq::empty(),
        ),
        MatuiEventView::LoginStarted => (
            AppView { popup: Some(progress_popup("Logging in"@, 0)), ..a },
            Seq::empty(),
        ),
        MatuiEventView::LoginComplete => (AppView { popup: None, ..a }, Seq::empty()),
        MatuiEventView::ProgressStarted(text, delay) => (
            AppView { popup: Some(progress_popup(text, delay)), ..a },
            Seq::empty(),
        ),
        MatuiEventView::ProgressComplete => (AppView { popup: None, ..a }, Seq::empty()),
        MatuiEventView::RoomMember(room_id, member) => (
            match a.chat {
                Some(c) => AppView { chat: Some(after_member(c, room_id, member)), ..a },
                None => a,
            },
            Seq::empty(),
        ),
        MatuiEventView::RoomSelected(room_id) => entered(a, room_id),
        MatuiEventView::SyncStarted(t) => (
            AppView {
                popup: Some(
                    progress_popup(
                        if t == SyncType::Initial {
                            "Performing initial sync."@
                        } else {
                            "Syncing"@
                        },
                        0,
                    ),
                ),
                ..a
            },
            Seq::empty(),
        ),
        MatuiEventView::SyncComplete => {
            let a1 = AppView { popup: None, ..a };
            let rooms = crate::roomcache::arranged(a.cache);
            if rooms.len() > 0 {
                let (a2, actions) = entered(a1, rooms[0].room_id);
                (a2, seq![ActionView::Sync] + actions)
            } else {
                (a1, seq![ActionView::Sync])
            }
        },
        MatuiEventView::Timeline(event) => {
            let (a1, commands) = match a.chat {
                Some(c) => (
                    AppView { chat: Some(after_timeline(c, event).0), ..a },
                    for_room(c.room_id, after_timeline(c, event).1),
                ),
                None => (a, Seq::empty()),
            };
            (
                a1,
                commands + seq![ActionView::RefreshRoom { room_id: event.room_id }] + match noticed(
                    a.notify,
                    event,
                    a.me,
                    muted(a.settings, event.room_id),
                ) {
                    Some(n) => seq![ActionView::Notify(n)],
                    None => Seq::empty(),
                },
            )
        },
        MatuiEventView::TimelineBatch(batch) => match a.chat {
            Some(c) => (
                AppView { chat: Some(after_batch(c, batch.room_id, batch.events, batch.cursor).0), ..a },
                for_room(c.room_id, after_batch(c, batch.room_id, batch.events, batch.cursor).1),
            ),
            None => (a, Seq::empty()),
        },
        MatuiEventView::Typing(room_id, ids) => (
            match a.chat {
                Some(c) => AppView { chat: Some(after_typing(c, room_id, ids)), ..a },
                None => a,
            },
            Seq::empty(),
        ),
        MatuiEventView::Receipt(room_id, entries) => {
            let kept = kept_with(a.receipts, RoomReceiptsView { room_id, entries });
            match a.chat {
                Some(c) => (
                    AppView { chat: Some(after_receipt(c, room_id, entries).0), receipts: kept, ..a },
                    for_room(c.room_id, after_receipt(c, room_id, entries).1),
                ),
                None => (AppView { receipts: kept, ..a }, Seq::empty()),
            }
        },
        MatuiEventView::VerificationStarted(emojis) => (
            AppView { sas: true, popup: Some(verify_popup(emojis)), ..a },
            Seq::empty(),
        ),
        MatuiEventView::VerificationCompleted => (AppView { popup: None, sas: false, ..a }, Seq::empty()),
        MatuiEventView::Search(term) => match a.chat {
            Some(c) => (
                AppView { chat: Some(after_search(c, term).0), ..a },
                for_room(c.room_id, after_search(c, term).1),
            ),
            None => (a, Seq::empty()),
        },
        MatuiEventView::Recover(key) => (a, seq![ActionView::Recover { key }]),
    }
}

/// The application after the window got the focus, and the actions: the
/// notifications know of it, the timer that makes the window count as
/// left alone is set anew, and the room of the chat counts as visited and
/// is marked as read.
pub open spec fn focused(a: AppView) -> (AppView, Seq<ActionView>) {
    let a1 = AppView {
        notify: NotifyView { focus: true, ..a.notify },
        blur: if a.settings.blur_delay > 0 {
            timer_set(a.blur)
        } else {
            a.blur
        },
        ..a
    };
    let timer = if a.settings.blur_delay > 0 {
        match timer_key(a.blur) {
            Some(key) => seq![
                ActionView::SetBlurTimer { timer: key, seconds: a.settings.blur_delay as u64 },
            ],
            None => Seq::empty(),
        }
    } else {
        Seq::empty()
    };
    match a.chat {
        Some(c) => {
            let (a2, closing) = room_visited(a1, c.room_id);
            let read = marked_read(ChatView { focus: true, ..c });
            (AppView { chat: Some(read.0), ..a2 }, timer + closing + for_room(c.room_id, read.1))
        },
        None => (a1, timer),
    }
}

/// The application after the window lost the focus.
pub open spec fn blurred(a: AppView) -> AppView {
    AppView {
        notify: NotifyView { focus: false, ..a.notify },
        blur: timer_cleared(a.blur),
        chat: match a.chat {
            Some(c) => Some(ChatView { focus: false, ..c }),
            None => None,
        },
        ..a
    }
}

/// The application after a tick, and the actions: the first tick brings
/// the session up, every later one moves the popup on.
pub open spec fn ticked(a: AppView) -> (AppView, Seq<ActionView>) {
    if a.timestamp == 0 {
        (AppView { timestamp: 1, ..a }, seq![ActionView::Init])
    } else {
        (
            AppView {
                popup: match a.popup {
                    Some(p) => Some(popup_ticked(p, a.timestamp)),
                    None => None,
                },
                timestamp: if a.timestamp < usize::MAX {
                    a.timestamp + 1
                } else {
                    a.timestamp
                },
                ..a
            },
            Seq::empty(),
        )
    }
}

/// The application after what a popup asked for was done, and the actions.
pub open spec fn effected(a: AppView, effect: EffectView) -> (AppView, Seq<ActionView>) {
    let closed = AppView { popup: None, ..a };
    match effect {
        EffectView::Nothing => (a, Seq::empty()),
        EffectView::ClosePopup => (closed, Seq::empty()),
        EffectView::SelectRoom { room_id } => entered(closed, room_id),
        EffectView::ConfirmVerification => {
            if a.sas {
                (closed, seq![ActionView::ConfirmVerification])
            } else {
                (a, Seq::empty())
            }
        },
        EffectView::MismatchedVerification => {
            if a.sas {
                (closed, seq![ActionView::MismatchedVerification])
            } else {
                (a, Seq::empty())
            }
        },
        EffectView::RedactEvent { room_id, event_id } => (
            closed,
            seq![ActionView::RedactEvent { room_id, event_id }],
        ),
        EffectView::Login { id, password } => (a, seq![ActionView::Login { id, password }]),
        EffectView::Search { term } => after_event(a, MatuiEventView::Search(term)),
        EffectView::SearchAndClose { term } => after_event(closed, MatuiEventView::Search(term)),
        EffectView::Recover { key } => (a, seq![ActionView::Recover { key }]),
    }
}

/// The application after a key that no popup took, and the actions: the
/// space bar opens the list of rooms, `q` ends the application, `?` opens
/// the help and `/` the search; every other key goes to the chat.
pub open spec fn global_key(a: AppView, key: KeyEvent, timed_out: bool, date: Seq<char>) -> (
    AppView,
    Seq<ActionView>,
) {
    match key.code {
        KeyCode::Char(' ') => (
            AppView {
                popup: Some(
                    PopupView::Rooms(
                        rooms_start(
                            a.cache,
                            match a.chat {
                                Some(c) => Some(c.room_id),
                                None => None,
                            },
                        ),
                    ),
                ),
                ..a
            },
            Seq::empty(),
        ),
        KeyCode::Char('q') => (AppView { running: false, ..a }, Seq::empty()),
        KeyCode::Char('?') => (AppView { popup: Some(PopupView::Help), ..a }, Seq::empty()),
        KeyCode::Char('/') => (
            AppView { popup: Some(PopupView::Search(search_start())), ..a },
            Seq::empty(),
        ),
        _ => match a.chat {
            Some(c) => {
                let (c1, _consumed, commands) = after_key(c, key, timed_out, date);
                routed(AppView { chat: Some(c1), ..a }, c.room_id, commands, commands.len())
            },
            None => (a, Seq::empty()),
        },
    }
}

/// The application after a key, and the actions. Control and `c` end the
/// application. Any other key counts as a sign that the window has the
/// focus; it goes to the popup first, and on where the popup does not take
/// it.
pub open spec fn after_key_event(a: AppView, key: KeyEvent, timed_out: bool, date: Seq<char>) -> (
    AppView,
    Seq<ActionView>,
) {
    if key.modifiers == Modifiers::Control && key.code == KeyCode::Char('c') {
        (AppView { running: false, ..a }, Seq::empty())
    } else {
        let (a1, first) = focused(a);
        match a1.popup {
            Some(p) => {
                let a2 = AppView { popup: Some(popup_after(p, key)), ..a1 };
                match popup_result(p, key) {
                    EventResultView::Consumed(effect) => {
                        let (a3, more) = effected(a2, effect);
                        (a3, first + more)
                    },
                    EventResultView::Ignored => {
                        let (a3, more) = global_key(a2, key, timed_out, date);
                        (a3, first + more)
                    },
                }
            },
            None => {
                let (a3, more) = global_key(a1, key, timed_out, date);
                (a3, first + more)
            },
        }
    }
}

impl App {
    /// The popup and the chat are sound.
    pub closed spec fn wf(&self) -> bool {
        &&& self.popup matches Some(p) ==> p.wf()
        &&& self.chat matches Some(c) ==> c.wf()
    }

    /// The application as it starts: running, without popup and chat.
    pub fn new(settings: Settings) -> (app: App)
        ensures
            app.wf(),
            app@ == (AppView {
                running: true,
                timestamp: 0,
                popup: None,
                chat: None,
                cache: Seq::empty(),
                notify: NotifyView { focus: false, room_id: None, rooms: Seq::empty() },
                settings: settings@,
                blur: BlurTimerView { issued: 0, current: 0 },
                me: Seq::empty(),
                sas: false,
                receipts: Seq::empty(),
            }),
    {
        App {
            running: true,
            timestamp: 0,
            popup: None,
            chat: None,
            cache: RoomCache::new(),
            notify: Notify::new(),
            settings,
            blur: BlurTimer::new(),
            me: String::new(),
            sas: false,
            receipts: Vec::new(),
        }
    }

    /// The user of the application is known.
    pub fn set_me(&mut self, me: String)
        requires
            old(self).wf(),
        ensures
            final(self).wf(),
            final(self)@ == (AppView { me: me@, ..old(self)@ }),
    {
        self.me = me;
    }

    /// The settings were read anew.
    pub fn set_settings(&mut self, settings: Settings)
        requires
            old(self).wf(),
        ensures
            final(self).wf(),
            final(self)@ == (AppView { settings: settings@, ..old(self)@ }),
    {
        self.settings = settings;
    }

    /// The settings as they are, with what was changed while the
    /// application runs.
    pub fn settings(&self) -> (settings: &Settings)
        ensures
            settings@ == self@.settings,
    {
        &self.settings
    }

    /// The configuration was read anew: it takes the place of the old one,
    /// and what was changed while the application runs stays.
    pub fn reload_settings(&mut self, fresh: Settings)
        requires
            old(self).wf(),
        ensures
            final(self).wf(),
            final(self)@ == (AppView {
                settings: SettingsView { overrides: old(self)@.settings.overrides, ..fresh@ },
                ..old(self)@
            }),
    {
        let mut fresh = fresh;
        std::mem::swap(&mut fresh.overrides, &mut self.settings.overrides);
        self.settings = fresh;
    }

    /// The screen gives the chat `width` columns and `page` lines, and the
    /// text fields of the popup `fields` columns each.
    pub fn set_size(&mut self, width: usize, page: usize, fields: usize)
        requires
            old(self).wf(),
        ensures
            final(self).wf(),
            final(self)@ == (AppView {
                chat: match old(self)@.chat {
                    Some(c) => Some(
                        crate::chat::rebuilt(ChatView { width: width as nat, page: page as nat, ..c }),
                    ),
                    None => None,
                },
                popup: match old(self)@.popup {
                    Some(p) => Some(popup_adjusted(p, fields as nat)),
                    None => None,
                },
                ..old(self)@
            }),
    {
        if let Some(c) = &mut self.chat {
            c.set_size(width, page);
        }
        if let Some(p) = &mut self.popup {
            p.adjust_window(fields);
        }
    }

    /// The user has looked at a room: see `room_visited`.
    pub fn room_visit_event(&mut self, room_id: &String) -> (actions: Vec<Action>)
        requires
            old(self).wf(),
        ensures
            final(self).wf(),
            final(self)@ == room_visited(old(self)@, room_id@).0,
            views(actions@) == room_visited(old(self)@, room_id@).1,
    {
        let mut actions: Vec<Action> = Vec::new();
        self.visit(room_id, &mut actions);
        actions
    }

    /// The rooms were read.
    pub fn rooms_populated(&mut self, rooms: Vec<DecoratedRoom>)
        requires
            old(self).wf(),
        ensures
            final(self).wf(),
            final(self)@ == (AppView { cache: views(rooms@), ..old(self)@ }),
    {
        self.cache.populate(rooms);
    }

    /// This is how a room is now, after something happened in it.
    pub fn room_refreshed(&mut self, room: DecoratedRoom)
        requires
            old(self).wf(),
        ensures
            final(self).wf(),
            final(self)@ == (AppView { cache: refreshed(old(self)@.cache, room@), ..old(self)@ }),
    {
        self.cache.timeline_event(room);
    }

    /// A notification for a room was shown under a handle.
    pub fn notification_shown(&mut self, room_id: String, handle: u32)
        requires
            old(self).wf(),
        ensures
            final(self).wf(),
            final(self)@ == (AppView {
                notify: NotifyView {
                    rooms: old(self)@.notify.rooms.filter(elsewhere(room_id@)).push(
                        crate::notify::OutstandingView { room_id: room_id@, handle },
                    ),
                    ..old(self)@.notify
                },
                ..old(self)@
            }),
    {
        self.notify.shown(room_id, handle);
    }

    /// Whether the timer that was set under `key` makes the window count
    /// as left alone.
    pub fn blur_timer_fired(&self, key: u64) -> (blur: bool)
        ensures
            blur == timer_fires(self@.blur, key),
    {
        self.blur.fires(key)
    }

    pub fn popup(&self) -> (p: Option<&Popup>)
        ensures
            match p {
                Some(x) => self@.popup == Some(x@),
                None => self@.popup is None,
            },
    {
        match &self.popup {
            Some(p) => Some(p),
            None => None,
        }
    }

    pub fn chat(&self) -> (c: Option<&Chat>)
        ensures
            match c {
                Some(x) => self@.chat == Some(x@) && x.wf() == self.wf_chat() && (self.wf() ==> x.wf()),
                None => self@.chat is None,
            },
    {
        match &self.chat {
            Some(c) => Some(c),
            None => None,
        }
    }

    /// Whether the chat is sound.
    pub closed spec fn wf_chat(&self) -> bool {
        self.chat matches Some(c) && c.wf()
    }

    /// The chat of a sound application keeps to what `chat_ok` says, so
    /// what holds of every such chat holds of it.
    pub proof fn lemma_wf(&self)
        requires
            self.wf(),
        ensures
            self@.chat is Some ==> self.wf_chat(),
            self@.chat matches Some(c) ==> chat_ok(c) && rows_ok(c.rows) && selectable(
                c.rows,
                c.selection,
            ) && c.rows.len() <= usize::MAX,
    {
        match self.chat {
            Some(c) => {
                c.lemma_wf();
            },
            None => {},
        }
    }

    /// The rooms, in the order of the cache.
    pub fn fetch_rooms(&self) -> (rooms: Vec<DecoratedRoom>)
        ensures
            views(rooms@) == self@.cache,
    {
        self.cache.get_rooms()
    }

    pub fn set_popup(&mut self, popup: Popup)
        requires
            old(self).wf(),
            popup.wf(),
        ensures
            final(self).wf(),
            final(self)@ == (AppView { popup: Some(popup@), ..old(self)@ }),
    {
        self.popup = Some(popup);
    }

    pub fn close_popup(&mut self)
        requires
            old(self).wf(),
        ensures
            final(self).wf(),
            final(self)@ == (AppView { popup: None, ..old(self)@ }),
    {
        self.popup = None;
    }

    /// The user has looked at a room: see `room_visited`.
    fn visit(&mut self, room_id: &String, actions: &mut Vec<Action>)
        requires
            old(self).wf(),
        ensures
            final(self).wf(),
            final(self)@ == room_visited(old(self)@, room_id@).0,
            views(final(actions)@) == views(old(actions)@) + room_visited(old(self)@, room_id@).1,
    {
        if let Some(handle) = self.notify.room_visit_event(room_id) {
            actions.push(Action::CloseNotification { handle });
        }
        self.cache.room_visit_event(room_id.as_str());
    }

    /// Enters a room: see `entered`.
    pub fn select_room(&mut self, room_id: &String, actions: &mut Vec<Action>)
        requires
            old(self).wf(),
        ensures
            final(self).wf(),
            final(self)@ == entered(old(self)@, room_id@).0,
            views(final(actions)@) == views(old(actions)@) + entered(old(self)@, room_id@).1,
    {
        if let Some(c) = &self.chat {
            if crate::text::same_text(c.room(), room_id.as_str()) {
                return ;
            }
        }
        let room = match self.cache.wrap(room_id.as_str()) {
            Some(r) => r,
            None => {
                return ;
            },
        };
        let config = ChatConfig {
            max_events: max_events(&self.settings),
            muted: is_muted(&self.settings, room.room_id.as_str()),
            reactions: reactions(&self.settings),
        };
        let ghost fresh = entered_chat(
            room@.room_id,
            room@.name,
            self@.me,
            self@.settings.max_events as int,
            muted(self@.settings, room@.room_id),
            self@.settings.reactions,
        );
        let (mut chat, mut commands) = Chat::try_new(
            room.room_id.clone(),
            room.name.clone(),
            self.me.clone(),
            config,
        );
        let ghost kept = self@.receipts;
        let ghost first = views(commands@);
        let n: usize = self.receipts.len();
        let mut i: usize = 0;
        while i < n
            invariant
                i <= n,
                n == self.receipts.len(),
                kept == views(self.receipts@),
                chat.wf(),
                chat@ == caught_up(fresh, kept, i as nat).0,
                views(commands@) == first + caught_up(fresh, kept, i as nat).1,
            decreases n - i,
        {
            let r = &self.receipts[i];
            assert(kept[i as int] == r@);
            let mut more = chat.receipt_event(r.room_id.as_str(), &r.entries);
            commands.append(&mut more);
            i += 1;
        }
        push_commands_of(actions, room.room_id.as_str(), commands);
        self.chat = Some(chat);
        self.visit(room_id, actions);
    }

    /// Sees to the commands of the chat: see `routed`.
    fn route(&mut self, room_id: &str, commands: Vec<Command>, actions: &mut Vec<Action>)
        requires
            old(self).wf(),
        ensures
            final(self).wf(),
            final(self)@ == routed(old(self)@, room_id@, views(commands@), commands@.len()).0,
            views(final(actions)@) == views(old(actions)@) + routed(
                old(self)@,
                room_id@,
                views(commands@),
                commands@.len(),
            ).1,
    {
        let ghost given = views(commands@);
        let ghost a0 = self@;
        let ghost before = views(actions@);
        for command in it: commands
            invariant
                given == views(it.seq()),
                self.wf(),
                self@ == routed(a0, room_id@, given, it.index() as nat).0,
                views(actions@) == before + routed(a0, room_id@, given, it.index() as nat).1,
        {
            proof {
                assert(given[it.index() as int] == command@);
            }
            match command {
                Command::ConfirmDelete { question, event_id } => {
                    self.popup = Some(
                        Popup::Confirm(
                            Confirm::new(
                                String::from_str("Delete Message"),
                                question,
                                String::from_str("Yes"),
                                String::from_str("No"),
                                ConfirmBehavior::DeleteMessage {
                                    room_id: String::from_str(room_id),
                                    event_id,
                                },
                            ),
                        ),
                    );
                },
                Command::SetMuted { muted } => {
                    set_muted(&mut self.settings, room_id, muted);
                },
                other => {
                    actions.push(Action::Chat { room_id: String::from_str(room_id), command: other });
                },
            }
        }
    }
}

/// Hands the commands of the chat of a room on as actions.
fn push_commands_of(actions: &mut Vec<Action>, room_id: &str, commands: Vec<Command>)
    ensures
        views(final(actions)@) == views(old(actions)@) + for_room(room_id@, views(commands@)),
{
    crate::handler::push_commands(actions, room_id, commands);
}

impl App {
    /// An event of the timeline came in.
    fn on_timeline(&mut self, event: TimelineEvent, actions: &mut Vec<Action>)
        requires
            old(self).wf(),
            old(actions)@.len() == 0,
        ensures
            final(self).wf(),
            final(self)@ == after_event(old(self)@, MatuiEventView::Timeline(event@)).0,
            views(final(actions)@) == after_event(old(self)@, MatuiEventView::Timeline(event@)).1,
    {
        let notice = self.notify.timeline_event(
            &event,
            self.me.as_str(),
            is_muted(&self.settings, event.room_id.as_str()),
        );
        let room_id = event.room_id.clone();
        if let Some(c) = &mut self.chat {
            let ghost c0 = c@;
            let commands = c.timeline_event(event);
            proof {
                crate::chat::lemma_events_keep_room(c0);
            }
            push_commands_of(actions, c.room(), commands);
        }
        actions.push(Action::RefreshRoom { room_id });
        if let Some(n) = notice {
            actions.push(Action::Notify(n));
        }
        assert(views(actions@) =~= after_event(old(self)@, MatuiEventView::Timeline(event@)).1);
    }

    /// A page of older events came in.
    fn on_batch(&mut self, batch: Batch, actions: &mut Vec<Action>)
        requires
            old(self).wf(),
            old(actions)@.len() == 0,
        ensures
            final(self).wf(),
            final(self)@ == after_event(old(self)@, MatuiEventView::TimelineBatch(batch@)).0,
            views(final(actions)@) == after_event(old(self)@, MatuiEventView::TimelineBatch(batch@)).1,
    {
        if let Some(c) = &mut self.chat {
            let ghost c0 = c@;
            let commands = c.batch_event(batch.room_id.as_str(), batch.events, batch.cursor);
            proof {
                crate::chat::lemma_events_keep_room(c0);
            }
            push_commands_of(actions, c.room(), commands);
        }
        assert(views(actions@) =~= after_event(old(self)@, MatuiEventView::TimelineBatch(batch@)).1);
    }

    /// A receipt event came in.
    fn on_receipt(&mut self, room_id: String, entries: Vec<ReadReceipt>, actions: &mut Vec<Action>)
        requires
            old(self).wf(),
            old(actions)@.len() == 0,
        ensures
            final(self).wf(),
            final(self)@ == after_event(
                old(self)@,
                MatuiEventView::Receipt(room_id@, views(entries@)),
            ).0,
            views(final(actions)@) == after_event(
                old(self)@,
                MatuiEventView::Receipt(room_id@, views(entries@)),
            ).1,
    {
        if let Some(c) = &mut self.chat {
            let ghost c0 = c@;
            let commands = c.receipt_event(room_id.as_str(), &entries);
            proof {
                crate::chat::lemma_events_keep_room(c0);
            }
            push_commands_of(actions, c.room(), commands);
        }
        self.receipts.push(RoomReceipts { room_id, entries });
        if self.receipts.len() > 500 {
            self.receipts.remove(0);
        }
        assert(views(actions@) =~= after_event(
            old(self)@,
            MatuiEventView::Receipt(room_id@, views(entries@)),
        ).1);
    }

    /// A search term was set.
    fn on_search(&mut self, term: &str, actions: &mut Vec<Action>)
        requires
            old(self).wf(),
        ensures
            final(self).wf(),
            final(self)@ == after_event(old(self)@, MatuiEventView::Search(term@)).0,
            views(final(actions)@) == views(old(actions)@) + after_event(
                old(self)@,
                MatuiEventView::Search(term@),
            ).1,
    {
        if let Some(c) = &mut self.chat {
            let ghost c0 = c@;
            let commands = c.search_event(term);
            proof {
                crate::chat::lemma_events_keep_room(c0);
            }
            push_commands_of(actions, c.room(), commands);
        }
    }

    /// The sync is complete: the sync that runs for good starts, and the
    /// first room of the list is entered.
    fn on_sync_complete(&mut self, actions: &mut Vec<Action>)
        requires
            old(self).wf(),
            old(actions)@.len() == 0,
        ensures
            final(self).wf(),
            final(self)@ == after_event(old(self)@, MatuiEventView::SyncComplete).0,
            views(final(actions)@) == after_event(old(self)@, MatuiEventView::SyncComplete).1,
    {
        self.popup = None;
        actions.push(Action::Sync);
        let mut rooms = self.cache.get_rooms();
        crate::roomcache::sort_rooms(&mut rooms);
        if rooms.len() > 0 {
            let first = rooms[0].room_id.clone();
            self.select_room(&first, actions);
        }
        assert(views(actions@) =~= after_event(old(self)@, MatuiEventView::SyncComplete).1);
    }

    /// The emojis of a verification are there.
    fn on_verification(&mut self, emojis: Vec<String>)
        requires
            old(self).wf(),
        ensures
            final(self).wf(),
            final(self)@ == after_event(
                old(self)@,
                MatuiEventView::VerificationStarted(views(emojis@)),
            ).0,
    {
        self.sas = true;
        let mut message = String::from_str("Do these emojis match your other session?\n\n");
        let line = format_emojis(&emojis);
        message.append(line.as_str());
        self.popup = Some(
            Popup::Confirm(
                Confirm::new(
                    String::from_str("Verify"),
                    message,
                    String::from_str("Yes"),
                    String::from_str("No"),
                    ConfirmBehavior::Verification,
                ),
            ),
        );
    }

    /// An event came in: see `after_event`.
    #[verifier::rlimit(50)]
    pub fn event(&mut self, event: MatuiEvent) -> (actions: Vec<Action>)
        requires
            old(self).wf(),
        ensures
            final(self).wf(),
            final(self)@ == after_event(old(self)@, event@).0,
            views(actions@) == after_event(old(self)@, event@).1,
    {
        let mut actions: Vec<Action> = Vec::new();
        match event {
            MatuiEvent::Confirm(heading, message) => {
                self.popup = Some(Popup::Error(Error::with_heading(heading, message)));
            },
            MatuiEvent::Error(message) => {
                self.popup = Some(Popup::Error(Error::new(message)));
            },
            MatuiEvent::LoginRequired => {
                self.popup = Some(Popup::Signin(Signin::new()));
            },
            MatuiEvent::LoginStarted => {
                self.popup = Some(Popup::Progress(Progress::new("Logging in", 0)));
            },
            MatuiEvent::LoginComplete => {
                self.popup = None;
            },
            MatuiEvent::ProgressStarted(text, delay) => {
                self.popup = Some(Popup::Progress(Progress::new(text.as_str(), delay)));
            },
            MatuiEvent::ProgressComplete => {
                self.popup = None;
            },
            MatuiEvent::RoomMember(room_id, member) => {
                if let Some(c) = &mut self.chat {
                    c.room_member_event(room_id.as_str(), member);
                }
            },
            MatuiEvent::RoomSelected(room_id) => {
                self.select_room(&room_id, &mut actions);
            },
            MatuiEvent::SyncStarted(t) => {
                let text = match t {
                    SyncType::Initial => "Performing initial sync.",
                    SyncType::Latest => "Syncing",
                };
                self.popup = Some(Popup::Progress(Progress::new(text, 0)));
            },
            MatuiEvent::SyncComplete => {
                self.on_sync_complete(&mut actions);
            },
            MatuiEvent::Timeline(e) => {
                self.on_timeline(e, &mut actions);
            },
            MatuiEvent::TimelineBatch(batch) => {
                self.on_batch(batch, &mut actions);
            },
            MatuiEvent::Typing(room_id, ids) => {
                if let Some(c) = &mut self.chat {
                    c.typing_event(room_id.as_str(), &ids);
                }
            },
            MatuiEvent::Receipt(room_id, entries) => {
                self.on_receipt(room_id, entries, &mut actions);
            },
            MatuiEvent::VerificationStarted(emojis) => {
                self.on_verification(emojis);
            },
            MatuiEvent::VerificationCompleted => {
                self.popup = None;
                self.sas = false;
            },
            MatuiEvent::Search(term) => {
                self.on_search(term.as_str(), &mut actions);
            },
            MatuiEvent::Recover(key) => {
                actions.push(Action::Recover { key });
            },
        }
        assert(views(actions@) =~= after_event(old(self)@, event@).1);
        actions
    }

    /// The window got the focus: see `focused`.
    pub fn focus(&mut self) -> (actions: Vec<Action>)
        requires
            old(self).wf(),
        ensures
            final(self).wf(),
            final(self)@ == focused(old(self)@).0,
            views(actions@) == focused(old(self)@).1,
    {
        let mut actions: Vec<Action> = Vec::new();
        self.notify.focus_event();
        if let Some((key, seconds)) = self.blur.focus_event(blur_delay(&self.settings)) {
            actions.push(Action::SetBlurTimer { timer: key, seconds });
        }
        let room_id = match &self.chat {
            Some(c) => String::from_str(c.room()),
            None => {
                return actions;
            },
        };
        self.visit(&room_id, &mut actions);
        if let Some(c) = &mut self.chat {
            let commands = c.focus_event();
            push_commands_of(&mut actions, room_id.as_str(), commands);
        }
        assert(views(actions@) =~= focused(old(self)@).1);
        actions
    }

    /// The window lost the focus: see `blurred`.
    pub fn blur(&mut self)
        requires
            old(self).wf(),
        ensures
            final(self).wf(),
            final(self)@ == blurred(old(self)@),
    {
        self.blur.blur_event();
        self.notify.blur_event();
        if let Some(c) = &mut self.chat {
            c.blur_event();
        }
    }

    /// A tick has passed: see `ticked`.
    pub fn tick(&mut self) -> (actions: Vec<Action>)
        requires
            old(self).wf(),
        ensures
            final(self).wf(),
            final(self)@ == ticked(old(self)@).0,
            views(actions@) == ticked(old(self)@).1,
    {
        let mut actions: Vec<Action> = Vec::new();
        if self.timestamp == 0 {
            self.timestamp = 1;
            actions.push(Action::Init);
            return actions;
        }
        if let Some(p) = &mut self.popup {
            p.tick_event(self.timestamp);
        }
        if self.timestamp < usize::MAX {
            self.timestamp += 1;
        }
        actions
    }

    /// Does what a popup asked for: see `effected`.
    #[verifier::rlimit(50)]
    fn apply(&mut self, effect: Effect, actions: &mut Vec<Action>)
        requires
            old(self).wf(),
        ensures
            final(self).wf(),
            final(self)@ == effected(old(self)@, effect@).0,
            views(final(actions)@) == views(old(actions)@) + effected(old(self)@, effect@).1,
    {
        match effect {
            Effect::Nothing => {},
            Effect::ClosePopup => {
                self.popup = None;
            },
            Effect::SelectRoom { room_id } => {
                self.popup = None;
                self.select_room(&room_id, actions);
            },
            Effect::ConfirmVerification => {
                if self.sas {
                    self.popup = None;
                    actions.push(Action::ConfirmVerification);
                }
            },
            Effect::MismatchedVerification => {
                if self.sas {
                    self.popup = None;
                    actions.push(Action::MismatchedVerification);
                }
            },
            Effect::RedactEvent { room_id, event_id } => {
                self.popup = None;
                actions.push(Action::RedactEvent { room_id, event_id });
            },
            Effect::Login { id, password } => {
                actions.push(Action::Login { id, password });
            },
            Effect::Search { term } => {
                self.on_search(term.as_str(), actions);
            },
            Effect::SearchAndClose { term } => {
                self.popup = None;
                self.on_search(term.as_str(), actions);
            },
            Effect::Recover { key } => {
                actions.push(Action::Recover { key });
            },
        }
        assert(views(actions@) =~= views(old(actions)@) + effected(old(self)@, effect@).1);
    }

    /// A key that no popup took: see `global_key`.
    fn global(&mut self, key: &KeyEvent, timed_out: bool, date: &str, actions: &mut Vec<Action>)
        requires
            old(self).wf(),
        ensures
            final(self).wf(),
            final(self)@ == global_key(old(self)@, *key, timed_out, date@).0,
            views(final(actions)@) == views(old(actions)@) + global_key(
                old(self)@,
                *key,
                timed_out,
                date@,
            ).1,
    {
        let ghost a0 = self@;
        let ghost before = views(actions@);
        match key.code {
            KeyCode::Char(' ') => {
                let rooms = self.cache.get_rooms();
                let popup = match &self.chat {
                    Some(c) => Rooms::new(rooms, Some(c.room())),
                    None => Rooms::new(rooms, None),
                };
                self.popup = Some(Popup::Rooms(popup));
                assert(self@ == global_key(a0, *key, timed_out, date@).0);
                assert(views(actions@) == before + global_key(a0, *key, timed_out, date@).1);
            },
            KeyCode::Char('q') => {
                self.running = false;
                assert(self@ == global_key(a0, *key, timed_out, date@).0);
                assert(views(actions@) == before + global_key(a0, *key, timed_out, date@).1);
            },
            KeyCode::Char('?') => {
                self.popup = Some(Popup::Help(Help));
                assert(self@ == global_key(a0, *key, timed_out, date@).0);
                assert(views(actions@) == before + global_key(a0, *key, timed_out, date@).1);
            },
            KeyCode::Char('/') => {
                self.popup = Some(Popup::Search(Search::new()));
                assert(self@ == global_key(a0, *key, timed_out, date@).0);
                assert(views(actions@) == before + global_key(a0, *key, timed_out, date@).1);
            },
            _ => {
                let (room_id, outcome) = match &mut self.chat {
                    Some(c) => {
                        let outcome = c.key_event_with(key, timed_out, date);
                        (String::from_str(c.room()), outcome)
                    },
                    None => {
                        assert(self@ == global_key(a0, *key, timed_out, date@).0);
                        assert(views(actions@) == before + global_key(a0, *key, timed_out, date@).1);
                        return ;
                    },
                };
                let ghost c0 = a0.chat->0;
                let ghost c1 = self@.chat->0;
                let ghost commands = views(outcome.commands@);
                let ghost consumed = outcome.consumed;
                proof {
                    let t = timed_out;
                    let d = date@;
                    assert((c1, consumed, commands) == after_key(c0, *key, t, d));
                    assert(room_id@ == c0.room_id) by {
                        lemma_key_keeps_room(c0, *key, t, d);
                    }
                    assert(global_key(a0, *key, t, d) == routed(
                        AppView { chat: Some(c1), ..a0 },
                        c0.room_id,
                        commands,
                        commands.len(),
                    ));
                }
                self.route(room_id.as_str(), outcome.commands, actions);
            },
        }
    }

    /// A key was pressed after a pause that was too long for `dd` or not:
    /// see `after_key_event`. `date` is the time of the message selected
    /// in the chat as it is to be written.
    pub fn key_with(&mut self, key: KeyEvent, timed_out: bool, date: &str) -> (actions: Vec<Action>)
        requires
            old(self).wf(),
        ensures
            final(self).wf(),
            final(self)@ == after_key_event(old(self)@, key, timed_out, date@).0,
            views(actions@) == after_key_event(old(self)@, key, timed_out, date@).1,
    {
        if let Modifiers::Control = key.modifiers {
            if key.is_char('c') {
                self.running = false;
                return Vec::new();
            }
        }
        let mut actions = self.focus();
        let result = match &mut self.popup {
            Some(p) => p.key_event(&key),
            None => EventResult::Ignored,
        };
        match result {
            EventResult::Consumed(effect) => {
                self.apply(effect, &mut actions);
            },
            EventResult::Ignored => {
                self.global(&key, timed_out, date, &mut actions);
            },
        }
        actions
    }

    /// The time since the last key that counted for `dd`, in nanoseconds,
    /// by the clock; zero without a chat.
    pub(crate) fn pause(&self) -> (elapsed_nanos: u128)
        ensures
            self@.chat is None ==> elapsed_nanos == 0,
    {
        match &self.chat {
            Some(c) => c.pause(),
            None => 0,
        }
    }

    /// Whether a pause of `elapsed_nanos` nanoseconds before a key is too
    /// long for `dd`: longer than half a second.
    pub fn pause_exceeds(&self, elapsed_nanos: u128) -> (late: bool)
        ensures
            late == too_long(elapsed_nanos),
    {
        elapsed_nanos > 500_000_000
    }

    /// The time of the message selected in the chat as the machine writes
    /// it; empty where none is selected.
    pub(crate) fn selected_date(&self) -> (date: String)
        requires
            self.wf(),
        ensures
            match self@.chat {
                Some(c) => selected_message(c) is None ==> date@ == Seq::<char>::empty(),
                None => date@ == Seq::<char>::empty(),
            },
    {
        match &self.chat {
            Some(c) => c.selected_date(),
            None => String::new(),
        }
    }

    /// A key was pressed: see `after_key_event`. The pause before it is
    /// read off the clock, and the time of a message is written as the
    /// machine writes it; `pause_exceeds` and `key_with` do the rest.
    pub fn key(&mut self, key: KeyEvent) -> (actions: Vec<Action>)
        requires
            old(self).wf(),
        ensures
            final(self).wf(),
            exists|elapsed_nanos: u128, date: Seq<char>|
                final(self)@ == (#[trigger] after_key_event(
                    old(self)@,
                    key,
                    too_long(elapsed_nanos),
                    date,
                )).0 && views(actions@) == after_key_event(
                    old(self)@,
                    key,
                    too_long(elapsed_nanos),
                    date,
                ).1,
    {
        let elapsed_nanos = self.pause();
        let timed_out = self.pause_exceeds(elapsed_nanos);
        let date = self.selected_date();
        let actions = self.key_with(key, timed_out, date.as_str());
        assert(self@ == after_key_event(old(self)@, key, too_long(elapsed_nanos), date@).0);
        actions
    }
}

/// The popup that asks whether a message is to be deleted.
pub open spec fn delete_popup(room_id: Seq<char>, m: MessageView) -> PopupView {
    PopupView::Confirm(
        ConfirmView {
            title: "Delete Message"@,
            message: delete_question(m),
            yes: ButtonView { label: "Yes"@, focused: true },
            no: ButtonView { label: "No"@, focused: false },
            behavior: ConfirmBehaviorView::DeleteMessage { room_id, event_id: m.id },
        },
    )
}

/// `dd`, typed without a pause on a selected message, opens the popup that
/// asks, with the focus on "Yes", and sends nothing. In that popup Enter
/// on "Yes" closes it and asks the server to delete the message; Enter on
/// "No" closes it and asks for nothing.
pub proof fn lemma_dd_confirms(a: AppView, key: KeyEvent, enter: KeyEvent, date: Seq<char>)
    requires
        a.chat matches Some(c) && c.react is None && c.combo == 1 && selected_message(c) is Some,
        plain_d(key),
        enter.code == KeyCode::Enter,
    ensures
        ({
            let c = a.chat->0;
            let m = selected_message(c)->0;
            let asked = delete_popup(c.room_id, m);
            let refused = PopupView::Confirm(
                ConfirmView {
                    yes: ButtonView { label: "Yes"@, focused: false },
                    no: ButtonView { label: "No"@, focused: true },
                    ..asked->Confirm_0
                },
            );
            &&& global_key(a, key, false, date) == (
                AppView { chat: Some(ChatView { combo: 0, ..c }), popup: Some(asked), ..a },
                Seq::<ActionView>::empty(),
            )
            &&& popup_result(asked, enter) == EventResultView::Consumed(
                EffectView::RedactEvent { room_id: c.room_id, event_id: m.id },
            )
            &&& effected(a, EffectView::RedactEvent { room_id: c.room_id, event_id: m.id }) == (
                AppView { popup: None, ..a },
                seq![ActionView::RedactEvent { room_id: c.room_id, event_id: m.id }],
            )
            &&& popup_result(refused, enter) == EventResultView::Consumed(EffectView::ClosePopup)
            &&& effected(a, EffectView::ClosePopup) == (AppView { popup: None, ..a }, Seq::<ActionView>::empty())
        }),
{
    let c = a.chat->0;
    lemma_dd_asks(c, key, date);
    reveal_with_fuel(routed, 2);
}

/// No key makes a chat the chat of another room.
pub proof fn lemma_key_keeps_room(c: ChatView, key: KeyEvent, timed_out: bool, date: Seq<char>)
    ensures
        after_key(c, key, timed_out, date).0.room_id == c.room_id,
{
    let after = after_key(c, key, timed_out, date).0;
    match crate::chat::react_key(c, key) {
        Some(_) => {},
        None => {
            if crate::chat::counts(key) {
                let c1 = ChatView {
                    combo: crate::keycombo::step(seq!['d', 'd'], c.combo, key.code->Char_0, timed_out).1,
                    ..c
                };
                lemma_plain_keeps_room(c1, key, date);
            } else {
                lemma_plain_keeps_room(c, key, date);
            }
        },
    }
}

proof fn lemma_plain_keeps_room(c: ChatView, key: KeyEvent, date: Seq<char>)
    ensures
        crate::chat::plain_key(c, key, date).0.room_id == c.room_id,
{
}

} // verus!
