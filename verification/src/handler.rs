//! The events that reach the application, and what the application asks
//! for in return.

use crate::app::{after_event, after_key_event, blurred, focused, App};
use crate::chat::{too_long, Command, CommandView};
use crate::event::TimelineEvent;
use crate::key::KeyEvent;
use crate::matrix::SyncType;
use crate::notify::{Notice, NoticeView};
use crate::receipts::{ReadReceipt, ReceiptView};
use crate::username::{opt_text, Member, MemberView};
use crate::views::{group_views, views};
use vstd::prelude::*;

verus! {

broadcast use group_views;

/// A page of older events of a room.
pub struct Batch {
    pub room_id: String,
    pub events: Vec<TimelineEvent>,
    /// Where the next page starts, if there is one.
    pub cursor: Option<String>,
}

pub struct BatchView {
    pub room_id: Seq<char>,
    pub events: Seq<crate::event::EventView>,
    pub cursor: Option<Seq<char>>,
}

impl View for Batch {
    type V = BatchView;

    open spec fn view(&self) -> BatchView {
        BatchView { room_id: self.room_id@, events: views(self.events@), cursor: opt_text(self.cursor) }
    }
}

/// What the Matrix side and the popups tell the application.
pub enum MatuiEvent {
    /// Something to tell the user, under a heading.
    Confirm(String, String),
    Error(String),
    LoginComplete,
    LoginRequired,
    LoginStarted,
    /// Work has started; it is mentioned once it has lasted so many
    /// milliseconds.
    ProgressStarted(String, u64),
    ProgressComplete,
    Receipt(String, Vec<ReadReceipt>),
    RoomMember(String, Member),
    RoomSelected(String),
    SyncComplete,
    SyncStarted(SyncType),
    Timeline(TimelineEvent),
    TimelineBatch(Batch),
    Typing(String, Vec<String>),
    /// The emojis of a verification are there to be compared.
    VerificationStarted(Vec<String>),
    VerificationCompleted,
    Search(String),
    Recover(String),
}

pub enum MatuiEventView {
    Confirm(Seq<char>, Seq<char>),
    Error(Seq<char>),
    LoginComplete,
    LoginRequired,
    LoginStarted,
    ProgressStarted(Seq<char>, u64),
    ProgressComplete,
    Receipt(Seq<char>, Seq<ReceiptView>),
    RoomMember(Seq<char>, MemberView),
    RoomSelected(Seq<char>),
    SyncComplete,
    SyncStarted(SyncType),
    Timeline(crate::event::EventView),
    TimelineBatch(BatchView),
    Typing(Seq<char>, Seq<Seq<char>>),
    VerificationStarted(Seq<Seq<char>>),
    VerificationCompleted,
    Search(Seq<char>),
    Recover(Seq<char>),
}

impl View for MatuiEvent {
    type V = MatuiEventView;

    open spec fn view(&self) -> MatuiEventView {
        match *self {
            MatuiEvent::Confirm(h, m) => MatuiEventView::Confirm(h@, m@),
            MatuiEvent::Error(m) => MatuiEventView::Error(m@),
            MatuiEvent::LoginComplete => MatuiEventView::LoginComplete,
            MatuiEvent::LoginRequired => MatuiEventView::LoginRequired,
            MatuiEvent::LoginStarted => MatuiEventView::LoginStarted,
            MatuiEvent::ProgressStarted(m, d) => MatuiEventView::ProgressStarted(m@, d),
            MatuiEvent::ProgressComplete => MatuiEventView::ProgressComplete,
            MatuiEvent::Receipt(r, entries) => MatuiEventView::Receipt(r@, views(entries@)),
            MatuiEvent::RoomMember(r, m) => MatuiEventView::RoomMember(r@, m@),
            MatuiEvent::RoomSelected(r) => MatuiEventView::RoomSelected(r@),
            MatuiEvent::SyncComplete => MatuiEventView::SyncComplete,
            MatuiEvent::SyncStarted(t) => MatuiEventView::SyncStarted(t),
            MatuiEvent::Timeline(e) => MatuiEventView::Timeline(e@),
            MatuiEvent::TimelineBatch(b) => MatuiEventView::TimelineBatch(b@),
            MatuiEvent::Typing(r, ids) => MatuiEventView::Typing(r@, views(ids@)),
            MatuiEvent::VerificationStarted(emojis) => MatuiEventView::VerificationStarted(
                views(emojis@),
            ),
            MatuiEvent::VerificationCompleted => MatuiEventView::VerificationCompleted,
            MatuiEvent::Search(t) => MatuiEventView::Search(t@),
            MatuiEvent::Recover(k) => MatuiEventView::Recover(k@),
        }
    }
}

/// What the application asks to be done.
pub enum Action {
    /// Bring the session up.
    Init,
    Login { id: String, password: String },
    /// Start the sync that runs for good.
    Sync,
    /// What the chat of a room asks for.
    Chat { room_id: String, command: Command },
    RedactEvent { room_id: String, event_id: String },
    ConfirmVerification,
    MismatchedVerification,
    Recover { key: String },
    /// Find out how the room is now, and tell the application.
    RefreshRoom { room_id: String },
    /// Show a notification, and tell the application under which handle.
    Notify(Notice),
    CloseNotification { handle: u32 },
    /// Say so under the key `timer` in so many seconds.
    SetBlurTimer { timer: u64, seconds: u64 },
}

pub enum ActionView {
    Init,
    Login { id: Seq<char>, password: Seq<char> },
    Sync,
    Chat { room_id: Seq<char>, command: CommandView },
    RedactEvent { room_id: Seq<char>, event_id: Seq<char> },
    ConfirmVerification,
    MismatchedVerification,
    Recover { key: Seq<char> },
    RefreshRoom { room_id: Seq<char> },
    Notify(NoticeView),
    CloseNotification { handle: u32 },
    SetBlurTimer { timer: u64, seconds: u64 },
}

impl View for Action {
    type V = ActionView;

    open spec fn view(&self) -> ActionView {
        match *self {
            Action::Init => ActionView::Init,
            Action::Login { id, password } => ActionView::Login { id: id@, password: password@ },
            Action::Sync => ActionView::Sync,
            Action::Chat { room_id, command } => ActionView::Chat { room_id: room_id@, command: command@ },
            Action::RedactEvent { room_id, event_id } => ActionView::RedactEvent {
                room_id: room_id@,
                event_id: event_id@,
            },
            Action::ConfirmVerification => ActionView::ConfirmVerification,
            Action::MismatchedVerification => ActionView::MismatchedVerification,
            Action::Recover { key } => ActionView::Recover { key: key@ },
            Action::RefreshRoom { room_id } => ActionView::RefreshRoom { room_id: room_id@ },
            Action::Notify(n) => ActionView::Notify(n@),
            Action::CloseNotification { handle } => ActionView::CloseNotification { handle },
            Action::SetBlurTimer { timer, seconds } => ActionView::SetBlurTimer { timer, seconds },
        }
    }
}

/// The commands of the chat of a room as actions of the application.
pub open spec fn for_room(room_id: Seq<char>, commands: Seq<CommandView>) -> Seq<ActionView> {
    Seq::new(commands.len(), |i: int| ActionView::Chat { room_id, command: commands[i] })
}

/// Hands the commands of the chat of a room on as actions.
pub fn push_commands(actions: &mut Vec<Action>, room_id: &str, commands: Vec<Command>)
    ensures
        views(final(actions)@) == views(old(actions)@) + for_room(room_id@, views(commands@)),
{
    let ghost given = views(commands@);
    let ghost before = views(actions@);
    for command in it: commands
        invariant
            given == views(it.seq()),
            views(actions@) == before + for_room(room_id@, given.take(it.index() as int)),
    {
        proof {
            let i = it.index() as int;
            assert(for_room(room_id@, given.take(i + 1)) =~= for_room(room_id@, given.take(i)).push(
                ActionView::Chat { room_id: room_id@, command: given[i] },
            ));
        }
        actions.push(Action::Chat { room_id: String::from_str(room_id), command });
    }
    assert(given.take(given.len() as int) == given);
}

/// An event came in: see `after_event`.
pub fn handle_app_event(event: MatuiEvent, app: &mut App) -> (actions: Vec<Action>)
    requires
        old(app).wf(),
    ensures
        final(app).wf(),
        final(app)@ == after_event(old(app)@, event@).0,
        views(actions@) == after_event(old(app)@, event@).1,
{
    app.event(event)
}

/// A key was pressed: see `after_key_event`.
pub fn handle_key_event(key_event: KeyEvent, app: &mut App) -> (actions: Vec<Action>)
    requires
        old(app).wf(),
    ensures
        final(app).wf(),
        exists|elapsed_nanos: u128, date: Seq<char>|
            final(app)@ == (#[trigger] after_key_event(
                old(app)@,
                key_event,
                too_long(elapsed_nanos),
                date,
            )).0 && views(actions@) == after_key_event(
                old(app)@,
                key_event,
                too_long(elapsed_nanos),
                date,
            ).1,
{
    app.key(key_event)
}

/// A key was pressed after a pause that was too long for `dd` or not: see
/// `after_key_event`. `date` is the time of the selected message as it is
/// to be written.
pub fn handle_key_event_with(key_event: KeyEvent, app: &mut App, timed_out: bool, date: &str) -> (actions:
    Vec<Action>)
    requires
        old(app).wf(),
    ensures
        final(app).wf(),
        final(app)@ == after_key_event(old(app)@, key_event, timed_out, date@).0,
        views(actions@) == after_key_event(old(app)@, key_event, timed_out, date@).1,
{
    app.key_with(key_event, timed_out, date)
}

/// The window got the focus: see `focused`.
pub fn handle_focus_event(app: &mut App) -> (actions: Vec<Action>)
    requires
        old(app).wf(),
    ensures
        final(app).wf(),
        final(app)@ == focused(old(app)@).0,
        views(actions@) == focused(old(app)@).1,
{
    app.focus()
}

/// The window lost the focus: see `blurred`.
pub fn handle_blur_event(app: &mut App)
    requires
        old(app).wf(),
    ensures
        final(app).wf(),
        final(app)@ == blurred(old(app)@),
{
    app.blur()
}

/// What reaches the application, one after the other.
pub enum Event {
    /// Time has passed.
    Tick,
    /// The screen is to be cleared and drawn anew.
    Redraw,
    /// The window has got the focus.
    Focus,
    /// The window has lost the focus.
    Blur,
    Key(KeyEvent),
    Matui(MatuiEvent),
}

pub enum EventView {
    Tick,
    Redraw,
    Focus,
    Blur,
    Key(KeyEvent),
    Matui(MatuiEventView),
}

impl View for Event {
    type V = EventView;

    open spec fn view(&self) -> EventView {
        match *self {
            Event::Tick => EventView::Tick,
            Event::Redraw => EventView::Redraw,
            Event::Focus => EventView::Focus,
            Event::Blur => EventView::Blur,
            Event::Key(k) => EventView::Key(k),
            Event::Matui(e) => EventView::Matui(e@),
        }
    }
}

/// What an event led to: the actions, and whether the screen is to be
/// cleared before it is drawn.
pub struct Dispatched {
    pub actions: Vec<Action>,
    pub clear: bool,
}

/// The application after an event, the actions, and whether the screen is
/// to be cleared.
pub open spec fn dispatched(a: crate::app::AppView, e: EventView, timed_out: bool, date: Seq<char>) -> (
    crate::app::AppView,
    Seq<ActionView>,
    bool,
) {
    match e {
        EventView::Tick => (crate::app::ticked(a).0, crate::app::ticked(a).1, false),
        EventView::Redraw => (a, Seq::empty(), true),
        EventView::Focus => (focused(a).0, focused(a).1, false),
        EventView::Blur => (blurred(a), Seq::empty(), false),
        EventView::Key(k) => (
            after_key_event(a, k, timed_out, date).0,
            after_key_event(a, k, timed_out, date).1,
            false,
        ),
        EventView::Matui(m) => (after_event(a, m).0, after_event(a, m).1, false),
    }
}

/// Hands an event to the application, a key after a pause that was too
/// long for `dd` or not: see `dispatched`. `date` is the time of the
/// selected message as it is to be written.
pub fn handle_event_with(event: Event, app: &mut App, timed_out: bool, date: &str) -> (out: Dispatched)
    requires
        old(app).wf(),
    ensures
        final(app).wf(),
        (final(app)@, views(out.actions@), out.clear) == dispatched(
            old(app)@,
            event@,
            timed_out,
            date@,
        ),
{
    match event {
        Event::Tick => {
            let actions = app.tick();
            Dispatched { actions, clear: false }
        },
        Event::Redraw => {
            let actions: Vec<Action> = Vec::new();
            Dispatched { actions, clear: true }
        },
        Event::Focus => {
            let actions = app.focus();
            Dispatched { actions, clear: false }
        },
        Event::Blur => {
            app.blur();
            let actions: Vec<Action> = Vec::new();
            Dispatched { actions, clear: false }
        },
        Event::Key(k) => {
            let actions = app.key_with(k, timed_out, date);
            Dispatched { actions, clear: false }
        },
        Event::Matui(m) => {
            let actions = app.event(m);
            Dispatched { actions, clear: false }
        },
    }
}

/// Hands an event to the application: see `dispatched`. For a key, the
/// pause before it and the time of the selected message are read off the
/// machine; `handle_event_with` does the rest.
pub fn handle_event(event: Event, app: &mut App) -> (out: Dispatched)
    requires
        old(app).wf(),
    ensures
        final(app).wf(),
        exists|elapsed_nanos: u128, date: Seq<char>|
            (final(app)@, views(out.actions@), out.clear) == #[trigger] dispatched(
                old(app)@,
                event@,
                too_long(elapsed_nanos),
                date,
            ),
{
    let (elapsed_nanos, date) = match &event {
        Event::Key(_) => (app.pause(), app.selected_date()),
        _ => (0, String::new()),
    };
    let timed_out = app.pause_exceeds(elapsed_nanos);
    let out = handle_event_with(event, app, timed_out, date.as_str());
    assert((app@, views(out.actions@), out.clear) == dispatched(
        old(app)@,
        event@,
        too_long(elapsed_nanos),
        date@,
    ));
    out
}

/// How long the thread that reads the terminal waits for an event: until
/// the next tick is due, and a full tick where the tick is overdue.
pub fn poll_timeout(tick_rate_ms: u64, since_tick_ms: u64) -> (wait_ms: u64)
    ensures
        wait_ms == if since_tick_ms <= tick_rate_ms {
            (tick_rate_ms - since_tick_ms) as u64
        } else {
            tick_rate_ms
        },
{
    if since_tick_ms <= tick_rate_ms {
        tick_rate_ms - since_tick_ms
    } else {
        tick_rate_ms
    }
}

/// Whether a tick is due.
pub fn tick_due(tick_rate_ms: u64, since_tick_ms: u64) -> (due: bool)
    ensures
        due == (since_tick_ms >= tick_rate_ms),
{
    since_tick_ms >= tick_rate_ms
}

/// Whether an event of the terminal is passed on: not in the quarter of a
/// second after the thread was woken from its park, when what the editor
/// left behind comes in.
pub fn passes_after_park(since_park_ms: u64) -> (passes: bool)
    ensures
        passes == (since_park_ms > 250),
{
    since_park_ms > 250
}

} // verus!
