//! What the application asks of the Matrix client and what it makes of the
//! answers, as far as that is a matter of rules: the order in which a
//! session comes up, how often a sync is tried, what is fetched for a
//! message, what the steps of a verification mean, and when a window that
//! has the focus counts as left alone.

use crate::event::{BodyView, MediaInfo, MessageBody};
use crate::text::{decimal, decimal_string};
use crate::views::{group_views, views};
use rand::Rng;
use vstd::prelude::*;

verus! {

broadcast use group_views;

/// The kind of sync that is under way.
#[derive(Clone, Copy, Debug, PartialEq, Eq, Structural)]
pub enum SyncType {
    /// The first sync after a login.
    Initial,
    /// The sync that catches up after a restart.
    Latest,
}

/// Whether a character is a letter of the English alphabet or a digit.
pub open spec fn alphanumeric(c: char) -> bool {
    ('a' <= c && c <= 'z') || ('A' <= c && c <= 'Z') || ('0' <= c && c <= '9')
}

/// `rand::Rng::sample_iter` with `rand::distr::Alphanumeric`, on the
/// generator that `rand::rng` hands out: so many letters and digits, drawn
/// at random.
#[verifier::external_body]
fn random_name(length: usize) -> (name: String)
    ensures
        name@.len() == length,
        forall|i: int| 0 <= i < name@.len() ==> alphanumeric(#[trigger] name@[i]),
{
    rand::rng().sample_iter(rand::distr::Alphanumeric).take(length).map(char::from).collect()
}

/// What is needed to build the client of a session again.
pub struct ClientSession {
    pub homeserver: String,
    /// The directory of the encrypted store.
    pub db_path: String,
    pub passphrase: String,
}

/// The client session for a new login: a store in a directory of its own
/// under `data_dir`, with a name of seven letters and digits drawn at
/// random, and a passphrase of thirty-two.
pub fn new_client_session(data_dir: &str, homeserver: &str) -> (session: ClientSession)
    ensures
        session.homeserver@ == homeserver@,
        session.passphrase@.len() == 32,
        forall|i: int| 0 <= i < 32 ==> alphanumeric(#[trigger] session.passphrase@[i]),
        session.db_path@.len() == data_dir@.len() + 8,
        session.db_path@.subrange(0, data_dir@.len() as int) == data_dir@,
        session.db_path@[data_dir@.len() as int] == '/',
        forall|i: int|
            data_dir@.len() < i < data_dir@.len() + 8 ==> alphanumeric(#[trigger] session.db_path@[i]),
{
    let folder = random_name(7);
    let passphrase = random_name(32);
    let mut db_path = String::from_str(data_dir);
    crate::text::push_char(&mut db_path, '/');
    db_path.append(folder.as_str());
    proof {
        assert forall|i: int| data_dir@.len() < i < data_dir@.len() + 8 implies alphanumeric(
            #[trigger] db_path@[i],
        ) by {
            assert(db_path@[i] == folder@[i - data_dir@.len() - 1]);
        }
        assert(db_path@.subrange(0, data_dir@.len() as int) =~= data_dir@);
    }
    ClientSession { homeserver: String::from_str(homeserver), db_path, passphrase }
}

/// How a session comes up.
#[derive(Clone, Copy, Debug, PartialEq, Eq, Structural)]
pub enum Phase {
    /// Nothing was started.
    Idle,
    /// No session is stored: the user has to log in.
    LoginRequired,
    /// The stored session is being restored.
    Restoring,
    /// The login is under way.
    LoggingIn,
    /// The one sync that brings the client up to date is under way.
    Syncing(SyncType),
    /// The rooms are being read.
    Populating(SyncType),
    /// The session is up.
    Ready,
    /// A step failed.
    Failed,
}

/// What the last step came to.
pub enum Report {
    Restored,
    LoggedIn,
    Synced,
    Populated,
    /// The step failed, for this reason.
    Failed(String),
}

pub enum ReportView {
    Restored,
    LoggedIn,
    Synced,
    Populated,
    Failed(Seq<char>),
}

impl View for Report {
    type V = ReportView;

    open spec fn view(&self) -> ReportView {
        match *self {
            Report::Restored => ReportView::Restored,
            Report::LoggedIn => ReportView::LoggedIn,
            Report::Synced => ReportView::Synced,
            Report::Populated => ReportView::Populated,
            Report::Failed(reason) => ReportView::Failed(reason@),
        }
    }
}

/// The step to take next.
#[derive(Clone, Copy, Debug, PartialEq, Eq, Structural)]
pub enum Work {
    Nothing,
    RestoreSession,
    Login,
    /// Sync once, with the stored token if there is one; up to ten tries.
    SyncOnce,
    /// Read the rooms into the cache.
    Populate,
    /// Ask the other devices of the account to verify this one.
    RequestVerification,
}

/// What is told to the application as a session comes up.
pub enum Notice {
    LoginRequired,
    LoginStarted,
    LoginComplete,
    SyncStarted(SyncType),
    SyncComplete,
    Error(String),
}

pub enum NoticeView {
    LoginRequired,
    LoginStarted,
    LoginComplete,
    SyncStarted(SyncType),
    SyncComplete,
    Error(Seq<char>),
}

impl View for Notice {
    type V = NoticeView;

    open spec fn view(&self) -> NoticeView {
        match *self {
            Notice::LoginRequired => NoticeView::LoginRequired,
            Notice::LoginStarted => NoticeView::LoginStarted,
            Notice::LoginComplete => NoticeView::LoginComplete,
            Notice::SyncStarted(t) => NoticeView::SyncStarted(t),
            Notice::SyncComplete => NoticeView::SyncComplete,
            Notice::Error(reason) => NoticeView::Error(reason@),
        }
    }
}

/// What a step of the way leads to: the phase, what is told to the
/// application, and the step to take next.
pub struct Step {
    pub phase: Phase,
    pub notices: Vec<Notice>,
    pub work: Work,
}

pub struct StepView {
    pub phase: Phase,
    pub notices: Seq<NoticeView>,
    pub work: Work,
}

impl View for Step {
    type V = StepView;

    open spec fn view(&self) -> StepView {
        StepView { phase: self.phase, notices: views(self.notices@), work: self.work }
    }
}

/// The start: without a stored session the user is asked to log in; with
/// one, the sync is announced and the session restored.
pub open spec fn started(session_stored: bool) -> StepView {
    if session_stored {
        StepView {
            phase: Phase::Restoring,
            notices: seq![NoticeView::SyncStarted(SyncType::Latest)],
            work: Work::RestoreSession,
        }
    } else {
        StepView { phase: Phase::LoginRequired, notices: seq![NoticeView::LoginRequired], work: Work::Nothing }
    }
}

/// The start of a login.
pub open spec fn login_started() -> StepView {
    StepView { phase: Phase::LoggingIn, notices: seq![NoticeView::LoginStarted], work: Work::Login }
}

/// The way on from a phase when its step came to `report`: a restored
/// session and a login are followed by one sync, the sync by the reading
/// of the rooms, and that by the word that the sync is complete; after a
/// login the device then asks to be verified. A failure is told as an
/// error and ends the way. A report that does not belong to the phase
/// changes nothing.
pub open spec fn advanced(phase: Phase, report: ReportView) -> StepView {
    match (phase, report) {
        (Phase::Restoring, ReportView::Restored) => StepView {
            phase: Phase::Syncing(SyncType::Latest),
            notices: Seq::empty(),
            work: Work::SyncOnce,
        },
        (Phase::LoggingIn, ReportView::LoggedIn) => StepView {
            phase: Phase::Syncing(SyncType::Initial),
            notices: seq![NoticeView::LoginComplete, NoticeView::SyncStarted(SyncType::Initial)],
            work: Work::SyncOnce,
        },
        (Phase::Syncing(t), ReportView::Synced) => StepView {
            phase: Phase::Populating(t),
            notices: Seq::empty(),
            work: Work::Populate,
        },
        (Phase::Populating(t), ReportView::Populated) => StepView {
            phase: Phase::Ready,
            notices: seq![NoticeView::SyncComplete],
            work: if t == SyncType::Initial {
                Work::RequestVerification
            } else {
                Work::Nothing
            },
        },
        (Phase::Restoring, ReportView::Failed(reason)) | (Phase::LoggingIn, ReportView::Failed(reason)) | (
            Phase::Syncing(_),
            ReportView::Failed(reason),
        ) => StepView { phase: Phase::Failed, notices: seq![NoticeView::Error(reason)], work: Work::Nothing },
        _ => StepView { phase, notices: Seq::empty(), work: Work::Nothing },
    }
}

/// The start: see `started`.
pub fn init(session_stored: bool) -> (step: Step)
    ensures
        step@ == started(session_stored),
{
    let mut notices: Vec<Notice> = Vec::new();
    if session_stored {
        notices.push(Notice::SyncStarted(SyncType::Latest));
        Step { phase: Phase::Restoring, notices, work: Work::RestoreSession }
    } else {
        notices.push(Notice::LoginRequired);
        Step { phase: Phase::LoginRequired, notices, work: Work::Nothing }
    }
}

/// The start of a login: see `login_started`.
pub fn login() -> (step: Step)
    ensures
        step@ == login_started(),
{
    let mut notices: Vec<Notice> = Vec::new();
    notices.push(Notice::LoginStarted);
    Step { phase: Phase::LoggingIn, notices, work: Work::Login }
}

/// The way on: see `advanced`.
pub fn advance(phase: Phase, report: Report) -> (step: Step)
    ensures
        step@ == advanced(phase, report@),
{
    let mut notices: Vec<Notice> = Vec::new();
    let ghost wanted = advanced(phase, report@);
    let step = match (phase, report) {
        (Phase::Restoring, Report::Restored) => Step {
            phase: Phase::Syncing(SyncType::Latest),
            notices,
            work: Work::SyncOnce,
        },
        (Phase::LoggingIn, Report::LoggedIn) => {
            notices.push(Notice::LoginComplete);
            notices.push(Notice::SyncStarted(SyncType::Initial));
            Step { phase: Phase::Syncing(SyncType::Initial), notices, work: Work::SyncOnce }
        },
        (Phase::Syncing(t), Report::Synced) => Step { phase: Phase::Populating(t), notices, work: Work::Populate },
        (Phase::Populating(t), Report::Populated) => {
            notices.push(Notice::SyncComplete);
            let work = match t {
                SyncType::Initial => Work::RequestVerification,
                SyncType::Latest => Work::Nothing,
            };
            Step { phase: Phase::Ready, notices, work }
        },
        (Phase::Restoring, Report::Failed(reason)) => {
            notices.push(Notice::Error(reason));
            Step { phase: Phase::Failed, notices, work: Work::Nothing }
        },
        (Phase::LoggingIn, Report::Failed(reason)) => {
            notices.push(Notice::Error(reason));
            Step { phase: Phase::Failed, notices, work: Work::Nothing }
        },
        (Phase::Syncing(_), Report::Failed(reason)) => {
            notices.push(Notice::Error(reason));
            Step { phase: Phase::Failed, notices, work: Work::Nothing }
        },
        _ => Step { phase, notices, work: Work::Nothing },
    };
    assert(views(step.notices@) =~= wanted.notices);
    step
}

/// What follows a sync that failed.
pub enum Retry {
    /// Try again at once.
    Again,
    /// Give up, with this error.
    GiveUp(String),
}

/// The number of tries that a sync has.
pub open spec fn sync_tries() -> nat {
    10
}

/// What follows the failure of the try `failed`, the first being 1: the
/// sync is tried again until ten tries have failed.
pub fn sync_retry(failed: u32) -> (retry: Retry)
    ensures
        failed < sync_tries() ==> retry is Again,
        failed >= sync_tries() ==> (retry matches Retry::GiveUp(reason) && reason@ == "Sync timeout."@),
{
    if failed < 10 {
        Retry::Again
    } else {
        Retry::GiveUp(String::from_str("Sync timeout."))
    }
}

/// What is fetched for a message with an attachment.
pub struct DownloadRequest {
    pub content_type: String,
    pub file_name: String,
    /// Where the client finds the bytes.
    pub source: String,
}

pub struct DownloadRequestView {
    pub content_type: Seq<char>,
    pub file_name: Seq<char>,
    pub source: Seq<char>,
}

impl View for DownloadRequest {
    type V = DownloadRequestView;

    open spec fn view(&self) -> DownloadRequestView {
        DownloadRequestView {
            content_type: self.content_type@,
            file_name: self.file_name@,
            source: self.source@,
        }
    }
}

/// The media type of an attachment: the one that its message gives, and a
/// stream of bytes where it gives none.
pub open spec fn content_type(info: Option<crate::event::MediaInfoView>) -> Seq<char> {
    match info {
        Some(crate::event::MediaInfoView { mimetype: Some(m), .. }) => m,
        _ => "application/octet-stream"@,
    }
}

/// What is fetched for a content: the attachment of a picture, a video or
/// a file, under the name that the message gives it. Any other content has
/// nothing to fetch.
pub open spec fn requested(body: BodyView) -> Option<DownloadRequestView> {
    match body {
        BodyView::Image { body, info, source } => Some(
            DownloadRequestView { content_type: content_type(info), file_name: body, source },
        ),
        BodyView::Video { body, info, source } => Some(
            DownloadRequestView { content_type: content_type(info), file_name: body, source },
        ),
        BodyView::File { body, info, source } => Some(
            DownloadRequestView { content_type: content_type(info), file_name: body, source },
        ),
        _ => None,
    }
}

fn type_of(info: &Option<MediaInfo>) -> (t: String)
    ensures
        t@ == content_type(crate::event::opt_info(*info)),
{
    if let Some(i) = info {
        if let Some(m) = &i.mimetype {
            return m.clone();
        }
    }
    String::from_str("application/octet-stream")
}

/// What is fetched for a content: see `requested`. The error is the one
/// that is shown for a content without an attachment.
pub fn download_request(body: &MessageBody) -> (request: Result<DownloadRequest, String>)
    ensures
        match request {
            Ok(r) => requested(body@) == Some(r@),
            Err(reason) => requested(body@) is None && reason@ == "Unknown file type."@,
        },
{
    match body {
        MessageBody::Image { body, info, source } => Ok(
            DownloadRequest {
                content_type: type_of(info),
                file_name: body.clone(),
                source: source.clone(),
            },
        ),
        MessageBody::Video { body, info, source } => Ok(
            DownloadRequest {
                content_type: type_of(info),
                file_name: body.clone(),
                source: source.clone(),
            },
        ),
        MessageBody::File { body, info, source } => Ok(
            DownloadRequest {
                content_type: type_of(info),
                file_name: body.clone(),
                source: source.clone(),
            },
        ),
        _ => Err(String::from_str("Unknown file type.")),
    }
}

/// What the user is told once an attachment was stored: where it is.
pub fn saved_message(path: &str) -> (text: String)
    ensures
        text@ == "Saved to "@ + path@,
{
    let mut text = String::from_str("Saved to ");
    text.append(path);
    text
}

/// A piece of work that the user is told about while it lasts.
#[derive(Clone, Copy, Debug, PartialEq, Eq, Structural)]
pub enum Task {
    FetchMessages,
    Download,
    SendMessage,
    SendReaction,
    Redact,
    Edit,
    /// The upload of one file of several, the first being 0.
    Upload { index: usize, total: usize },
}

/// What is written while a piece of work lasts.
pub open spec fn task_text(task: Task) -> Seq<char> {
    match task {
        Task::FetchMessages => "Fetching more messages."@,
        Task::Download => "Downloading file."@,
        Task::SendMessage => "Sending message."@,
        Task::SendReaction => "Sending reaction."@,
        Task::Redact => "Removing."@,
        Task::Edit => "Editing message."@,
        Task::Upload { index, total } => "Uploading "@ + decimal((index + 1) as nat) + " of "@ + decimal(
            total as nat,
        ) + "."@,
    }
}

/// The milliseconds for which a piece of work goes unmentioned.
pub open spec fn task_delay(task: Task) -> u64 {
    match task {
        Task::FetchMessages => 1000,
        Task::Download => 250,
        Task::Upload { .. } => 0,
        _ => 500,
    }
}

/// What is written while a piece of work lasts, and from when on.
pub fn progress_for(task: Task) -> (progress: (String, u64))
    requires
        task matches Task::Upload { index, .. } ==> index < usize::MAX,
    ensures
        progress.0@ == task_text(task),
        progress.1 == task_delay(task),
{
    match task {
        Task::FetchMessages => (String::from_str("Fetching more messages."), 1000),
        Task::Download => (String::from_str("Downloading file."), 250),
        Task::SendMessage => (String::from_str("Sending message."), 500),
        Task::SendReaction => (String::from_str("Sending reaction."), 500),
        Task::Redact => (String::from_str("Removing."), 500),
        Task::Edit => (String::from_str("Editing message."), 500),
        Task::Upload { index, total } => {
            let mut text = String::from_str("Uploading ");
            let number = decimal_string(index + 1);
            text.append(number.as_str());
            text.append(" of ");
            let of = decimal_string(total);
            text.append(of.as_str());
            text.append(".");
            (text, 0)
        },
    }
}

/// A step of a verification by emojis.
pub enum SasState {
    Created,
    Started,
    Accepted,
    /// The keys were exchanged; the emojis are there if both sides can
    /// show emojis.
    KeysExchanged { emojis: Option<Vec<String>> },
    Confirmed,
    Done,
    Cancelled,
}

/// What a step of a verification means for the user.
pub enum SasNotice {
    /// The emojis to compare.
    Started(Vec<String>),
    Completed,
}

pub enum SasNoticeView {
    Started(Seq<Seq<char>>),
    Completed,
}

impl View for SasNotice {
    type V = SasNoticeView;

    open spec fn view(&self) -> SasNoticeView {
        match *self {
            SasNotice::Started(emojis) => SasNoticeView::Started(views(emojis@)),
            SasNotice::Completed => SasNoticeView::Completed,
        }
    }
}

/// What a step of a verification means for the user: once the keys are
/// exchanged the emojis are shown, and the end is told; every other step
/// goes unmentioned.
pub fn sas_event(state: SasState) -> (notice: Option<SasNotice>)
    ensures
        match state {
            SasState::KeysExchanged { emojis: Some(e) } => notice matches Some(SasNotice::Started(shown))
                && shown == e,
            SasState::Done => notice matches Some(SasNotice::Completed),
            _ => notice is None,
        },
{
    match state {
        SasState::KeysExchanged { emojis: Some(e) } => Some(SasNotice::Started(e)),
        SasState::Done => Some(SasNotice::Completed),
        _ => None,
    }
}

/// The timer that makes a window count as left alone some time after it
/// got the focus. Each time the window gets the focus a timer is set under
/// a key that no timer had before, and only the timer with the current key
/// counts when it goes off. When the window loses the focus no key is
/// current, so every timer that was set before counts for nothing.
pub struct BlurTimer {
    issued: u64,
    current: u64,
}

pub struct BlurTimerView {
    /// The number of keys that were handed out; the keys are the numbers
    /// from one up to it.
    pub issued: u64,
    /// The key of the timer that counts, or zero where none does.
    pub current: u64,
}

impl View for BlurTimer {
    type V = BlurTimerView;

    closed spec fn view(&self) -> BlurTimerView {
        BlurTimerView { issued: self.issued, current: self.current }
    }
}

/// The key under which the next timer is set, while there are keys left.
pub open spec fn timer_key(t: BlurTimerView) -> Option<u64> {
    if t.issued < u64::MAX {
        Some((t.issued + 1) as u64)
    } else {
        None
    }
}

/// The timer after the window got the focus with a delay: the next key is
/// handed out and is the current one. Where no key is left, none is
/// current.
pub open spec fn timer_set(t: BlurTimerView) -> BlurTimerView {
    match timer_key(t) {
        Some(key) => BlurTimerView { issued: key, current: key },
        None => BlurTimerView { issued: t.issued, current: 0 },
    }
}

/// The timer after the window lost the focus: no key is current.
pub open spec fn timer_cleared(t: BlurTimerView) -> BlurTimerView {
    BlurTimerView { issued: t.issued, current: 0 }
}

/// Whether the timer set under `key` counts when it goes off.
pub open spec fn timer_fires(t: BlurTimerView, key: u64) -> bool {
    key != 0 && key == t.current
}

/// What happens to the window: it gets the focus, while the settings give
/// a delay or while they give none, or it loses the focus.
pub enum TimerMove {
    Focus { delayed: bool },
    Blur,
}

/// The timer after one move.
pub open spec fn timer_moved(t: BlurTimerView, m: TimerMove) -> BlurTimerView {
    match m {
        TimerMove::Focus { delayed } => if delayed {
            timer_set(t)
        } else {
            t
        },
        TimerMove::Blur => timer_cleared(t),
    }
}

/// The timer after the moves `moves`, one after the other.
pub open spec fn timer_after(t: BlurTimerView, moves: Seq<TimerMove>) -> BlurTimerView
    decreases moves.len(),
{
    if moves.len() == 0 {
        t
    } else {
        timer_moved(timer_after(t, moves.drop_last()), moves.last())
    }
}

/// After any number of moves as many keys were handed out as before, at
/// least, and the current key is none or one that was handed out since.
proof fn lemma_timer_moves(t: BlurTimerView, moves: Seq<TimerMove>)
    requires
        t.current == 0,
    ensures
        timer_after(t, moves).issued >= t.issued,
        timer_after(t, moves).current == 0 || timer_after(t, moves).current > t.issued,
    decreases moves.len(),
{
    if moves.len() > 0 {
        lemma_timer_moves(t, moves.drop_last());
    }
}

/// The loss of the focus cancels every timer: a timer that was set before
/// the window lost the focus never counts afterwards, however often the
/// window gets and loses the focus again.
pub proof fn lemma_blur_cancels(t: BlurTimerView, key: u64, moves: Seq<TimerMove>)
    requires
        key <= t.issued,
    ensures
        !timer_fires(timer_after(timer_cleared(t), moves), key),
{
    lemma_timer_moves(timer_cleared(t), moves);
}

/// A new focus cancels the timers before it: a timer that was set before
/// the window got the focus again does not count afterwards.
pub proof fn lemma_focus_cancels(t: BlurTimerView, key: u64)
    requires
        key <= t.issued,
    ensures
        !timer_fires(timer_set(t), key),
{
}

impl BlurTimer {
    pub fn new() -> (t: BlurTimer)
        ensures
            t@ == (BlurTimerView { issued: 0, current: 0 }),
    {
        BlurTimer { issued: 0, current: 0 }
    }

    /// The window got the focus: where the settings give a delay, a timer
    /// is to be set for it, under the key that is handed back.
    pub fn focus_event(&mut self, delay: Option<u64>) -> (timer: Option<(u64, u64)>)
        ensures
            match delay {
                Some(seconds) => final(self)@ == timer_moved(
                    old(self)@,
                    TimerMove::Focus { delayed: true },
                ) && timer == match timer_key(old(self)@) {
                    Some(key) => Some((key, seconds)),
                    None => None,
                },
                None => final(self)@ == timer_moved(old(self)@, TimerMove::Focus { delayed: false })
                    && timer is None,
            },
    {
        match delay {
            Some(seconds) => {
                if self.issued < u64::MAX {
                    self.issued = self.issued + 1;
                    self.current = self.issued;
                    Some((self.current, seconds))
                } else {
                    self.current = 0;
                    None
                }
            },
            None => None,
        }
    }

    /// The window lost the focus: no timer counts any more, and none of
    /// those set so far ever will.
    pub fn blur_event(&mut self)
        ensures
            final(self)@ == timer_moved(old(self)@, TimerMove::Blur),
    {
        self.current = 0;
    }

    /// Whether the timer that was set under `key` makes the window count
    /// as left alone: it does while its key is the current one, which it
    /// is until the window gets or loses the focus.
    pub fn fires(&self, key: u64) -> (blur: bool)
        ensures
            blur == timer_fires(self@, key),
    {
        key != 0 && key == self.current
    }
}

} // verus!
