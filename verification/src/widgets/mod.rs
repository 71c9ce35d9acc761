//! The popups of the application and the parts they are made of, as far as
//! keys and state go. What a widget asks of the application it hands back
//! as an `Effect`.

pub mod button;
pub mod confirm;
pub mod error;
pub mod help;
pub mod progress;
pub mod recover;
pub mod rooms;
pub mod search;
pub mod signin;
pub mod textinput;

use vstd::prelude::*;

verus! {

/// What a widget asks the application to do after a key.
pub enum Effect {
    /// Nothing beyond what the widget did to itself.
    Nothing,
    ClosePopup,
    /// Enter the room and close the popup.
    SelectRoom { room_id: String },
    /// The emojis match: confirm the verification and close the popup.
    ConfirmVerification,
    /// The emojis differ: cancel the verification and close the popup.
    MismatchedVerification,
    /// Delete the event and close the popup.
    RedactEvent { room_id: String, event_id: String },
    /// Log in with what was typed.
    Login { id: String, password: String },
    /// Search the chat for the term.
    Search { term: String },
    /// The same, and close the popup.
    SearchAndClose { term: String },
    /// Recover the keys with what was typed.
    Recover { key: String },
}

pub enum EffectView {
    Nothing,
    ClosePopup,
    SelectRoom { room_id: Seq<char> },
    ConfirmVerification,
    MismatchedVerification,
    RedactEvent { room_id: Seq<char>, event_id: Seq<char> },
    Login { id: Seq<char>, password: Seq<char> },
    Search { term: Seq<char> },
    SearchAndClose { term: Seq<char> },
    Recover { key: Seq<char> },
}

impl View for Effect {
    type V = EffectView;

    open spec fn view(&self) -> EffectView {
        match *self {
            Effect::Nothing => EffectView::Nothing,
            Effect::ClosePopup => EffectView::ClosePopup,
            Effect::SelectRoom { room_id } => EffectView::SelectRoom { room_id: room_id@ },
            Effect::ConfirmVerification => EffectView::ConfirmVerification,
            Effect::MismatchedVerification => EffectView::MismatchedVerification,
            Effect::RedactEvent { room_id, event_id } => EffectView::RedactEvent {
                room_id: room_id@,
                event_id: event_id@,
            },
            Effect::Login { id, password } => EffectView::Login { id: id@, password: password@ },
            Effect::Search { term } => EffectView::Search { term: term@ },
            Effect::SearchAndClose { term } => EffectView::SearchAndClose { term: term@ },
            Effect::Recover { key } => EffectView::Recover { key: key@ },
        }
    }
}

/// What became of a key that was handed to a widget.
pub enum EventResult {
    /// The widget took the key; the effect is what it asks of the
    /// application.
    Consumed(Effect),
    /// The widget has no use for the key; it goes on to the next.
    Ignored,
}

pub enum EventResultView {
    Consumed(EffectView),
    Ignored,
}

impl View for EventResult {
    type V = EventResultView;

    open spec fn view(&self) -> EventResultView {
        match *self {
            EventResult::Consumed(e) => EventResultView::Consumed(e@),
            EventResult::Ignored => EventResultView::Ignored,
        }
    }
}

/// The result of a key that the widget took and that asks nothing more.
pub open spec fn consumed() -> EventResultView {
    EventResultView::Consumed(EffectView::Nothing)
}

/// The result of a key that closes the popup.
pub open spec fn closing() -> EventResultView {
    EventResultView::Consumed(EffectView::ClosePopup)
}

/// A part of a popup that can hold the focus.
pub trait Focusable {
    spec fn is_focused(&self) -> bool;

    fn focused(&self) -> (b: bool)
        ensures
            b == self.is_focused(),
    ;

    fn focus(&mut self)
        ensures
            final(self).is_focused(),
    ;

    fn defocus(&mut self)
        ensures
            !final(self).is_focused(),
    ;
}

/// The index of the first part that holds the focus; the number of parts
/// where none does.
pub open spec fn first_focused(flags: Seq<bool>) -> int
    decreases flags.len(),
{
    if flags.len() == 0 || flags[0] {
        0
    } else {
        1 + first_focused(flags.drop_first())
    }
}

/// Who holds the focus after it moved on: the part behind the first that
/// held it, and the first part if that was the last one or if none held it.
pub open spec fn focus_moved(flags: Seq<bool>) -> Seq<bool> {
    let i = first_focused(flags);
    if flags.len() == 0 {
        flags
    } else if i >= flags.len() {
        flags.update(0, true)
    } else if i + 1 < flags.len() {
        flags.update(i, false).update(i + 1, true)
    } else {
        flags.update(i, false).update(0, true)
    }
}

/// Who holds the focus after it moved back: as `focus_moved`, with the
/// parts taken from the last to the first.
pub open spec fn focus_moved_back(flags: Seq<bool>) -> Seq<bool> {
    focus_moved(flags.reverse()).reverse()
}

/// Moves the focus on: see `focus_moved`.
pub fn focus_next(flags: &mut Vec<bool>)
    ensures
        final(flags)@ == focus_moved(old(flags)@),
        final(flags)@.len() == old(flags)@.len(),
{
    let n: usize = flags.len();
    if n == 0 {
        return ;
    }
    let mut i: usize = 0;
    assert(flags@.skip(0) == flags@);
    while i < n && !flags[i]
        invariant
            i <= n,
            n == flags.len(),
            flags@ == old(flags)@,
            first_focused(flags@) == i + first_focused(flags@.skip(i as int)),
        decreases n - i,
    {
        assert(flags@.skip(i as int).drop_first() == flags@.skip(i + 1));
        i += 1;
    }
    if i >= n {
        flags.set(0, true);
    } else if i + 1 < n {
        flags.set(i, false);
        flags.set(i + 1, true);
    } else {
        flags.set(i, false);
        flags.set(0, true);
    }
}

/// Moves the focus back: see `focus_moved_back`.
pub fn focus_prev(flags: &mut Vec<bool>)
    ensures
        final(flags)@ == focus_moved_back(old(flags)@),
        final(flags)@.len() == old(flags)@.len(),
{
    reverse(flags);
    focus_next(flags);
    reverse(flags);
}

fn reverse(flags: &mut Vec<bool>)
    ensures
        final(flags)@ == old(flags)@.reverse(),
{
    let n: usize = flags.len();
    let mut out: Vec<bool> = Vec::new();
    let mut i: usize = 0;
    while i < n
        invariant
            i <= n,
            n == flags.len(),
            flags@ == old(flags)@,
            out.len() == i,
            forall|j: int| 0 <= j < i ==> out@[j] == flags@[n - 1 - j],
        decreases n - i,
    {
        out.push(flags[n - 1 - i]);
        i += 1;
    }
    assert(out@ =~= old(flags)@.reverse());
    *flags = out;
}

/// The margin that centres `requested` columns in `available` ones.
pub fn get_margin(available: u16, requested: u16) -> (margin: u16)
    ensures
        margin == if requested >= available {
            0
        } else {
            (available - requested) / 2
        },
{
    if requested >= available {
        0
    } else {
        (available - requested) / 2
    }
}

} // verus!
