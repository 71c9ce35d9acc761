use crate::key::{KeyCode, KeyEvent};
use crate::widgets::button::{Button, ButtonView};
use crate::widgets::{
    closing, consumed, focus_moved, focus_next, Effect, EffectView, EventResult, EventResultView,
};
use vstd::prelude::*;

verus! {

/// What a confirmation is about.
pub enum ConfirmBehavior {
    /// Whether the emojis of a key verification match.
    Verification,
    /// Whether to delete a message.
    DeleteMessage { room_id: String, event_id: String },
}

pub enum ConfirmBehaviorView {
    Verification,
    DeleteMessage { room_id: Seq<char>, event_id: Seq<char> },
}

impl View for ConfirmBehavior {
    type V = ConfirmBehaviorView;

    open spec fn view(&self) -> ConfirmBehaviorView {
        match *self {
            ConfirmBehavior::Verification => ConfirmBehaviorView::Verification,
            ConfirmBehavior::DeleteMessage { room_id, event_id } => ConfirmBehaviorView::DeleteMessage {
                room_id: room_id@,
                event_id: event_id@,
            },
        }
    }
}

/// A popup with a question and two buttons.
pub struct Confirm {
    title: String,
    message: String,
    yes: Button,
    no: Button,
    behavior: ConfirmBehavior,
}

pub struct ConfirmView {
    pub title: Seq<char>,
    pub message: Seq<char>,
    pub yes: ButtonView,
    pub no: ButtonView,
    pub behavior: ConfirmBehaviorView,
}

impl View for Confirm {
    type V = ConfirmView;

    closed spec fn view(&self) -> ConfirmView {
        ConfirmView {
            title: self.title@,
            message: self.message@,
            yes: self.yes@,
            no: self.no@,
            behavior: self.behavior@,
        }
    }
}

/// The keys that move the focus from one button to the other.
pub open spec fn moves_focus(code: KeyCode) -> bool {
    code == KeyCode::Tab || code == KeyCode::BackTab || code == KeyCode::Left || code
        == KeyCode::Right || code == KeyCode::Up || code == KeyCode::Down || code == KeyCode::Char(
        'h',
    ) || code == KeyCode::Char('j') || code == KeyCode::Char('k') || code == KeyCode::Char('l')
}

/// The popup after a key.
pub open spec fn confirm_after(c: ConfirmView, key: KeyEvent) -> ConfirmView {
    if moves_focus(key.code) {
        let flags = focus_moved(seq![c.yes.focused, c.no.focused]);
        ConfirmView {
            yes: ButtonView { focused: flags[0], ..c.yes },
            no: ButtonView { focused: flags[1], ..c.no },
            ..c
        }
    } else {
        c
    }
}

/// What the answer asks for: yes confirms the verification or deletes the
/// message; no cancels the verification, or just closes the popup.
pub open spec fn answer(c: ConfirmView) -> EffectView {
    match c.behavior {
        ConfirmBehaviorView::Verification => {
            if c.yes.focused {
                EffectView::ConfirmVerification
            } else {
                EffectView::MismatchedVerification
            }
        },
        ConfirmBehaviorView::DeleteMessage { room_id, event_id } => {
            if c.yes.focused {
                EffectView::RedactEvent { room_id, event_id }
            } else {
                EffectView::ClosePopup
            }
        },
    }
}

/// What a key asks for: Enter gives the answer, Esc closes the popup.
pub open spec fn confirm_result(c: ConfirmView, key: KeyEvent) -> EventResultView {
    if moves_focus(key.code) {
        consumed()
    } else if key.code == KeyCode::Esc {
        closing()
    } else if key.code == KeyCode::Enter {
        EventResultView::Consumed(answer(c))
    } else {
        EventResultView::Ignored
    }
}

impl Confirm {
    /// A popup with the focus on the button that says yes.
    pub fn new(title: String, message: String, yes: String, no: String, behavior: ConfirmBehavior) -> (c:
        Confirm)
        ensures
            c@ == (ConfirmView {
                title: title@,
                message: message@,
                yes: ButtonView { label: yes@, focused: true },
                no: ButtonView { label: no@, focused: false },
                behavior: behavior@,
            }),
    {
        Confirm { title, message, yes: Button::new(yes, true), no: Button::new(no, false), behavior }
    }

    pub fn title(&self) -> (s: &str)
        ensures
            s@ == self@.title,
    {
        self.title.as_str()
    }

    pub fn message(&self) -> (s: &str)
        ensures
            s@ == self@.message,
    {
        self.message.as_str()
    }

    pub fn yes(&self) -> (b: &Button)
        ensures
            b@ == self@.yes,
    {
        &self.yes
    }

    pub fn no(&self) -> (b: &Button)
        ensures
            b@ == self@.no,
    {
        &self.no
    }

    fn make_result(&self) -> (effect: Effect)
        ensures
            effect@ == answer(self@),
    {
        let focused = self.yes.has_focus();
        match &self.behavior {
            ConfirmBehavior::Verification => {
                if focused {
                    Effect::ConfirmVerification
                } else {
                    Effect::MismatchedVerification
                }
            },
            ConfirmBehavior::DeleteMessage { room_id, event_id } => {
                if focused {
                    Effect::RedactEvent { room_id: room_id.clone(), event_id: event_id.clone() }
                } else {
                    Effect::ClosePopup
                }
            },
        }
    }

    pub fn key_event(&mut self, input: &KeyEvent) -> (result: EventResult)
        ensures
            final(self)@ == confirm_after(old(self)@, *input),
            result@ == confirm_result(old(self)@, *input),
    {
        match input.code {
            KeyCode::Tab | KeyCode::BackTab | KeyCode::Left | KeyCode::Right | KeyCode::Up | KeyCode::Down | KeyCode::Char(
                'h',
            ) | KeyCode::Char('j') | KeyCode::Char('k') | KeyCode::Char('l') => {
                let mut flags: Vec<bool> = Vec::new();
                flags.push(self.yes.has_focus());
                flags.push(self.no.has_focus());
                assert(flags@ =~= seq![self@.yes.focused, self@.no.focused]);
                focus_next(&mut flags);
                self.yes.set_focus(flags[0]);
                self.no.set_focus(flags[1]);
                EventResult::Consumed(Effect::Nothing)
            },
            KeyCode::Esc => EventResult::Consumed(Effect::ClosePopup),
            KeyCode::Enter => EventResult::Consumed(self.make_result()),
            _ => EventResult::Ignored,
        }
    }

    pub fn widget(&self) -> (w: ConfirmWidget<'_>)
        ensures
            w.confirm@ == self@,
    {
        ConfirmWidget { confirm: self }
    }
}

/// A confirmation as it is drawn.
pub struct ConfirmWidget<'a> {
    pub confirm: &'a Confirm,
}

} // verus!
