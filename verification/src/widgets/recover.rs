use crate::key::{KeyCode, KeyEvent};
use crate::widgets::textinput::{
    input_after, input_ok, input_takes, window_left, TextInput, TextInputView,
};
use crate::widgets::{closing, consumed, Effect, EffectView, EventResult, EventResultView};
use vstd::prelude::*;

verus! {

/// The popup that asks for the recovery key.
pub struct Recover {
    input: TextInput,
}

impl View for Recover {
    type V = TextInputView;

    closed spec fn view(&self) -> TextInputView {
        self.input@
    }
}

/// The popup as it opens.
pub open spec fn recover_start() -> TextInputView {
    TextInputView {
        title: "Recovery Key/Passphrase"@,
        value: Seq::empty(),
        focused: true,
        password: false,
        cursor: 0,
        left: 0,
    }
}

/// What a key does to the popup: the field takes what it can; Esc closes
/// the popup, Enter hands in what was typed.
pub open spec fn recover_result(t: TextInputView, key: KeyEvent) -> EventResultView {
    if input_takes(t, key) {
        consumed()
    } else {
        match key.code {
            KeyCode::Esc => closing(),
            KeyCode::Enter => EventResultView::Consumed(EffectView::Recover { key: t.value }),
            _ => EventResultView::Ignored,
        }
    }
}

impl Recover {
    pub open spec fn wf(&self) -> bool {
        input_ok(self@)
    }

    pub fn new() -> (r: Recover)
        ensures
            r.wf(),
            r@ == recover_start(),
    {
        Recover { input: TextInput::new(String::from_str("Recovery Key/Passphrase"), true, false) }
    }

    pub fn input(&self) -> (t: &TextInput)
        ensures
            t@ == self@,
    {
        &self.input
    }

    /// Moves the window of the field so that `size` columns show the
    /// cursor.
    pub fn adjust_window(&mut self, size: usize)
        requires
            old(self).wf(),
        ensures
            final(self).wf(),
            final(self)@ == (TextInputView { left: window_left(old(self)@, size as nat), ..old(self)@ }),
    {
        self.input.adjust_window(size);
    }

    pub fn key_event(&mut self, input: &KeyEvent) -> (result: EventResult)
        requires
            old(self).wf(),
        ensures
            final(self)@ == input_after(old(self)@, *input),
            input_ok(final(self)@),
            result@ == recover_result(old(self)@, *input),
    {
        if let EventResult::Consumed(_) = self.input.key_event(input) {
            return EventResult::Consumed(Effect::Nothing);
        }
        match input.code {
            KeyCode::Esc => EventResult::Consumed(Effect::ClosePopup),
            KeyCode::Enter => EventResult::Consumed(Effect::Recover { key: self.input.value() }),
            _ => EventResult::Ignored,
        }
    }

    pub fn widget(&self) -> (w: RecoverWidget<'_>)
        ensures
            w.recover@ == self@,
    {
        RecoverWidget { recover: self }
    }
}

/// The recovery popup as it is drawn.
pub struct RecoverWidget<'a> {
    pub recover: &'a Recover,
}

} // verus!
