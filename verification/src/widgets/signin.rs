use crate::key::{KeyCode, KeyEvent};
use crate::widgets::button::{Button, ButtonView};
use crate::widgets::textinput::{
    input_after, input_ok, input_takes, window_left, TextInput, TextInputView,
};
use crate::widgets::{
    consumed, focus_moved, focus_moved_back, focus_next, focus_prev, Effect, EffectView,
    EventResult, EventResultView,
};
use vstd::prelude::*;

verus! {

/// The popup that asks for the Matrix id and the password.
pub struct Signin {
    id: TextInput,
    password: TextInput,
    submit: Button,
}

pub struct SigninView {
    pub id: TextInputView,
    pub password: TextInputView,
    pub submit: ButtonView,
}

impl View for Signin {
    type V = SigninView;

    closed spec fn view(&self) -> SigninView {
        SigninView { id: self.id@, password: self.password@, submit: self.submit@ }
    }
}

/// The popup as it opens: both fields empty, the focus on the id.
pub open spec fn signin_start() -> SigninView {
    SigninView {
        id: TextInputView {
            title: "Matrix ID"@,
            value: Seq::empty(),
            focused: true,
            password: false,
            cursor: 0,
            left: 0,
        },
        password: TextInputView {
            title: "Password"@,
            value: Seq::empty(),
            focused: false,
            password: true,
            cursor: 0,
            left: 0,
        },
        submit: ButtonView { label: "Submit"@, focused: false },
    }
}

/// Who holds the focus: the id, the password, the button.
pub open spec fn signin_focus(s: SigninView) -> Seq<bool> {
    seq![s.id.focused, s.password.focused, s.submit.focused]
}

/// The popup with the focus as `flags` say.
pub open spec fn with_focus(s: SigninView, flags: Seq<bool>) -> SigninView {
    SigninView {
        id: TextInputView { focused: flags[0], ..s.id },
        password: TextInputView { focused: flags[1], ..s.password },
        submit: ButtonView { focused: flags[2], ..s.submit },
    }
}

/// Whether the button takes the key.
pub open spec fn submits(s: SigninView, key: KeyEvent) -> bool {
    !input_takes(s.id, key) && !input_takes(s.password, key) && s.submit.focused && key.code
        == KeyCode::Enter
}

/// The popup after a key: the field that holds the focus takes what it
/// can; otherwise Enter, Tab and the down arrow move the focus on, BackTab
/// and the up arrow move it back.
pub open spec fn signin_after(s: SigninView, key: KeyEvent) -> SigninView {
    if input_takes(s.id, key) {
        SigninView { id: input_after(s.id, key), ..s }
    } else if input_takes(s.password, key) {
        SigninView { password: input_after(s.password, key), ..s }
    } else if submits(s, key) {
        s
    } else {
        match key.code {
            KeyCode::Enter | KeyCode::Tab | KeyCode::Down => with_focus(
                s,
                focus_moved(signin_focus(s)),
            ),
            KeyCode::BackTab | KeyCode::Up => with_focus(s, focus_moved_back(signin_focus(s))),
            _ => s,
        }
    }
}

/// What a key asks for: Enter on the button logs in with what was typed.
pub open spec fn signin_result(s: SigninView, key: KeyEvent) -> EventResultView {
    if input_takes(s.id, key) || input_takes(s.password, key) {
        consumed()
    } else if submits(s, key) {
        EventResultView::Consumed(EffectView::Login { id: s.id.value, password: s.password.value })
    } else {
        match key.code {
            KeyCode::Enter | KeyCode::Tab | KeyCode::Down | KeyCode::BackTab | KeyCode::Up => consumed(),
            _ => EventResultView::Ignored,
        }
    }
}

impl Signin {
    pub open spec fn wf(&self) -> bool {
        &&& input_ok(self@.id)
        &&& input_ok(self@.password)
    }

    /// The popup as it opens: see `signin_start`.
    pub fn new() -> (s: Signin)
        ensures
            s.wf(),
            s@ == signin_start(),
    {
        Signin {
            id: TextInput::new(String::from_str("Matrix ID"), true, false),
            password: TextInput::new(String::from_str("Password"), false, true),
            submit: Button::new(String::from_str("Submit"), false),
        }
    }

    pub fn id(&self) -> (t: &TextInput)
        ensures
            t@ == self@.id,
    {
        &self.id
    }

    pub fn password(&self) -> (t: &TextInput)
        ensures
            t@ == self@.password,
    {
        &self.password
    }

    pub fn submit(&self) -> (b: &Button)
        ensures
            b@ == self@.submit,
    {
        &self.submit
    }

    /// Moves the windows of both fields so that `size` columns show the
    /// cursor.
    pub fn adjust_window(&mut self, size: usize)
        requires
            old(self).wf(),
        ensures
            final(self).wf(),
            final(self)@ == (SigninView {
                id: TextInputView { left: window_left(old(self)@.id, size as nat), ..old(self)@.id },
                password: TextInputView {
                    left: window_left(old(self)@.password, size as nat),
                    ..old(self)@.password
                },
                ..old(self)@
            }),
    {
        self.id.adjust_window(size);
        self.password.adjust_window(size);
    }

    /// Who holds the focus, in the order in which it moves.
    pub fn focus_order(&self) -> (flags: Vec<bool>)
        ensures
            flags@ == signin_focus(self@),
    {
        let mut flags: Vec<bool> = Vec::new();
        flags.push(self.id.has_focus());
        flags.push(self.password.has_focus());
        flags.push(self.submit.has_focus());
        assert(flags@ =~= signin_focus(self@));
        flags
    }

    fn set_focus(&mut self, flags: &Vec<bool>)
        requires
            flags.len() == 3,
        ensures
            final(self)@ == with_focus(old(self)@, flags@),
    {
        self.id.set_focus(flags[0]);
        self.password.set_focus(flags[1]);
        self.submit.set_focus(flags[2]);
    }

    pub fn input(&mut self, input: &KeyEvent) -> (result: EventResult)
        requires
            old(self).wf(),
        ensures
            final(self)@ == signin_after(old(self)@, *input),
            input_ok(final(self)@.id),
            input_ok(final(self)@.password),
            result@ == signin_result(old(self)@, *input),
    {
        if let EventResult::Consumed(_) = self.id.key_event(input) {
            return EventResult::Consumed(Effect::Nothing);
        }
        if let EventResult::Consumed(_) = self.password.key_event(input) {
            return EventResult::Consumed(Effect::Nothing);
        }
        if let EventResult::Consumed(_) = self.submit.key_event(input) {
            return EventResult::Consumed(
                Effect::Login { id: self.id.value(), password: self.password.value() },
            );
        }
        match input.code {
            KeyCode::Enter | KeyCode::Tab | KeyCode::Down => {
                let mut flags = self.focus_order();
                focus_next(&mut flags);
                self.set_focus(&flags);
                EventResult::Consumed(Effect::Nothing)
            },
            KeyCode::BackTab | KeyCode::Up => {
                let mut flags = self.focus_order();
                focus_prev(&mut flags);
                self.set_focus(&flags);
                EventResult::Consumed(Effect::Nothing)
            },
            _ => EventResult::Ignored,
        }
    }

    pub fn widget(&self) -> (w: SigninWidget<'_>)
        ensures
            w.signin@ == self@,
    {
        SigninWidget { signin: self }
    }
}

/// The sign-in popup as it is drawn.
pub struct SigninWidget<'a> {
    pub signin: &'a Signin,
}

} // verus!
