use crate::key::{KeyCode, KeyEvent};
use crate::widgets::{consumed, Effect, EventResult, EventResultView, Focusable};
use vstd::prelude::*;

verus! {

/// A button: a label, and whether it holds the focus.
pub struct Button {
    label: String,
    focused: bool,
}

pub struct ButtonView {
    pub label: Seq<char>,
    pub focused: bool,
}

impl View for Button {
    type V = ButtonView;

    closed spec fn view(&self) -> ButtonView {
        ButtonView { label: self.label@, focused: self.focused }
    }
}

impl Focusable for Button {
    open spec fn is_focused(&self) -> bool {
        self@.focused
    }

    fn focused(&self) -> (b: bool) {
        self.focused
    }

    /// Gives the focus; nothing else changes.
    fn focus(&mut self)
        ensures
            final(self)@ == (ButtonView { focused: true, ..old(self)@ }),
    {
        self.focused = true;
    }

    /// Takes the focus; nothing else changes.
    fn defocus(&mut self)
        ensures
            final(self)@ == (ButtonView { focused: false, ..old(self)@ }),
    {
        self.focused = false;
    }
}

impl Button {
    pub fn new(label: String, focused: bool) -> (b: Button)
        ensures
            b@ == (ButtonView { label: label@, focused }),
    {
        Button { label, focused }
    }

    pub fn label(&self) -> (l: &str)
        ensures
            l@ == self@.label,
    {
        self.label.as_str()
    }

    /// Gives or takes the focus.
    pub fn set_focus(&mut self, focused: bool)
        ensures
            final(self)@ == (ButtonView { label: old(self)@.label, focused }),
    {
        self.focused = focused;
    }

    pub fn has_focus(&self) -> (b: bool)
        ensures
            b == self@.focused,
    {
        self.focused
    }

    /// A button takes Enter while it holds the focus, and nothing else.
    pub fn key_event(&mut self, input: &KeyEvent) -> (result: EventResult)
        ensures
            final(self)@ == old(self)@,
            result@ == if old(self)@.focused && input.code == KeyCode::Enter {
                consumed()
            } else {
                EventResultView::Ignored
            },
    {
        if self.focused && input.code == KeyCode::Enter {
            EventResult::Consumed(Effect::Nothing)
        } else {
            EventResult::Ignored
        }
    }

    pub fn widget(&self) -> (w: ButtonWidget<'_>)
        ensures
            w.button@ == self@,
    {
        ButtonWidget { button: self }
    }
}

/// A button as it is drawn.
pub struct ButtonWidget<'a> {
    pub button: &'a Button,
}

impl<'a> ButtonWidget<'a> {
    /// The width that the label asks for.
    pub fn label_width(&self) -> (w: usize)
        ensures
            w == self.button@.label.len(),
    {
        self.button.label.as_str().unicode_len()
    }
}

} // verus!
