use crate::key::KeyEvent;
use crate::widgets::button::{Button, ButtonView};
use crate::widgets::{closing, Effect, EventResult};
use vstd::prelude::*;

verus! {

/// A popup with a message and one button.
pub struct Error {
    heading: String,
    message: String,
    button: Button,
}

pub struct ErrorView {
    pub heading: Seq<char>,
    pub message: Seq<char>,
    pub button: ButtonView,
}

impl View for Error {
    type V = ErrorView;

    closed spec fn view(&self) -> ErrorView {
        ErrorView { heading: self.heading@, message: self.message@, button: self.button@ }
    }
}

impl Error {
    /// A popup headed "Error".
    pub fn new(message: String) -> (e: Error)
        ensures
            e@ == (ErrorView {
                heading: "Error"@,
                message: message@,
                button: ButtonView { label: "OK"@, focused: true },
            }),
    {
        Error {
            heading: String::from_str("Error"),
            message,
            button: Button::new(String::from_str("OK"), true),
        }
    }

    /// A popup with a heading of its own.
    pub fn with_heading(heading: String, message: String) -> (e: Error)
        ensures
            e@ == (ErrorView {
                heading: heading@,
                message: message@,
                button: ButtonView { label: "OK"@, focused: true },
            }),
    {
        Error { heading, message, button: Button::new(String::from_str("OK"), true) }
    }

    pub fn heading(&self) -> (s: &str)
        ensures
            s@ == self@.heading,
    {
        self.heading.as_str()
    }

    pub fn message(&self) -> (s: &str)
        ensures
            s@ == self@.message,
    {
        self.message.as_str()
    }

    pub fn button(&self) -> (b: &Button)
        ensures
            b@ == self@.button,
    {
        &self.button
    }

    /// Any key closes the popup.
    pub fn key_event(&mut self, input: &KeyEvent) -> (result: EventResult)
        ensures
            final(self)@ == old(self)@,
            result@ == closing(),
    {
        EventResult::Consumed(Effect::ClosePopup)
    }

    pub fn widget(&self) -> (w: ErrorWidget<'_>)
        ensures
            w.error@ == self@,
    {
        ErrorWidget { error: self }
    }
}

/// An error popup as it is drawn.
pub struct ErrorWidget<'a> {
    pub error: &'a Error,
}

} // verus!
