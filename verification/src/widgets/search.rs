use crate::key::{KeyCode, KeyEvent};
use crate::text::{lowercase, to_lowercase};
use crate::widgets::textinput::{
    input_after, input_ok, input_takes, window_left, TextInput, TextInputView,
};
use crate::widgets::{closing, Effect, EffectView, EventResult, EventResultView};
use vstd::prelude::*;

verus! {

/// The popup into which a search term is typed.
pub struct Search {
    input: TextInput,
}

impl View for Search {
    type V = TextInputView;

    closed spec fn view(&self) -> TextInputView {
        self.input@
    }
}

/// The popup as it opens.
pub open spec fn search_start() -> TextInputView {
    TextInputView {
        title: "/"@,
        value: Seq::empty(),
        focused: true,
        password: false,
        cursor: 0,
        left: 0,
    }
}

/// What a key does to the popup: each key that the field takes searches
/// for what stands in the field then, in lower case; Esc ends the search
/// and closes the popup, Enter closes it and keeps the search.
pub open spec fn search_result(t: TextInputView, key: KeyEvent) -> EventResultView {
    if input_takes(t, key) {
        EventResultView::Consumed(EffectView::Search { term: lowercase(input_after(t, key).value) })
    } else {
        match key.code {
            KeyCode::Esc => EventResultView::Consumed(
                EffectView::SearchAndClose { term: Seq::empty() },
            ),
            KeyCode::Enter => closing(),
            _ => EventResultView::Ignored,
        }
    }
}

impl Search {
    pub open spec fn wf(&self) -> bool {
        input_ok(self@)
    }

    pub fn new() -> (s: Search)
        ensures
            s.wf(),
            s@ == search_start(),
    {
        Search { input: TextInput::new(String::from_str("/"), true, false) }
    }

    pub fn input(&self) -> (t: &TextInput)
        ensures
            t@ == self@,
    {
        &self.input
    }

    /// Moves the window of the field so that `size` columns show the
    /// cursor.
    pub fn adjust_window(&mut self, size: usize)
        requires
            old(self).wf(),
        ensures
            final(self).wf(),
            final(self)@ == (TextInputView { left: window_left(old(self)@, size as nat), ..old(self)@ }),
    {
        self.input.adjust_window(size);
    }

    pub fn key_event(&mut self, input: &KeyEvent) -> (result: EventResult)
        requires
            old(self).wf(),
        ensures
            final(self)@ == input_after(old(self)@, *input),
            input_ok(final(self)@),
            result@ == search_result(old(self)@, *input),
    {
        if let EventResult::Consumed(_) = self.input.key_event(input) {
            let value = self.input.value();
            return EventResult::Consumed(Effect::Search { term: to_lowercase(value.as_str()) });
        }
        match input.code {
            KeyCode::Esc => EventResult::Consumed(Effect::SearchAndClose { term: String::new() }),
            KeyCode::Enter => EventResult::Consumed(Effect::ClosePopup),
            _ => EventResult::Ignored,
        }
    }

    pub fn widget(&self) -> (w: SearchWidget<'_>)
        ensures
            w.search@ == self@,
    {
        SearchWidget { search: self }
    }
}

/// The search popup as it is drawn.
pub struct SearchWidget<'a> {
    pub search: &'a Search,
}

} // verus!
