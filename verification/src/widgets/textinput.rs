use crate::key::{KeyCode, KeyEvent, Modifiers};
use crate::text::{chars_of, string_of};
use crate::widgets::{consumed, Effect, EventResult, EventResultView, Focusable};
use vstd::prelude::*;

verus! {

/// A line of text that is typed into, with a cursor and a window that
/// follows the cursor where the line is longer than the field.
pub struct TextInput {
    title: String,
    value: Vec<char>,
    focused: bool,
    password: bool,
    cursor: usize,
    left: usize,
}

pub struct TextInputView {
    pub title: Seq<char>,
    pub value: Seq<char>,
    pub focused: bool,
    pub password: bool,
    pub cursor: nat,
    pub left: nat,
}

impl View for TextInput {
    type V = TextInputView;

    closed spec fn view(&self) -> TextInputView {
        TextInputView {
            title: self.title@,
            value: self.value@,
            focused: self.focused,
            password: self.password,
            cursor: self.cursor as nat,
            left: self.left as nat,
        }
    }
}

/// The cursor stands in the text or behind it, and the text has room for
/// the block that marks the cursor.
pub open spec fn input_ok(t: TextInputView) -> bool {
    t.cursor <= t.value.len() < usize::MAX
}

/// The field after the character `c` was typed at the cursor. A text of
/// the greatest length that the machine can hold takes no more.
pub open spec fn typed(t: TextInputView, c: char) -> TextInputView {
    if t.value.len() + 1 < usize::MAX {
        TextInputView { value: t.value.insert(t.cursor as int, c), cursor: t.cursor + 1, ..t }
    } else {
        t
    }
}

/// The field after the character before the cursor was deleted.
pub open spec fn erased(t: TextInputView) -> TextInputView {
    if t.cursor == 0 || t.value.len() == 0 {
        t
    } else {
        TextInputView {
            value: t.value.remove(t.cursor - 1),
            cursor: (t.cursor - 1) as nat,
            left: if t.left > 0 {
                (t.left - 1) as nat
            } else {
                0
            },
            ..t
        }
    }
}

/// The field after the cursor went one to the left.
pub open spec fn went_left(t: TextInputView) -> TextInputView {
    let cursor: nat = if t.cursor > 0 {
        (t.cursor - 1) as nat
    } else {
        0
    };
    TextInputView {
        cursor,
        left: if cursor < t.left {
            cursor
        } else {
            t.left
        },
        ..t
    }
}

/// The field after the cursor went one to the right.
pub open spec fn went_right(t: TextInputView) -> TextInputView {
    if t.cursor < t.value.len() {
        TextInputView { cursor: t.cursor + 1, ..t }
    } else {
        t
    }
}

/// Whether the field takes the key: it holds the focus, and nothing but
/// shift is held with the key.
pub open spec fn listens(t: TextInputView, key: KeyEvent) -> bool {
    t.focused && (key.modifiers == Modifiers::Plain || key.modifiers == Modifiers::Shift)
}

/// The field after a key.
pub open spec fn input_after(t: TextInputView, key: KeyEvent) -> TextInputView {
    if !listens(t, key) {
        t
    } else {
        match key.code {
            KeyCode::Char(c) => typed(t, c),
            KeyCode::Backspace => erased(t),
            KeyCode::Left => went_left(t),
            KeyCode::Right => went_right(t),
            _ => t,
        }
    }
}

/// Whether the field takes the key.
pub open spec fn input_takes(t: TextInputView, key: KeyEvent) -> bool {
    listens(t, key) && (key.code is Char || key.code == KeyCode::Backspace || key.code
        == KeyCode::Left || key.code == KeyCode::Right)
}

/// The text as it is drawn: stars for a password, and a block where the
/// cursor stands if the field holds the focus.
pub open spec fn display_text(t: TextInputView) -> Seq<char> {
    let shown = if t.password {
        Seq::new(t.value.len(), |i: int| '*')
    } else {
        t.value
    };
    if !t.focused {
        shown
    } else if t.cursor >= t.value.len() {
        shown.push('█')
    } else {
        shown.update(t.cursor as int, '█')
    }
}

/// The left end of the window after the field was given `size` columns.
pub open spec fn window_left(t: TextInputView, size: nat) -> nat {
    if t.value.len() <= size {
        0
    } else if t.cursor >= t.left + size {
        (t.cursor - size + 1) as nat
    } else if t.left >= t.value.len() - size {
        (t.value.len() - size + 1) as nat
    } else {
        t.left
    }
}

/// What is drawn of the text: the text from the left end of the window on.
pub open spec fn adjusted_text(t: TextInputView) -> Seq<char> {
    let shown = display_text(t);
    if t.left == 0 {
        shown
    } else if t.left <= shown.len() {
        shown.skip(t.left as int)
    } else {
        Seq::empty()
    }
}

impl Focusable for TextInput {
    open spec fn is_focused(&self) -> bool {
        self@.focused
    }

    fn focused(&self) -> (b: bool) {
        self.focused
    }

    /// Gives the focus; nothing else changes.
    fn focus(&mut self)
        ensures
            final(self)@ == (TextInputView { focused: true, ..old(self)@ }),
    {
        self.focused = true;
    }

    /// Takes the focus; nothing else changes.
    fn defocus(&mut self)
        ensures
            final(self)@ == (TextInputView { focused: false, ..old(self)@ }),
    {
        self.focused = false;
    }
}

impl TextInput {
    pub open spec fn wf(&self) -> bool {
        input_ok(self@)
    }

    pub fn new(title: String, focused: bool, password: bool) -> (t: TextInput)
        ensures
            t.wf(),
            t@ == (TextInputView {
                title: title@,
                value: Seq::empty(),
                focused,
                password,
                cursor: 0,
                left: 0,
            }),
    {
        TextInput { title, value: Vec::new(), focused, password, cursor: 0, left: 0 }
    }

    pub fn title(&self) -> (s: &str)
        ensures
            s@ == self@.title,
    {
        self.title.as_str()
    }

    pub fn has_focus(&self) -> (b: bool)
        ensures
            b == self@.focused,
    {
        self.focused
    }

    /// Gives or takes the focus.
    pub fn set_focus(&mut self, focused: bool)
        ensures
            final(self)@ == (TextInputView { focused, ..old(self)@ }),
    {
        self.focused = focused;
    }

    /// What was typed.
    pub fn value(&self) -> (s: String)
        ensures
            s@ == self@.value,
    {
        let s = string_of(&self.value, 0, self.value.len());
        assert(self.value@.subrange(0, self.value.len() as int) == self.value@);
        s
    }

    pub fn key_event(&mut self, input: &KeyEvent) -> (result: EventResult)
        requires
            old(self).wf(),
        ensures
            final(self).wf(),
            final(self)@ == input_after(old(self)@, *input),
            result@ == if input_takes(old(self)@, *input) {
                consumed()
            } else {
                EventResultView::Ignored
            },
    {
        if !self.focused {
            return EventResult::Ignored;
        }
        match input.modifiers {
            Modifiers::Plain | Modifiers::Shift => {},
            _ => {
                return EventResult::Ignored;
            },
        }
        match input.code {
            KeyCode::Char(c) => {
                self.append_char(c);
                EventResult::Consumed(Effect::Nothing)
            },
            KeyCode::Backspace => {
                self.backspace();
                EventResult::Consumed(Effect::Nothing)
            },
            KeyCode::Left => {
                self.move_left();
                EventResult::Consumed(Effect::Nothing)
            },
            KeyCode::Right => {
                self.move_right();
                EventResult::Consumed(Effect::Nothing)
            },
            _ => EventResult::Ignored,
        }
    }

    /// Types a character at the cursor.
    pub fn append_char(&mut self, ch: char)
        requires
            old(self).wf(),
        ensures
            final(self).wf(),
            final(self)@ == typed(old(self)@, ch),
    {
        if self.value.len() < usize::MAX - 1 {
            self.value.insert(self.cursor, ch);
            self.cursor += 1;
        }
    }

    pub fn move_right(&mut self)
        requires
            old(self).wf(),
        ensures
            final(self).wf(),
            final(self)@ == went_right(old(self)@),
    {
        if self.cursor < self.value.len() {
            self.cursor += 1;
        }
    }

    /// Deletes the character before the cursor.
    pub fn backspace(&mut self)
        requires
            old(self).wf(),
        ensures
            final(self).wf(),
            final(self)@ == erased(old(self)@),
    {
        if self.cursor == 0 || self.value.len() == 0 {
            return ;
        }
        self.value.remove(self.cursor - 1);
        self.cursor -= 1;
        if self.left > 0 {
            self.left -= 1;
        }
    }

    pub fn move_left(&mut self)
        requires
            old(self).wf(),
        ensures
            final(self).wf(),
            final(self)@ == went_left(old(self)@),
    {
        if self.cursor > 0 {
            self.cursor -= 1;
        }
        if self.cursor < self.left {
            self.left = self.cursor;
        }
    }

    /// The text as it is drawn: see `display_text`.
    pub fn display_value(&self) -> (s: String)
        requires
            self.wf(),
        ensures
            s@ == display_text(self@),
    {
        let mut shown: Vec<char> = Vec::new();
        let mut i: usize = 0;
        while i < self.value.len()
            invariant
                i <= self.value.len(),
                shown.len() == i,
                forall|j: int|
                    0 <= j < i ==> shown@[j] == if self.password {
                        '*'
                    } else {
                        self.value@[j]
                    },
            decreases self.value.len() - i,
        {
            shown.push(
                if self.password {
                    '*'
                } else {
                    self.value[i]
                },
            );
            i += 1;
        }
        let ghost plain = if self.password {
            Seq::new(self.value@.len(), |i: int| '*')
        } else {
            self.value@
        };
        assert(shown@ =~= plain);
        if self.focused {
            if self.cursor >= self.value.len() {
                shown.push('█');
            } else {
                shown.set(self.cursor, '█');
            }
        }
        let s = string_of(&shown, 0, shown.len());
        assert(shown@.subrange(0, shown.len() as int) == shown@);
        s
    }

    /// Moves the window so that a field of `size` columns shows the cursor.
    pub fn adjust_window(&mut self, size: usize)
        requires
            old(self).wf(),
        ensures
            final(self).wf(),
            final(self)@ == (TextInputView { left: window_left(old(self)@, size as nat), ..old(self)@ }),
    {
        if self.value.len() <= size {
            self.left = 0;
        } else if self.cursor >= size && self.cursor - size >= self.left {
            self.left = self.cursor - size + 1;
        } else if self.left >= self.value.len() - size {
            self.left = self.value.len() - size + 1;
        }
    }

    /// What is drawn of the text: see `adjusted_text`.
    pub fn adjusted_value(&self) -> (s: String)
        requires
            self.wf(),
        ensures
            s@ == adjusted_text(self@),
    {
        let shown = self.display_value();
        if self.left == 0 {
            return shown;
        }
        let chars = chars_of(shown.as_str());
        if self.left <= chars.len() {
            string_of(&chars, self.left, chars.len())
        } else {
            String::new()
        }
    }

    pub fn widget(&self) -> (w: TextInputWidget<'_>)
        ensures
            w.textinput@ == self@,
    {
        TextInputWidget { textinput: self }
    }
}

/// A text field as it is drawn.
pub struct TextInputWidget<'a> {
    pub textinput: &'a TextInput,
}

} // verus!
