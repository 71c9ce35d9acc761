//! Key presses as the widgets read them.

use vstd::prelude::*;

verus! {

/// The key that was pressed. `Other` stands for every key that no widget
/// reads.
#[derive(Clone, Copy, Debug, PartialEq, Eq, Structural)]
pub enum KeyCode {
    Char(char),
    Enter,
    Esc,
    Up,
    Down,
    Left,
    Right,
    Tab,
    BackTab,
    Backspace,
    Other,
}

/// The modifier keys that were held: none, shift alone, control alone, or
/// anything else.
#[derive(Clone, Copy, Debug, PartialEq, Eq, Structural)]
pub enum Modifiers {
    Plain,
    Shift,
    Control,
    Other,
}

#[derive(Clone, Copy, Debug, PartialEq, Eq, Structural)]
pub struct KeyEvent {
    pub code: KeyCode,
    pub modifiers: Modifiers,
}

impl KeyEvent {
    pub fn new(code: KeyCode, modifiers: Modifiers) -> (key: KeyEvent)
        ensures
            key == (KeyEvent { code, modifiers }),
    {
        KeyEvent { code, modifiers }
    }

    /// Whether the key is the character `c`, whatever else is held.
    pub fn is_char(&self, c: char) -> (b: bool)
        ensures
            b == (self.code == KeyCode::Char(c)),
    {
        match self.code {
            KeyCode::Char(d) => d == c,
            _ => false,
        }
    }
}

} // verus!
