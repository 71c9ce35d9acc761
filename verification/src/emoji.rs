//! Emojis: their names, and how they are laid out in a terminal.

use crate::username::opt_text;
use crate::views::{group_views, views};
use vstd::prelude::*;
use vstd::string::StringExecFns;

verus! {

broadcast use group_views;

/// What the emoji table holds for one emoji.
pub struct EmojiEntry {
    /// The CLDR name.
    pub name: String,
    /// The first GitHub shortcode, for the emojis that have one.
    pub shortcode: Option<String>,
}

pub struct EmojiEntryView {
    pub name: Seq<char>,
    pub shortcode: Option<Seq<char>>,
}

impl View for EmojiEntry {
    type V = EmojiEntryView;

    open spec fn view(&self) -> EmojiEntryView {
        EmojiEntryView { name: self.name@, shortcode: opt_text(self.shortcode) }
    }
}

/// The view of an optional table entry.
pub open spec fn opt_entry(entry: Option<EmojiEntry>) -> Option<EmojiEntryView> {
    match entry {
        Some(e) => Some(e@),
        None => None,
    }
}

/// The entry of the emoji table for a text, if the text is an emoji: what
/// `emojis::get` finds for it.
pub uninterp spec fn emoji_entry(emoji: Seq<char>) -> Option<EmojiEntryView>;

/// `emojis::get`: looks a text up in the table of Unicode emojis and hands
/// back the name and first shortcode of the emoji found.
#[verifier::external_body]
pub(crate) fn lookup_emoji(emoji: &str) -> (entry: Option<EmojiEntry>)
    ensures
        opt_entry(entry) == emoji_entry(emoji@),
{
    match emojis::get(emoji) {
        Some(e) => Some(
            EmojiEntry { name: String::from(e.name()), shortcode: e.shortcode().map(String::from) },
        ),
        None => None,
    }
}

/// The variation selector that asks for the coloured glyph.
pub open spec fn selector() -> char {
    '\u{fe0f}'
}

/// The emojis that terminals draw too narrow: a symbol of the text range
/// followed by the variation selector.
pub open spec fn drawn_narrow(emoji: Seq<char>) -> bool {
    &&& emoji.len() == 2
    &&& emoji[1] == selector()
    &&& (emoji[0] == '\u{2601}' || emoji[0] == '\u{2764}' || emoji[0] == '\u{2602}' || emoji[0]
        == '\u{270f}' || emoji[0] == '\u{2702}' || emoji[0] == '\u{260e}' || emoji[0] == '\u{2708}'
        || emoji[0] == '\u{203c}')
}

/// An emoji as it is printed: with one space behind it where a terminal
/// would otherwise draw over the next cell.
pub open spec fn padded(emoji: Seq<char>) -> Seq<char> {
    if drawn_narrow(emoji) {
        emoji.push(' ')
    } else {
        emoji
    }
}

/// An emoji in the middle of a cell six columns wide.
pub open spec fn centered(emoji: Seq<char>) -> Seq<char> {
    "  "@ + padded(emoji) + "  "@
}

/// The emojis of `symbols`, each centred, one after the other.
pub open spec fn centered_all(symbols: Seq<Seq<char>>) -> Seq<char>
    decreases symbols.len(),
{
    if symbols.len() == 0 {
        Seq::empty()
    } else {
        centered_all(symbols.drop_last()) + centered(symbols.last())
    }
}

pub fn pad_emoji(emoji: &str) -> (out: String)
    ensures
        out@ == padded(emoji@),
{
    let chars = crate::text::chars_of(emoji);
    let mut out = String::from_str(emoji);
    if chars.len() == 2 && chars[1] == '\u{fe0f}' {
        let c = chars[0];
        if c == '\u{2601}' || c == '\u{2764}' || c == '\u{2602}' || c == '\u{270f}' || c
            == '\u{2702}' || c == '\u{260e}' || c == '\u{2708}' || c == '\u{203c}' {
            crate::text::push_char(&mut out, ' ');
        }
    }
    out
}

pub fn center_emoji(emoji: &str) -> (out: String)
    ensures
        out@ == centered(emoji@),
{
    let mut out = String::from_str("  ");
    let inner = pad_emoji(emoji);
    out.append(inner.as_str());
    out.append("  ");
    out
}

/// The line of emojis shown when two devices compare their keys.
pub fn format_emojis(symbols: &Vec<String>) -> (out: String)
    ensures
        out@ == centered_all(views(symbols@)),
{
    let mut out = String::new();
    let mut i: usize = 0;
    while i < symbols.len()
        invariant
            i <= symbols.len(),
            out@ == centered_all(views(symbols@.take(i as int))),
        decreases symbols.len() - i,
    {
        let cell = center_emoji(symbols[i].as_str());
        out.append(cell.as_str());
        assert(symbols@.take(i + 1).drop_last() == symbols@.take(i as int));
        i += 1;
    }
    assert(symbols@.take(symbols.len() as int) == symbols@);
    out
}

} // verus!
