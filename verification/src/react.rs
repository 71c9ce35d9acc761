//! The list from which a reaction is chosen.

use crate::emoji::{center_emoji, centered, emoji_entry, lookup_emoji, opt_entry, EmojiEntry, EmojiEntryView};
use crate::key::{KeyCode, KeyEvent};
use crate::text::{contains_string, copy_strings};
use crate::views::{group_views, views};
use vstd::prelude::*;

verus! {

broadcast use group_views;

/// What a key did to the list of reactions.
pub enum ReactResult {
    /// Send this reaction.
    SelectReaction(String),
    /// Take this reaction back.
    RemoveReaction(String),
    /// Close the list.
    Exit,
    Consumed,
    Ignored,
}

pub enum ReactResultView {
    SelectReaction(Seq<char>),
    RemoveReaction(Seq<char>),
    Exit,
    Consumed,
    Ignored,
}

impl View for ReactResult {
    type V = ReactResultView;

    open spec fn view(&self) -> ReactResultView {
        match *self {
            ReactResult::SelectReaction(r) => ReactResultView::SelectReaction(r@),
            ReactResult::RemoveReaction(r) => ReactResultView::RemoveReaction(r@),
            ReactResult::Exit => ReactResultView::Exit,
            ReactResult::Consumed => ReactResultView::Consumed,
            ReactResult::Ignored => ReactResultView::Ignored,
        }
    }
}

/// One entry of the list: the emoji and the line that stands for it.
pub struct Choice {
    pub emoji: String,
    pub description: String,
}

pub struct ChoiceView {
    pub emoji: Seq<char>,
    pub description: Seq<char>,
}

impl View for Choice {
    type V = ChoiceView;

    open spec fn view(&self) -> ChoiceView {
        ChoiceView { emoji: self.emoji@, description: self.description@ }
    }
}

/// The line for an emoji: the emoji, centred, and its shortcode, or its
/// name where it has no shortcode; the emoji alone where the emoji table
/// does not hold it.
pub open spec fn described(emoji: Seq<char>, entry: Option<EmojiEntryView>) -> Seq<char> {
    match entry {
        Some(e) => centered(emoji) + " "@ + match e.shortcode {
            Some(code) => code,
            None => e.name,
        },
        None => centered(emoji),
    }
}

/// The entry for an emoji.
pub open spec fn choice(emoji: Seq<char>) -> ChoiceView {
    ChoiceView { emoji, description: described(emoji, emoji_entry(emoji)) }
}

/// Holds of the emojis that are not among `taken`.
pub open spec fn not_among(taken: Seq<Seq<char>>) -> spec_fn(Seq<char>) -> bool {
    |e: Seq<char>| !taken.contains(e)
}

/// The emojis on offer: those on the message already, then the usual ones
/// that are not among them.
pub open spec fn offered(additions: Seq<Seq<char>>, usual: Seq<Seq<char>>) -> Seq<Seq<char>> {
    additions + usual.filter(not_among(additions))
}

/// The list of reactions with one entry selected.
pub struct React {
    reactions: Vec<Choice>,
    existing: Vec<String>,
    selected: usize,
}

pub struct ReactView {
    pub reactions: Seq<ChoiceView>,
    pub existing: Seq<Seq<char>>,
    pub selected: nat,
}

impl View for React {
    type V = ReactView;

    closed spec fn view(&self) -> ReactView {
        ReactView {
            reactions: views(self.reactions@),
            existing: views(self.existing@),
            selected: self.selected as nat,
        }
    }
}

/// The list after a key: the arrow keys and `j`, `k` move the selection
/// within the list.
pub open spec fn react_after(r: ReactView, key: KeyEvent) -> ReactView {
    match key.code {
        KeyCode::Char('k') | KeyCode::Up => ReactView {
            selected: if r.selected == 0 {
                0
            } else {
                (r.selected - 1) as nat
            },
            ..r
        },
        KeyCode::Char('j') | KeyCode::Down => ReactView {
            selected: if r.selected + 1 >= r.reactions.len() {
                if r.reactions.len() == 0 {
                    0
                } else {
                    (r.reactions.len() - 1) as nat
                }
            } else {
                r.selected + 1
            },
            ..r
        },
        _ => r,
    }
}

/// What a key asks for: Enter sends the selected reaction, or takes it back
/// if the user has sent it already; Esc closes the list.
pub open spec fn react_result(r: ReactView, key: KeyEvent) -> ReactResultView {
    match key.code {
        KeyCode::Char('k') | KeyCode::Up | KeyCode::Char('j') | KeyCode::Down => ReactResultView::Consumed,
        KeyCode::Esc => ReactResultView::Exit,
        KeyCode::Enter => {
            if r.selected < r.reactions.len() {
                let emoji = r.reactions[r.selected as int].emoji;
                if r.existing.contains(emoji) {
                    ReactResultView::RemoveReaction(emoji)
                } else {
                    ReactResultView::SelectReaction(emoji)
                }
            } else {
                ReactResultView::Exit
            }
        },
        _ => ReactResultView::Ignored,
    }
}

/// The entry for an emoji, given what the emoji table holds for it.
pub fn describe(emoji: &str, entry: &Option<EmojiEntry>) -> (text: String)
    ensures
        text@ == described(emoji@, opt_entry(*entry)),
{
    let mut text = center_emoji(emoji);
    if let Some(e) = entry {
        text.append(" ");
        match &e.shortcode {
            Some(code) => text.append(code.as_str()),
            None => text.append(e.name.as_str()),
        }
    }
    text
}

impl React {
    /// The list for a message: `additions` are the reactions that the
    /// message has, `existing` those of them that the user sent, `usual`
    /// the reactions that are always on offer.
    pub fn new(additions: Vec<String>, existing: Vec<String>, usual: &Vec<String>) -> (r: React)
        ensures
            r@.existing == views(existing@),
            r@.selected == 0,
            r@.reactions == Seq::new(
                offered(views(additions@), views(usual@)).len(),
                |i: int| choice(offered(views(additions@), views(usual@))[i]),
            ),
    {
        let ghost given = views(additions@);
        let ghost wanted = offered(views(additions@), views(usual@));
        let mut emojis = copy_strings(&additions);
        let mut i: usize = 0;
        proof {
            reveal(Seq::filter);
            assert(views(usual@).take(0).filter(not_among(given)) == Seq::<Seq<char>>::empty());
        }
        while i < usual.len()
            invariant
                i <= usual.len(),
                given == views(additions@),
                views(emojis@) == given + views(usual@).take(i as int).filter(not_among(given)),
            decreases usual.len() - i,
        {
            proof {
                let u = views(usual@);
                assert(u.take(i + 1) == u.take(i as int).push(u[i as int]));
                u.take(i as int).lemma_filter_push(u[i as int], not_among(given));
            }
            if !contains_string(&additions, usual[i].as_str()) {
                emojis.push(usual[i].clone());
            }
            i += 1;
        }
        assert(views(usual@).take(usual.len() as int) == views(usual@));
        let mut reactions: Vec<Choice> = Vec::new();
        let mut k: usize = 0;
        while k < emojis.len()
            invariant
                k <= emojis.len(),
                wanted == views(emojis@),
                views(reactions@) == Seq::new(k as nat, |i: int| choice(wanted[i])),
            decreases emojis.len() - k,
        {
            let entry = lookup_emoji(emojis[k].as_str());
            let description = describe(emojis[k].as_str(), &entry);
            reactions.push(Choice { emoji: emojis[k].clone(), description });
            assert(views(reactions@) =~= Seq::new((k + 1) as nat, |i: int| choice(wanted[i])));
            k += 1;
        }
        React { reactions, existing, selected: 0 }
    }

    /// The emoji of the selected entry.
    pub fn selected_reaction(&self) -> (emoji: Option<String>)
        ensures
            match emoji {
                Some(e) => self@.selected < self@.reactions.len() && e@
                    == self@.reactions[self@.selected as int].emoji,
                None => self@.selected >= self@.reactions.len(),
            },
    {
        if self.selected < self.reactions.len() {
            Some(self.reactions[self.selected].emoji.clone())
        } else {
            None
        }
    }

    pub fn key_event(&mut self, input: &KeyEvent) -> (result: ReactResult)
        ensures
            final(self)@ == react_after(old(self)@, *input),
            result@ == react_result(old(self)@, *input),
    {
        match input.code {
            KeyCode::Char('k') | KeyCode::Up => {
                if self.selected > 0 {
                    self.selected -= 1;
                }
                ReactResult::Consumed
            },
            KeyCode::Char('j') | KeyCode::Down => {
                if self.reactions.len() == 0 {
                    self.selected = 0;
                } else if self.selected >= self.reactions.len() - 1 {
                    self.selected = self.reactions.len() - 1;
                } else {
                    self.selected += 1;
                }
                ReactResult::Consumed
            },
            KeyCode::Esc => ReactResult::Exit,
            KeyCode::Enter => {
                match self.selected_reaction() {
                    Some(emoji) => {
                        if contains_string(&self.existing, emoji.as_str()) {
                            ReactResult::RemoveReaction(emoji)
                        } else {
                            ReactResult::SelectReaction(emoji)
                        }
                    },
                    None => ReactResult::Exit,
                }
            },
            _ => ReactResult::Ignored,
        }
    }

    /// The lines of the list, in order.
    pub fn descriptions(&self) -> (lines: Vec<String>)
        ensures
            views(lines@) == Seq::new(
                self@.reactions.len(),
                |i: int| self@.reactions[i].description,
            ),
    {
        let mut lines: Vec<String> = Vec::new();
        let mut i: usize = 0;
        while i < self.reactions.len()
            invariant
                i <= self.reactions.len(),
                views(lines@) == Seq::new(i as nat, |k: int| self@.reactions[k].description),
            decreases self.reactions.len() - i,
        {
            lines.push(self.reactions[i].description.clone());
            assert(views(lines@) =~= Seq::new(
                (i + 1) as nat,
                |k: int| self@.reactions[k].description,
            ));
            i += 1;
        }
        lines
    }

    /// The index of the selected entry.
    pub fn selected(&self) -> (i: usize)
        ensures
            i == self@.selected,
    {
        self.selected
    }

    /// The title of the list: it says what Enter will do.
    pub fn title(&self) -> (title: &'static str)
        ensures
            title@ == if react_result(self@, KeyEvent { code: KeyCode::Enter, modifiers: crate::key::Modifiers::Plain })
                is RemoveReaction {
                "Remove Reaction"@
            } else {
                "Add Reaction"@
            },
    {
        if self.selected < self.reactions.len() && contains_string(
            &self.existing,
            self.reactions[self.selected].emoji.as_str(),
        ) {
            "Remove Reaction"
        } else {
            "Add Reaction"
        }
    }
}

} // verus!
