//! Messages as lines of text with a tone each: what is drawn of a message,
//! before any colour is chosen.

use crate::display::{
    age, ago_text, message_text, shown_height, without_header, wrap, wrapped, wrapped_text,
};
use crate::emoji::emoji_entry;
use crate::event::{BodyView, MessageBody};
use crate::layout::{lines_below, narrower, row_for, rows_down, rows_down_all, RowView};
use crate::message::{lemma_replies_view, Message, MessageView};
use crate::reaction::{displayed, senders_text, ReactionView};
use crate::text::{first_word, first_word_of, limit_list, limited, pretty, pretty_list, trim, trimmed};
use crate::username::{shown, UsernameView};
use crate::views::{group_views, views};
use vstd::prelude::*;

verus! {

broadcast use group_views;

/// The part that a piece of text plays in a message.
#[derive(Clone, Copy, Debug, PartialEq, Eq, Structural)]
pub enum Tone {
    Plain,
    /// The name of the sender.
    Author,
    /// What is of less weight: times, receipts, reactions.
    Faint,
    /// What asks for attention: that a message was edited or cut short.
    Alert,
    /// The text of a message that is an attachment.
    Attachment,
    /// The line that joins a reply to its message.
    Pipe,
}

/// A piece of text with its tone.
pub struct Span {
    pub text: String,
    pub tone: Tone,
}

pub struct SpanView {
    pub text: Seq<char>,
    pub tone: Tone,
}

impl View for Span {
    type V = SpanView;

    open spec fn view(&self) -> SpanView {
        SpanView { text: self.text@, tone: self.tone }
    }
}

/// The views of the lines `v`.
pub open spec fn line_views(v: Seq<Vec<Span>>) -> Seq<Seq<SpanView>> {
    Seq::new(v.len(), |i: int| views(v[i]@))
}

/// A line of one piece.
pub open spec fn one(text: Seq<char>, tone: Tone) -> Seq<SpanView> {
    seq![SpanView { text, tone }]
}

/// The line that names the sender and says how old the message is, and
/// that it was edited if it was.
pub open spec fn author_line(m: MessageView, now: u64) -> Seq<SpanView> {
    seq![
        SpanView { text: shown(m.sender), tone: Tone::Author },
        SpanView { text: " "@, tone: Tone::Plain },
        SpanView { text: ago_text(age(m, now)), tone: Tone::Faint },
    ] + if m.history.len() > 0 {
        one(" (edited)"@, Tone::Alert)
    } else {
        Seq::<SpanView>::empty()
    }
}

/// The tone of the text of a message.
pub open spec fn body_tone(body: BodyView) -> Tone {
    if body is Text {
        Tone::Plain
    } else {
        Tone::Attachment
    }
}

/// The first `n` lines of a wrapped text, ten at most, each trimmed.
pub open spec fn text_lines(lines: Seq<Seq<char>>, tone: Tone, n: nat) -> Seq<Seq<SpanView>>
    decreases n,
{
    if n == 0 || n > lines.len() || n > 10 {
        Seq::empty()
    } else {
        text_lines(lines, tone, (n - 1) as nat).push(one(trimmed(lines[n - 1]), tone))
    }
}

/// The smaller of two numbers.
pub open spec fn least(a: nat, b: nat) -> nat {
    if a < b {
        a
    } else {
        b
    }
}

/// The first words of the names of the first `n` readers.
pub open spec fn reader_words(receipts: Seq<UsernameView>, n: nat) -> Seq<Seq<char>>
    decreases n,
{
    if n == 0 || n > receipts.len() {
        Seq::empty()
    } else {
        reader_words(receipts, (n - 1) as nat).push(first_word(shown(receipts[n - 1])))
    }
}

/// The line that says who has read the message: four names at most, then
/// how many others.
pub open spec fn seen_line(receipts: Seq<UsernameView>) -> Seq<SpanView> {
    one(
        "Seen by "@ + pretty(
            limited(reader_words(receipts, receipts.len()), 4, receipts.len(), None),
        ) + "."@,
        Tone::Faint,
    )
}

/// The lines of the first `n` reactions, five at most.
pub open spec fn reaction_rows(rs: Seq<ReactionView>, n: nat) -> Seq<Seq<SpanView>>
    decreases n,
{
    if n == 0 || n > rs.len() || n > 5 {
        Seq::empty()
    } else {
        reaction_rows(rs, (n - 1) as nat).push(
            one(
                displayed(rs[n - 1].body, emoji_entry(rs[n - 1].body)) + " "@ + senders_text(
                    rs[n - 1].events,
                ),
                Tone::Faint,
            ),
        )
    }
}

/// The lines of a message without its replies, from the top: a blank line,
/// the sender, at most ten lines of the text `body` wrapped at `width`, a
/// warning where text or reactions are left out, the readers, and at most
/// five reactions.
pub open spec fn own_lines(m: MessageView, body: Seq<char>, width: nat, now: u64) -> Seq<Seq<SpanView>> {
    let lines = wrapped(body, width, Seq::empty(), Seq::empty());
    seq![one(" "@, Tone::Plain), author_line(m, now)] + text_lines(
        lines,
        body_tone(m.body),
        least(lines.len(), 10),
    ) + (if lines.len() > 10 || m.reactions.len() > 5 {
        seq![one("* overflow: type \"v\" to view entire message"@, Tone::Alert)]
    } else {
        Seq::empty()
    }) + (if m.receipts.len() > 0 {
        seq![seen_line(m.receipts)]
    } else {
        Seq::empty()
    }) + reaction_rows(m.reactions, least(m.reactions.len(), 5))
}

/// The lines `lines` behind the line that joins a reply to its message: it
/// starts with a hook on the first line of the first reply.
pub open spec fn indented(lines: Seq<Seq<SpanView>>, first: bool) -> Seq<Seq<SpanView>> {
    Seq::new(
        lines.len(),
        |k: int|
            one(
                if k == 0 {
                    if first {
                        "╷"@
                    } else {
                        "│"@
                    }
                } else {
                    "│ "@
                },
                Tone::Pipe,
            ) + lines[k],
    )
}

/// The lines of a message and of its replies below it, from the top. The
/// text `body` is what is shown of the message.
pub open spec fn lines_of(m: MessageView, body: Seq<char>, width: nat, now: u64) -> Seq<Seq<SpanView>>
    decreases m, 0nat,
{
    own_lines(m, body, width, now) + reply_lines(m.replies, width, now, m.replies.len())
}

/// The lines of the first `n` replies, each indented and without the
/// quotation at its head.
pub open spec fn reply_lines(rs: Seq<MessageView>, width: nat, now: u64, n: nat) -> Seq<Seq<SpanView>>
    decreases rs, n,
{
    if n == 0 || n > rs.len() {
        Seq::empty()
    } else {
        reply_lines(rs, width, now, (n - 1) as nat) + indented(
            lines_of(rs[n - 1], without_header(message_text(rs[n - 1])), narrower(width), now),
            n == 1,
        )
    }
}

/// A message without its replies takes as many lines as `shown_height`
/// says.
pub proof fn lemma_own_lines_height(m: MessageView, body: Seq<char>, width: nat, now: u64)
    ensures
        own_lines(m, body, width, now).len() == shown_height(
            wrapped(body, width, Seq::empty(), Seq::empty()).len(),
            m.receipts.len(),
            m.reactions.len(),
        ),
{
    let lines = wrapped(body, width, Seq::empty(), Seq::empty());
    lemma_text_lines_len(lines, body_tone(m.body), least(lines.len(), 10));
    lemma_reaction_rows_len(m.reactions, least(m.reactions.len(), 5));
}

proof fn lemma_text_lines_len(lines: Seq<Seq<char>>, tone: Tone, n: nat)
    requires
        n <= lines.len(),
        n <= 10,
    ensures
        text_lines(lines, tone, n).len() == n,
    decreases n,
{
    if n > 0 {
        lemma_text_lines_len(lines, tone, (n - 1) as nat);
    }
}

proof fn lemma_reaction_rows_len(rs: Seq<ReactionView>, n: nat)
    requires
        n <= rs.len(),
        n <= 5,
    ensures
        reaction_rows(rs, n).len() == n,
    decreases n,
{
    if n > 0 {
        lemma_reaction_rows_len(rs, (n - 1) as nat);
    }
}

fn push_line(lines: &mut Vec<Vec<Span>>, line: Vec<Span>)
    ensures
        line_views(final(lines)@) == line_views(old(lines)@).push(views(line@)),
{
    lines.push(line);
    assert(line_views(lines@) =~= line_views(old(lines)@).push(views(line@)));
}

fn span(text: &str, tone: Tone) -> (line: Vec<Span>)
    ensures
        views(line@) == one(text@, tone),
{
    let mut line: Vec<Span> = Vec::new();
    line.push(Span { text: String::from_str(text), tone });
    assert(views(line@) =~= one(text@, tone));
    line
}

impl Message {
    /// The tone of the text of the message.
    pub fn style(&self) -> (tone: Tone)
        ensures
            tone == body_tone(self@.body),
    {
        match &self.body {
            MessageBody::Text { .. } => Tone::Plain,
            _ => Tone::Attachment,
        }
    }

    /// The lines of the message without its replies: see `own_lines`.
    fn own_list_items(&self, body: &str, width: usize, now: u64) -> (lines: Vec<Vec<Span>>)
        ensures
            line_views(lines@) == own_lines(self@, body@, width as nat, now),
    {
        let ghost m = self@;
        let mut lines: Vec<Vec<Span>> = Vec::new();
        push_line(&mut lines, span(" ", Tone::Plain));
        let mut author: Vec<Span> = Vec::new();
        author.push(Span { text: String::from_str(self.sender.as_str()), tone: Tone::Author });
        author.push(Span { text: String::from_str(" "), tone: Tone::Plain });
        author.push(Span { text: self.pretty_elapsed_at(now), tone: Tone::Faint });
        if self.history.len() > 0 {
            author.push(Span { text: String::from_str(" (edited)"), tone: Tone::Alert });
        }
        assert(views(author@) =~= author_line(m, now));
        push_line(&mut lines, author);
        let ghost head = line_views(lines@);
        assert(head =~= seq![one(" "@, Tone::Plain), author_line(m, now)]);
        let empty = String::new();
        let wrapped_lines = wrap(body, width, empty.as_str(), empty.as_str());
        let ghost all = views(wrapped_lines@);
        let tone = self.style();
        let shown: usize = if wrapped_lines.len() < 10 {
            wrapped_lines.len()
        } else {
            10
        };
        let mut i: usize = 0;
        while i < shown
            invariant
                i <= shown,
                shown <= 10,
                shown <= wrapped_lines.len(),
                all == views(wrapped_lines@),
                line_views(lines@) == head + text_lines(all, tone, i as nat),
            decreases shown - i,
        {
            let text = trim(wrapped_lines[i].as_str());
            push_line(&mut lines, span(text.as_str(), tone));
            assert(line_views(lines@) =~= head + text_lines(all, tone, (i + 1) as nat));
            i += 1;
        }
        if wrapped_lines.len() > 10 || self.reactions.len() > 5 {
            push_line(&mut lines, span("* overflow: type \"v\" to view entire message", Tone::Alert));
        }
        let ghost with_warning = head + text_lines(all, tone, least(all.len(), 10)) + (if all.len() > 10
            || m.reactions.len() > 5 {
            seq![one("* overflow: type \"v\" to view entire message"@, Tone::Alert)]
        } else {
            Seq::empty()
        });
        assert(line_views(lines@) =~= with_warning);
        if self.receipts.len() > 0 {
            let mut words: Vec<String> = Vec::new();
            let mut k: usize = 0;
            while k < self.receipts.len()
                invariant
                    k <= self.receipts.len(),
                    m == self@,
                    views(words@) == reader_words(m.receipts, k as nat),
                decreases self.receipts.len() - k,
            {
                assert(m.receipts[k as int] == self.receipts@[k as int]@);
                words.push(first_word_of(self.receipts[k].as_str()));
                k += 1;
            }
            let mut text = String::from_str("Seen by ");
            let names = pretty_list(limit_list(words, 4, self.receipts.len(), None));
            text.append(names.as_str());
            text.append(".");
            push_line(&mut lines, span(text.as_str(), Tone::Faint));
        }
        let ghost with_seen = with_warning + (if m.receipts.len() > 0 {
            seq![seen_line(m.receipts)]
        } else {
            Seq::empty()
        });
        assert(line_views(lines@) =~= with_seen);
        let listed: usize = if self.reactions.len() < 5 {
            self.reactions.len()
        } else {
            5
        };
        let mut r: usize = 0;
        while r < listed
            invariant
                r <= listed,
                listed <= 5,
                listed <= self.reactions.len(),
                m == self@,
                line_views(lines@) == with_seen + reaction_rows(m.reactions, r as nat),
            decreases listed - r,
        {
            assert(m.reactions[r as int] == self.reactions@[r as int]@);
            let text = self.reactions[r].list_view();
            push_line(&mut lines, span(text.as_str(), Tone::Faint));
            assert(line_views(lines@) =~= with_seen + reaction_rows(m.reactions, (r + 1) as nat));
            r += 1;
        }
        lines
    }

    /// The lines of the message and of its replies, from the top: see
    /// `lines_of`.
    pub fn to_lines(&self, body: &str, width: usize, now: u64) -> (lines: Vec<Vec<Span>>)
        ensures
            line_views(lines@) == lines_of(self@, body@, width as nat, now),
        decreases self,
    {
        let ghost m = self@;
        proof {
            lemma_replies_view(*self);
        }
        let mut lines = self.own_list_items(body, width, now);
        let ghost own = line_views(lines@);
        let below: usize = if width >= 2 {
            width - 2
        } else {
            0
        };
        let mut i: usize = 0;
        while i < self.replies.len()
            invariant
                i <= self.replies.len(),
                m == self@,
                m.replies == views(self.replies@),
                below == narrower(width as nat),
                line_views(lines@) == own + reply_lines(m.replies, width as nat, now, i as nat),
            decreases self.replies.len() - i,
        {
            let reply = &self.replies[i];
            assert(m.replies[i as int] == reply@);
            let text = reply.display();
            let inner = Message::remove_reply_header(text.as_str());
            let part = reply.to_lines(inner.as_str(), below, now);
            let ghost wanted = indented(line_views(part@), i == 0);
            let ghost before = line_views(lines@);
            let mut k: usize = 0;
            assert(part@.len() == part.len());
            for line in it: part
                invariant
                    line_views(it.seq()) == line_views(part@),
                    it.seq() == part@,
                    k == it.index(),
                    part@.len() <= usize::MAX,
                    wanted == indented(line_views(part@), i == 0),
                    line_views(lines@) == before + wanted.take(it.index() as int),
            {
                let ghost at = it.index() as int;
                let pipe = if k == 0 {
                    if i == 0 {
                        "╷"
                    } else {
                        "│"
                    }
                } else {
                    "│ "
                };
                let mut whole = span(pipe, Tone::Pipe);
                let mut rest = line;
                whole.append(&mut rest);
                proof {
                    assert(views(whole@) =~= wanted[at]);
                    assert(wanted.take(at + 1) == wanted.take(at).push(wanted[at]));
                }
                push_line(&mut lines, whole);
                assert(line_views(lines@) =~= before + wanted.take(at + 1));
                assert(k < part@.len());
                k += 1;
            }
            proof {
                assert(wanted.take(wanted.len() as int) == wanted);
            }
            i += 1;
        }
        lines
    }

    /// What is drawn of the message at a width, seen from the second
    /// `now`: the lines of the message and of its replies, from the bottom
    /// up.
    pub fn to_list_items(&self, width: usize, now: u64) -> (lines: Vec<Vec<Span>>)
        ensures
            line_views(lines@) == lines_of(self@, message_text(self@), width as nat, now).reverse(),
    {
        let body = self.display();
        let mut all = self.to_lines(body.as_str(), width, now);
        let ghost before = line_views(all@);
        let mut lines: Vec<Vec<Span>> = Vec::new();
        while all.len() > 0
            invariant
                all.len() <= before.len(),
                line_views(all@) == before.take(all.len() as int),
                lines.len() == before.len() - all.len(),
                forall|j: int|
                    0 <= j < lines.len() ==> views((#[trigger] lines@[j])@) == before[before.len() - 1
                        - j],
            decreases all.len(),
        {
            assert(line_views(all@)[all.len() - 1] == before[all.len() - 1]);
            let line = all.pop().unwrap();
            lines.push(line);
            assert(line_views(all@) =~= before.take(all.len() as int));
        }
        assert(line_views(lines@) =~= before.reverse());
        lines
    }
}

proof fn lemma_lines_below_add(a: Seq<RowView>, b: Seq<RowView>, n: int)
    requires
        0 <= n <= b.len(),
    ensures
        lines_below(a + b, a.len() + n) == lines_below(a, a.len() as int) + lines_below(b, n),
    decreases n,
{
    if n > 0 {
        lemma_lines_below_add(a, b, n - 1);
        assert((a + b)[a.len() + n - 1] == b[n - 1]);
    } else {
        lemma_lines_below_prefix(a, b, a.len() as int);
    }
}

proof fn lemma_lines_below_prefix(a: Seq<RowView>, b: Seq<RowView>, n: int)
    requires
        0 <= n <= a.len(),
    ensures
        lines_below(a + b, n) == lines_below(a, n),
    decreases n,
{
    if n > 0 {
        lemma_lines_below_prefix(a, b, n - 1);
        assert((a + b)[n - 1] == a[n - 1]);
    }
}

/// What is drawn of a message takes as many lines as its rows say: the
/// lines of a message and of its replies are as many as the heights of its
/// rows add up to.
pub proof fn lemma_lines_match_rows(m: MessageView, width: nat, reply: bool, top: nat, now: u64)
    ensures
        lines_of(m, wrapped_text(m, reply), width, now).len() == lines_below(
            rows_down(m, width, reply, top),
            rows_down(m, width, reply, top).len() as int,
        ),
    decreases m, 0nat,
{
    let own = seq![row_for(m, width, reply, top)];
    let below = rows_down_all(m.replies, narrower(width), top, m.replies.len());
    lemma_own_lines_height(m, wrapped_text(m, reply), width, now);
    lemma_replies_match_rows(m.replies, width, top, now, m.replies.len());
    lemma_lines_below_add(own, below, below.len() as int);
    assert(lines_below(own, 1) == own[0].height) by {
        assert(lines_below(own, 0) == 0);
    }
}

proof fn lemma_replies_match_rows(rs: Seq<MessageView>, width: nat, top: nat, now: u64, n: nat)
    requires
        n <= rs.len(),
    ensures
        reply_lines(rs, width, now, n).len() == lines_below(
            rows_down_all(rs, narrower(width), top, n),
            rows_down_all(rs, narrower(width), top, n).len() as int,
        ),
    decreases rs, n,
{
    if n > 0 {
        lemma_replies_match_rows(rs, width, top, now, (n - 1) as nat);
        lemma_lines_match_rows(rs[n - 1], narrower(width), true, top, now);
        let before = rows_down_all(rs, narrower(width), top, (n - 1) as nat);
        let last = rows_down(rs[n - 1], narrower(width), true, top);
        lemma_lines_below_add(before, last, last.len() as int);
    }
}

} // verus!
