//! Messages as text: the line that stands for a message, the full account
//! of it, and how much room it takes.

use crate::emoji::emoji_entry;
use crate::event::{BodyView, MediaInfoView, MessageBody};
use crate::message::{lemma_replies_view, Message, MessageView};
use crate::reaction::{displayed, reactions_updated, ReactionView};
use crate::text::{blank, chars_of, is_whitespace, string_of, trim, trimmed};
use crate::username::{shown, updated_by_all, Member, MemberView, UsernameView};
use crate::views::{group_views, views};
use chrono::TimeZone;
use std::fmt::Write;
use vstd::prelude::*;

verus! {

broadcast use group_views;

/// How long ago something was that is `seconds` old, in words: what
/// `timeago::Formatter::convert` writes with its default settings.
pub uninterp spec fn ago_text(seconds: u64) -> Seq<char>;

/// `timeago::Formatter::convert`, with the formatter that
/// `timeago::Formatter::new` makes: writes an age in words ("5 minutes ago").
#[verifier::external_body]
fn time_ago(seconds: u64) -> (text: String)
    ensures
        text@ == ago_text(seconds),
{
    timeago::Formatter::new().convert(std::time::Duration::from_secs(seconds))
}

/// `SystemTime::now`, as seconds since the Unix epoch; `None` if the clock
/// stands before the epoch. Nothing is known of the number.
#[verifier::external_body]
fn now_seconds() -> Option<u64> {
    match std::time::SystemTime::now().duration_since(std::time::SystemTime::UNIX_EPOCH) {
        Ok(d) => Some(d.as_secs()),
        Err(_) => None,
    }
}

/// The lines into which a text is wrapped at a width, the first after
/// `initial` and the others after `subsequent`: what `textwrap::wrap` gives.
pub uninterp spec fn wrapped(
    text: Seq<char>,
    width: nat,
    initial: Seq<char>,
    subsequent: Seq<char>,
) -> Seq<Seq<char>>;

/// `textwrap::wrap`, with the options that `textwrap::Options::new` makes
/// for the width and the two indents given.
#[verifier::external_body]
pub(crate) fn wrap(text: &str, width: usize, initial: &str, subsequent: &str) -> (lines: Vec<String>)
    ensures
        views(lines@) == wrapped(text@, width as nat, initial@, subsequent@),
{
    let options = textwrap::Options::new(width).initial_indent(initial).subsequent_indent(subsequent);
    textwrap::wrap(text, options).into_iter().map(|line| line.into_owned()).collect()
}

/// The place where the line that starts at `from` ends: the next line feed,
/// or the end of the text.
pub open spec fn line_end(s: Seq<char>, from: int) -> int
    decreases s.len() - from,
{
    if 0 <= from < s.len() && s[from] != '\n' {
        line_end(s, from + 1)
    } else {
        from
    }
}

/// A line that quotes: it starts with "> ".
pub open spec fn quoting(line: Seq<char>) -> bool {
    line.len() >= 2 && line[0] == '>' && line[1] == ' '
}

/// Where the text of a reply begins: behind the leading lines that are
/// blank or quote the message replied to.
pub open spec fn header_end(s: Seq<char>, from: int) -> int
    decreases s.len() - from,
{
    if 0 <= from <= s.len() {
        let end = line_end(s, from);
        let line = s.subrange(from, end);
        if blank(line) || quoting(line) {
            if from <= end < s.len() {
                header_end(s, end + 1)
            } else {
                s.len() as int
            }
        } else {
            from
        }
    } else {
        from
    }
}

/// A reply without the quotation that clients put in front of it.
pub open spec fn without_header(s: Seq<char>) -> Seq<char> {
    s.skip(header_end(s, 0))
}

fn find_line_end(v: &Vec<char>, from: usize) -> (end: usize)
    requires
        from <= v.len(),
    ensures
        end == line_end(v@, from as int),
        from <= end <= v.len(),
{
    let mut i: usize = from;
    while i < v.len() && v[i] != '\n'
        invariant
            from <= i <= v.len(),
            line_end(v@, i as int) == line_end(v@, from as int),
        decreases v.len() - i,
    {
        i += 1;
    }
    i
}

fn blank_between(v: &Vec<char>, from: usize, to: usize) -> (b: bool)
    requires
        from <= to <= v.len(),
    ensures
        b == blank(v@.subrange(from as int, to as int)),
{
    let ghost line = v@.subrange(from as int, to as int);
    let mut i: usize = from;
    while i < to && is_whitespace(v[i])
        invariant
            from <= i <= to <= v.len(),
            line == v@.subrange(from as int, to as int),
            crate::text::space_end(line, i - from) == crate::text::space_end(line, 0),
        decreases to - i,
    {
        assert(line[i - from] == v@[i as int]);
        i += 1;
    }
    proof {
        if i < to {
            assert(line[i - from] == v@[i as int]);
        }
    }
    i >= to
}

impl Message {
    /// Takes the quotation off the front of a reply: the leading lines that
    /// are blank or start with "> ".
    pub fn remove_reply_header(body: &str) -> (text: String)
        ensures
            text@ == without_header(body@),
    {
        let v = chars_of(body);
        let mut from: usize = 0;
        loop
            invariant
                from <= v.len(),
                v@ == body@,
                header_end(v@, from as int) == header_end(v@, 0),
            ensures
                from <= v.len(),
                from == header_end(v@, 0),
            decreases v.len() - from,
        {
            let end = find_line_end(&v, from);
            let is_blank = blank_between(&v, from, end);
            let quotes = end - from >= 2 && v[from] == '>' && v[from + 1] == ' ';
            proof {
                let line = v@.subrange(from as int, end as int);
                if end - from >= 2 {
                    assert(line[0] == v@[from as int]);
                    assert(line[1] == v@[from + 1]);
                }
            }
            if is_blank || quotes {
                if end < v.len() {
                    from = end + 1;
                } else {
                    from = v.len();
                    break ;
                }
            } else {
                break ;
            }
        }
        string_of(&v, from, v.len())
    }
}

/// A label, a name and a size in one line: "Image: cat.png (1.2 MiB)".
pub open spec fn labelled(label: Seq<char>, name: Seq<char>, size: Seq<char>) -> Seq<char> {
    label + ": "@ + name + " ("@ + size + ")"@
}

/// A content as one text: a text message is its text, an attachment its
/// name, with its kind and size where the size is known.
pub open spec fn body_text(body: BodyView) -> Seq<char> {
    match body {
        BodyView::Text { body } => body,
        BodyView::Image { body, info, .. } => match info {
            Some(MediaInfoView { size: Some(size), .. }) => labelled("Image"@, body, size),
            _ => body,
        },
        BodyView::Video { body, info, .. } => match info {
            Some(MediaInfoView { size: Some(size), .. }) => labelled("Video"@, body, size),
            Some(_) => "no size"@,
            None => "no info"@,
        },
        BodyView::File { body, info, .. } => match info {
            Some(MediaInfoView { size: Some(size), .. }) => labelled("File"@, body, size),
            _ => body,
        },
        BodyView::Other => "unknown"@,
    }
}

/// The text that stands for a message in the chat.
pub open spec fn message_text(m: MessageView) -> Seq<char> {
    trimmed(body_text(m.body))
}

fn label(kind: &str, name: &str, size: &str) -> (text: String)
    ensures
        text@ == labelled(kind@, name@, size@),
{
    let mut text = String::from_str(kind);
    text.append(": ");
    text.append(name);
    text.append(" (");
    text.append(size);
    text.append(")");
    text
}

/// The number of lines that a message takes in the chat, replies not
/// counted: a blank line and the sender, at most ten lines of text, a line
/// for the receipts if there are any, at most five reactions, and a line
/// that says so where text or reactions were left out.
pub open spec fn shown_height(lines: nat, receipts: nat, reactions: nat) -> nat {
    let text: nat = if lines < 10 {
        lines
    } else {
        10
    };
    let seen: nat = if receipts > 0 {
        1
    } else {
        0
    };
    let reacted: nat = if reactions < 5 {
        reactions
    } else {
        5
    };
    let overflow: nat = if lines > 10 || reactions > 5 {
        1
    } else {
        0
    };
    text + 2 + seen + reacted + overflow
}

/// The text of a message as it is wrapped: a reply without its quotation.
pub open spec fn wrapped_text(m: MessageView, reply: bool) -> Seq<char> {
    if reply {
        without_header(message_text(m))
    } else {
        message_text(m)
    }
}

/// A message and the replies below it, in one list: the message first,
/// then each reply with what is below it.
pub open spec fn flat(m: MessageView) -> Seq<MessageView>
    decreases m, 1nat,
{
    seq![m] + flat_all(m.replies, m.replies.len())
}

/// The first `n` messages of `ms`, each with what is below it.
pub open spec fn flat_all(ms: Seq<MessageView>, n: nat) -> Seq<MessageView>
    decreases ms, 0nat, n,
{
    if n == 0 || n > ms.len() {
        Seq::empty()
    } else {
        flat_all(ms, (n - 1) as nat) + flat(ms[n - 1])
    }
}

/// What is done with an attachment once it is fetched.
#[derive(Clone, Copy, Debug, PartialEq, Eq, Structural)]
pub enum AfterDownload {
    /// Show it.
    View,
    /// Store it with the downloads.
    Save,
}

/// What opening or saving a message asks for.
#[derive(Clone, Copy, Debug, PartialEq, Eq, Structural)]
pub enum MessageAction {
    /// Fetch the attachment.
    Download(AfterDownload),
    /// Open the links of the text.
    ViewText,
    Nothing,
}

/// What opening a message does: pictures and videos are shown, files are
/// stored, the links of a text are opened.
pub open spec fn open_action(body: BodyView) -> MessageAction {
    match body {
        BodyView::Image { .. } => MessageAction::Download(AfterDownload::View),
        BodyView::Video { .. } => MessageAction::Download(AfterDownload::View),
        BodyView::File { .. } => MessageAction::Download(AfterDownload::Save),
        BodyView::Text { .. } => MessageAction::ViewText,
        BodyView::Other => MessageAction::Nothing,
    }
}

/// What saving a message does: every attachment is stored.
pub open spec fn save_action(body: BodyView) -> MessageAction {
    match body {
        BodyView::Image { .. } => MessageAction::Download(AfterDownload::Save),
        BodyView::Video { .. } => MessageAction::Download(AfterDownload::Save),
        BodyView::File { .. } => MessageAction::Download(AfterDownload::Save),
        _ => MessageAction::Nothing,
    }
}

/// The user names `names` after the member records `members` were seen.
pub open spec fn names_updated(names: Seq<UsernameView>, members: Seq<MemberView>) -> Seq<
    UsernameView,
> {
    Seq::new(names.len(), |i: int| updated_by_all(names[i], members))
}

/// The message `m` and its replies with every user name brought up to date
/// by the member records `members`.
pub open spec fn senders_updated(m: MessageView, members: Seq<MemberView>) -> MessageView
    decreases m,
{
    MessageView {
        sender: updated_by_all(m.sender, members),
        reactions: reactions_updated(m.reactions, members),
        receipts: names_updated(m.receipts, members),
        replies: Seq::new(
            m.replies.len(),
            |i: int|
                if 0 <= i < m.replies.len() {
                    senders_updated(m.replies[i], members)
                } else {
                    arbitrary()
                },
        ),
        ..m
    }
}

/// The time of a message in seconds since the Unix epoch.
pub open spec fn sent_seconds(m: MessageView) -> u64 {
    (m.sent / 1000) as u64
}

/// The age of a message at `now` in seconds; zero for one from the future.
pub open spec fn age(m: MessageView, now: u64) -> u64 {
    if now >= sent_seconds(m) {
        (now - sent_seconds(m)) as u64
    } else {
        0
    }
}

impl MessageBody {
    /// The content as one text: see `body_text`.
    pub fn display(&self) -> (text: String)
        ensures
            text@ == body_text(self@),
    {
        match self {
            MessageBody::Text { body } => body.clone(),
            MessageBody::Image { body, info, .. } => {
                if let Some(i) = info {
                    if let Some(size) = &i.size {
                        return label("Image", body.as_str(), size.as_str());
                    }
                }
                body.clone()
            },
            MessageBody::Video { body, info, .. } => {
                if let Some(i) = info {
                    if let Some(size) = &i.size {
                        label("Video", body.as_str(), size.as_str())
                    } else {
                        String::from_str("no size")
                    }
                } else {
                    String::from_str("no info")
                }
            },
            MessageBody::File { body, info, .. } => {
                if let Some(i) = info {
                    if let Some(size) = &i.size {
                        return label("File", body.as_str(), size.as_str());
                    }
                }
                body.clone()
            },
            MessageBody::Other => String::from_str("unknown"),
        }
    }
}

/// The height of a message that wraps into `lines` lines.
pub fn height_of(lines: usize, receipts: usize, reactions: usize) -> (height: usize)
    ensures
        height == shown_height(lines as nat, receipts as nat, reactions as nat),
{
    let mut height: usize = if lines < 10 {
        lines
    } else {
        10
    };
    height += 2;
    if receipts > 0 {
        height += 1;
    }
    height += if reactions < 5 {
        reactions
    } else {
        5
    };
    if lines > 10 || reactions > 5 {
        height += 1;
    }
    height
}

impl Message {
    /// The text that stands for the message in the chat.
    pub fn display(&self) -> (text: String)
        ensures
            text@ == message_text(self@),
    {
        let full = self.body.display();
        trim(full.as_str())
    }

    /// How long ago the message was sent, seen from the second `now`.
    pub fn pretty_elapsed_at(&self, now: u64) -> (text: String)
        ensures
            text@ == ago_text(age(self@, now)),
    {
        let then: u64 = self.sent / 1000;
        let age: u64 = if now >= then {
            now - then
        } else {
            0
        };
        time_ago(age)
    }

    /// How long ago the message was sent.
    pub fn pretty_elapsed(&self) -> (text: String)
        ensures
            exists|now: u64| text@ == #[trigger] ago_text(age(self@, now)),
    {
        let now: u64 = match now_seconds() {
            Some(seconds) => seconds,
            None => 0,
        };
        let text = self.pretty_elapsed_at(now);
        assert(text@ == ago_text(age(self@, now)));
        text
    }

    /// The number of lines that the message takes at a width, its replies
    /// not counted. The text of a reply is taken without its quotation.
    pub fn height(&self, width: usize, reply: bool) -> (height: usize)
        ensures
            height == shown_height(
                wrapped(wrapped_text(self@, reply), width as nat, Seq::empty(), Seq::empty()).len(),
                self@.receipts.len(),
                self@.reactions.len(),
            ),
    {
        let text = self.display();
        let empty = String::new();
        let lines = if reply {
            let inner = Message::remove_reply_header(text.as_str());
            wrap(inner.as_str(), width, empty.as_str(), empty.as_str())
        } else {
            wrap(text.as_str(), width, empty.as_str(), empty.as_str())
        };
        height_of(lines.len(), self.receipts.len(), self.reactions.len())
    }

    /// The message and all replies below it: see `flat`.
    pub fn flatten(&self) -> (all: Vec<&Message>)
        ensures
            all@.len() == flat(self@).len(),
            forall|i: int| 0 <= i < all@.len() ==> (#[trigger] all@[i])@ == flat(self@)[i],
        decreases self,
    {
        let mut all: Vec<&Message> = Vec::new();
        all.push(self);
        proof {
            lemma_replies_view(*self);
        }
        let ghost replies = self@.replies;
        let mut i: usize = 0;
        while i < self.replies.len()
            invariant
                i <= self.replies.len(),
                replies == self@.replies,
                replies == views(self.replies@),
                all@.len() == 1 + flat_all(replies, i as nat).len(),
                forall|k: int|
                    0 <= k < all@.len() ==> (#[trigger] all@[k])@ == (seq![self@] + flat_all(
                        replies,
                        i as nat,
                    ))[k],
            decreases self.replies.len() - i,
        {
            let below = self.replies[i].flatten();
            let ghost before = all@;
            let mut k: usize = 0;
            while k < below.len()
                invariant
                    k <= below.len(),
                    all@.len() == before.len() + k,
                    forall|j: int| 0 <= j < before.len() ==> all@[j] == before[j],
                    forall|j: int| 0 <= j < k ==> all@[before.len() + j] == below@[j],
                decreases below.len() - k,
            {
                all.push(below[k]);
                k += 1;
            }
            proof {
                let next = seq![self@] + flat_all(replies, (i + 1) as nat);
                assert(flat_all(replies, (i + 1) as nat) == flat_all(replies, i as nat) + flat(
                    replies[i as int],
                ));
                assert forall|j: int| 0 <= j < all@.len() implies (#[trigger] all@[j])@
                    == next[j] by {
                    if j < before.len() {
                        assert(all@[j] == before[j]);
                    } else {
                        assert(all@[before.len() + (j - before.len())] == below@[j - before.len()]);
                    }
                }
            }
            i += 1;
        }
        all
    }

    /// What opening the message asks for.
    pub fn open(&self) -> (action: MessageAction)
        ensures
            action == open_action(self@.body),
    {
        match &self.body {
            MessageBody::Image { .. } => MessageAction::Download(AfterDownload::View),
            MessageBody::Video { .. } => MessageAction::Download(AfterDownload::View),
            MessageBody::File { .. } => MessageAction::Download(AfterDownload::Save),
            MessageBody::Text { .. } => MessageAction::ViewText,
            MessageBody::Other => MessageAction::Nothing,
        }
    }

    /// What saving the message asks for.
    pub fn save(&self) -> (action: MessageAction)
        ensures
            action == save_action(self@.body),
    {
        match &self.body {
            MessageBody::Image { .. } => MessageAction::Download(AfterDownload::Save),
            MessageBody::Video { .. } => MessageAction::Download(AfterDownload::Save),
            MessageBody::File { .. } => MessageAction::Download(AfterDownload::Save),
            _ => MessageAction::Nothing,
        }
    }

    /// Brings the names of the sender, of those who reacted and of those
    /// who read the message up to date, and the same below it.
    pub fn update_senders(&mut self, members: &Vec<Member>)
        ensures
            final(self)@ == senders_updated(old(self)@, views(members@)),
        decreases *old(self),
    {
        let ghost given = self@;
        let ghost known = views(members@);
        proof {
            lemma_replies_view(*self);
        }
        self.sender.update_all(members);
        let n: usize = self.reactions.len();
        let mut i: usize = 0;
        while i < n
            invariant
                i <= n,
                n == self.reactions.len(),
                n == given.reactions.len(),
                known == views(members@),
                forall|j: int|
                    0 <= j < i ==> (#[trigger] self.reactions@[j])@ == reactions_updated(
                        given.reactions,
                        known,
                    )[j],
                forall|j: int| i <= j < n ==> (#[trigger] self.reactions@[j])@ == given.reactions[j],
                self.id == old(self).id,
                self.in_reply_to == old(self).in_reply_to,
                self.room_id == old(self).room_id,
                self.sent == old(self).sent,
                self.body == old(self).body,
                self.history == old(self).history,
                self.sender@ == updated_by_all(given.sender, known),
                self.replies == old(self).replies,
                self.receipts == old(self).receipts,
            decreases n - i,
        {
            let r = &mut self.reactions[i];
            r.update_senders(members);
            i += 1;
        }
        assert(views(self.reactions@) =~= reactions_updated(given.reactions, known));
        let n: usize = self.receipts.len();
        let mut i: usize = 0;
        while i < n
            invariant
                i <= n,
                n == self.receipts.len(),
                n == given.receipts.len(),
                known == views(members@),
                forall|j: int|
                    0 <= j < i ==> (#[trigger] self.receipts@[j])@ == updated_by_all(
                        given.receipts[j],
                        known,
                    ),
                forall|j: int| i <= j < n ==> (#[trigger] self.receipts@[j])@ == given.receipts[j],
                self.id == old(self).id,
                self.in_reply_to == old(self).in_reply_to,
                self.room_id == old(self).room_id,
                self.sent == old(self).sent,
                self.body == old(self).body,
                self.history == old(self).history,
                self.sender@ == updated_by_all(given.sender, known),
                views(self.reactions@) == reactions_updated(given.reactions, known),
                self.replies == old(self).replies,
            decreases n - i,
        {
            let name = &mut self.receipts[i];
            name.update_all(members);
            i += 1;
        }
        assert(views(self.receipts@) =~= names_updated(given.receipts, known));
        let n: usize = self.replies.len();
        let mut i: usize = 0;
        while i < n
            invariant
                i <= n,
                n == self.replies.len(),
                n == given.replies.len(),
                given == old(self)@,
                known == views(members@),
                forall|j: int|
                    0 <= j < i ==> (#[trigger] self.replies@[j])@ == senders_updated(
                        given.replies[j],
                        known,
                    ),
                forall|j: int| i <= j < n ==> (#[trigger] self.replies@[j]) == old(self).replies@[j],
                self.id == old(self).id,
                self.in_reply_to == old(self).in_reply_to,
                self.room_id == old(self).room_id,
                self.sent == old(self).sent,
                self.body == old(self).body,
                self.history == old(self).history,
                self.sender@ == updated_by_all(given.sender, known),
                views(self.reactions@) == reactions_updated(given.reactions, known),
                views(self.receipts@) == names_updated(given.receipts, known),
            decreases n - i,
        {
            proof {
                lemma_replies_view(*old(self));
            }
            let reply = &mut self.replies[i];
            reply.update_senders(members);
            i += 1;
        }
        proof {
            lemma_replies_view(*self);
            lemma_replies_view(*old(self));
            assert(self@.replies =~= senders_updated(given, known).replies);
        }
    }
}

/// The local time of a moment, written after a pattern; nothing is known
/// of the text, which depends on the time zone of the machine.
///
/// `chrono::TimeZone::timestamp_opt` for `chrono::Local`, then
/// `chrono::DateTime::format`. `None` where the moment is out of range or
/// the pattern cannot be written.
#[verifier::external_body]
fn local_time_text(seconds: i64, pattern: &str) -> (text: Option<String>) {
    match chrono::Local.timestamp_opt(seconds, 0).single() {
        Some(time) => {
            let mut text = String::new();
            match write!(text, "{}", time.format(pattern)) {
                Ok(_) => Some(text),
                Err(_) => None,
            }
        },
        None => None,
    }
}

/// The line for one user's reaction in the full account of a message.
pub open spec fn reaction_line(r: ReactionView, i: int) -> Seq<char> {
    "* "@ + displayed(r.body, emoji_entry(r.body)) + " by "@ + shown(r.events[i].sender) + " ("@
        + r.events[i].sender.id + ")\n"@
}

/// The lines for the first `n` events of a reaction.
pub open spec fn reaction_lines(r: ReactionView, n: nat) -> Seq<char>
    decreases n,
{
    if n == 0 || n > r.events.len() {
        Seq::empty()
    } else {
        reaction_lines(r, (n - 1) as nat) + reaction_line(r, n - 1)
    }
}

/// The lines for the first `n` reactions.
pub open spec fn reactions_text(rs: Seq<ReactionView>, n: nat) -> Seq<char>
    decreases n,
{
    if n == 0 || n > rs.len() {
        Seq::empty()
    } else {
        reactions_text(rs, (n - 1) as nat) + reaction_lines(rs[n - 1], rs[n - 1].events.len())
    }
}

/// The lines for the last `n` contents of a history, the newest first.
pub open spec fn history_text(hs: Seq<BodyView>, n: nat) -> Seq<char>
    decreases n,
{
    if n == 0 || n > hs.len() {
        Seq::empty()
    } else {
        history_text(hs, (n - 1) as nat) + "* "@ + body_text(hs[hs.len() - n]) + "\n"@
    }
}

/// The full account of a message: when it was sent and by whom, its text,
/// its reactions with those who sent them, and what it said before it was
/// edited, the newest first.
pub open spec fn full_text(m: MessageView, date: Seq<char>) -> Seq<char> {
    "Sent "@ + date + " by "@ + shown(m.sender) + " ("@ + m.sender.id + ")\n\n"@ + message_text(m)
        + "\n\n"@ + if m.reactions.len() > 0 {
        "### Reactions\n\n"@ + reactions_text(m.reactions, m.reactions.len()) + "\n"@
    } else {
        Seq::empty()
    } + if m.history.len() > 0 {
        "### History\n\n"@ + history_text(m.history, m.history.len())
    } else {
        Seq::empty()
    }
}

impl Message {
    /// The full account of the message, with `date` for the time at which
    /// it was sent: see `full_text`.
    pub fn display_full_with(&self, date: &str) -> (text: String)
        ensures
            text@ == full_text(self@, date@),
    {
        let ghost m = self@;
        let mut text = String::from_str("Sent ");
        text.append(date);
        text.append(" by ");
        text.append(self.sender.as_str());
        text.append(" (");
        text.append(self.sender.id.as_str());
        text.append(")\n\n");
        let shown_text = self.display();
        text.append(shown_text.as_str());
        text.append("\n\n");
        let ghost head = text@;
        if self.reactions.len() > 0 {
            text.append("### Reactions\n\n");
            let mut i: usize = 0;
            while i < self.reactions.len()
                invariant
                    i <= self.reactions.len(),
                    m == self@,
                    m.reactions == views(self.reactions@),
                    text@ == head + "### Reactions\n\n"@ + reactions_text(m.reactions, i as nat),
                decreases self.reactions.len() - i,
            {
                let r = &self.reactions[i];
                let emoji = r.display();
                let ghost before = text@;
                let mut k: usize = 0;
                while k < r.events.len()
                    invariant
                        k <= r.events.len(),
                        r@ == m.reactions[i as int],
                        r@.events == views(r.events@),
                        emoji@ == displayed(r@.body, emoji_entry(r@.body)),
                        text@ == before + reaction_lines(r@, k as nat),
                    decreases r.events.len() - k,
                {
                    let event = &r.events[k];
                    assert(r@.events[k as int] == event@);
                    text.append("* ");
                    text.append(emoji.as_str());
                    text.append(" by ");
                    text.append(event.sender.as_str());
                    text.append(" (");
                    text.append(event.sender.id.as_str());
                    text.append(")\n");
                    assert(text@ == before + reaction_lines(r@, (k + 1) as nat));
                    k += 1;
                }
                i += 1;
            }
            text.append("\n");
        }
        let ghost middle = text@;
        if self.history.len() > 0 {
            text.append("### History\n\n");
            let n: usize = self.history.len();
            let mut i: usize = 0;
            while i < n
                invariant
                    i <= n,
                    n == self.history.len(),
                    m == self@,
                    m.history == views(self.history@),
                    text@ == middle + "### History\n\n"@ + history_text(m.history, i as nat),
                decreases n - i,
            {
                let entry = self.history[n - 1 - i].display();
                assert(m.history[n - 1 - i] == self.history@[n - 1 - i]@);
                text.append("* ");
                text.append(entry.as_str());
                text.append("\n");
                assert(text@ == middle + "### History\n\n"@ + history_text(m.history, (i + 1) as nat));
                i += 1;
            }
        }
        text
    }

    /// The time at which the message was sent, written in the time zone of
    /// the machine; empty where the time cannot be written.
    pub(crate) fn local_date(&self) -> (date: String) {
        let seconds: u64 = self.sent / 1000;
        match local_time_text(seconds as i64, "%Y-%m-%d at %I:%M:%S %p") {
            Some(d) => d,
            None => String::new(),
        }
    }

    /// The full account of the message, with the time at which it was sent
    /// in the time zone of the machine.
    pub fn display_full(&self) -> (text: String)
        ensures
            exists|date: Seq<char>| text@ == #[trigger] full_text(self@, date),
    {
        let date = self.local_date();
        let text = self.display_full_with(date.as_str());
        assert(text@ == full_text(self@, date@));
        text
    }
}

} // verus!
