//! Reactions to a message: one entry for each emoji, with the events of the
//! users who sent it.

use crate::emoji::{emoji_entry, lookup_emoji, opt_entry, pad_emoji, padded, EmojiEntry, EmojiEntryView};
use crate::text::{first_word, first_word_of, limit_list, limited, pretty, pretty_list};
use crate::username::{fresh, shown, updated_by_all, Member, MemberView, Username, UsernameView};
use crate::views::{group_views, views};
use vstd::prelude::*;

verus! {

broadcast use group_views;

/// One user's reaction: the event that carries it, and who sent it.
pub struct ReactionEvent {
    pub id: String,
    pub sender: Username,
}

pub struct ReactionEventView {
    pub id: Seq<char>,
    pub sender: UsernameView,
}

impl View for ReactionEvent {
    type V = ReactionEventView;

    open spec fn view(&self) -> ReactionEventView {
        ReactionEventView { id: self.id@, sender: self.sender@ }
    }
}

/// One emoji under a message, with an event for each user who reacted
/// with it.
pub struct Reaction {
    pub body: String,
    pub events: Vec<ReactionEvent>,
}

pub struct ReactionView {
    pub body: Seq<char>,
    pub events: Seq<ReactionEventView>,
}

impl View for Reaction {
    type V = ReactionView;

    open spec fn view(&self) -> ReactionView {
        ReactionView { body: self.body@, events: views(self.events@) }
    }
}

/// The reaction that a single reaction event makes.
pub open spec fn single(key: Seq<char>, event_id: Seq<char>, sender: Seq<char>) -> ReactionView {
    ReactionView {
        body: key,
        events: seq![ReactionEventView { id: event_id, sender: fresh(sender) }],
    }
}

/// Whether one of `rs` has the emoji `body`.
pub open spec fn has_body(rs: Seq<ReactionView>, body: Seq<char>) -> bool {
    exists|i: int| 0 <= i < rs.len() && (#[trigger] rs[i]).body == body
}

/// No two of `rs` have the same emoji.
pub open spec fn distinct_bodies(rs: Seq<ReactionView>) -> bool {
    forall|i: int, j: int| 0 <= i < j < rs.len() ==> (#[trigger] rs[i]).body != (#[trigger] rs[j]).body
}

/// `rs` after the events of `r` have gone to the entries with its emoji.
pub open spec fn absorbed(rs: Seq<ReactionView>, r: ReactionView) -> Seq<ReactionView> {
    Seq::new(
        rs.len(),
        |i: int|
            if rs[i].body == r.body {
                ReactionView { body: rs[i].body, events: rs[i].events + r.events }
            } else {
                rs[i]
            },
    )
}

/// The reactions `rs` with one entry for each emoji: the entries stand in
/// the order in which their emojis first occur, and each holds the events
/// of all reactions with its emoji, in the order of `rs`.
pub open spec fn merged(rs: Seq<ReactionView>) -> Seq<ReactionView>
    decreases rs.len(),
{
    if rs.len() == 0 {
        Seq::empty()
    } else {
        let before = merged(rs.drop_last());
        if has_body(before, rs.last().body) {
            absorbed(before, rs.last())
        } else {
            before.push(rs.last())
        }
    }
}

/// What is left in the list that `merge` was given: an entry whose emoji
/// occurred before has handed its events over.
pub open spec fn drained(rs: Seq<ReactionView>) -> Seq<ReactionView> {
    Seq::new(
        rs.len(),
        |i: int|
            if has_body(rs.take(i), rs[i].body) {
                ReactionView { body: rs[i].body, events: Seq::empty() }
            } else {
                rs[i]
            },
    )
}

/// The number of events under the emoji `body` in `rs`.
pub open spec fn event_count(rs: Seq<ReactionView>, body: Seq<char>) -> nat
    decreases rs.len(),
{
    if rs.len() == 0 {
        0
    } else if rs.last().body == body {
        event_count(rs.drop_last(), body) + rs.last().events.len()
    } else {
        event_count(rs.drop_last(), body)
    }
}

/// Merging keeps the emojis that occur, and makes each occur once.
pub proof fn lemma_merged_bodies(rs: Seq<ReactionView>)
    ensures
        distinct_bodies(merged(rs)),
        forall|body: Seq<char>| has_body(merged(rs), body) <==> has_body(rs, body),
    decreases rs.len(),
{
    if rs.len() > 0 {
        let before = merged(rs.drop_last());
        let r = rs.last();
        lemma_merged_bodies(rs.drop_last());
        assert forall|body: Seq<char>| has_body(merged(rs), body) <==> has_body(rs, body) by {
            if has_body(rs, body) {
                let i = choose|i: int| 0 <= i < rs.len() && (#[trigger] rs[i]).body == body;
                if i < rs.len() - 1 {
                    assert(rs.drop_last()[i].body == body);
                    assert(has_body(rs.drop_last(), body));
                    assert(has_body(before, body));
                    let k = choose|k: int| 0 <= k < before.len() && (#[trigger] before[k]).body == body;
                    assert(merged(rs)[k].body == body);
                } else if has_body(before, body) {
                    let k = choose|k: int| 0 <= k < before.len() && (#[trigger] before[k]).body == body;
                    assert(merged(rs)[k].body == body);
                } else {
                    assert(merged(rs)[before.len() as int].body == body);
                }
            }
            if has_body(merged(rs), body) {
                let k = choose|k: int| 0 <= k < merged(rs).len() && (#[trigger] merged(rs)[k]).body == body;
                if k < before.len() {
                    assert(before[k].body == body);
                    assert(has_body(rs.drop_last(), body));
                    let i = choose|i: int| 0 <= i < rs.drop_last().len() && (#[trigger] rs.drop_last()[i]).body == body;
                    assert(rs[i].body == body);
                } else {
                    assert(rs[rs.len() - 1].body == body);
                }
            }
        }
        assert forall|i: int, j: int| 0 <= i < j < merged(rs).len() implies (#[trigger] merged(rs)[i]).body != (#[trigger] merged(rs)[j]).body by {
            if j < before.len() {
                assert(before[i].body != before[j].body);
            } else {
                assert(before[i].body != r.body);
            }
        }
    }
}

/// Merging neither loses nor invents an event: under each emoji there are
/// as many as before.
pub proof fn lemma_merged_counts(rs: Seq<ReactionView>, body: Seq<char>)
    ensures
        event_count(merged(rs), body) == event_count(rs, body),
    decreases rs.len(),
{
    if rs.len() > 0 {
        let before = merged(rs.drop_last());
        let r = rs.last();
        lemma_merged_counts(rs.drop_last(), body);
        lemma_merged_bodies(rs.drop_last());
        if has_body(before, r.body) {
            lemma_absorbed_counts(before, r, body);
        } else {
            assert(before.push(r).drop_last() == before);
        }
    }
}

proof fn lemma_absorbed_counts(rs: Seq<ReactionView>, r: ReactionView, body: Seq<char>)
    requires
        distinct_bodies(rs),
        has_body(rs, r.body),
    ensures
        event_count(absorbed(rs, r), body) == event_count(rs, body) + if r.body == body {
            r.events.len()
        } else {
            0
        },
    decreases rs.len(),
{
    let last = rs.last();
    let rest = rs.drop_last();
    assert(absorbed(rs, r).drop_last() == absorbed(rest, r));
    assert forall|i: int, j: int| 0 <= i < j < rest.len() implies (#[trigger] rest[i]).body != (#[trigger] rest[j]).body by {
        assert(rs[i].body != rs[j].body);
    }
    if last.body == r.body {
        assert forall|i: int| 0 <= i < rest.len() implies (#[trigger] rest[i]).body != r.body by {
            assert(rs[i].body != rs[rs.len() - 1].body);
        }
        assert(absorbed(rest, r) == rest);
    } else {
        let k = choose|k: int| 0 <= k < rs.len() && (#[trigger] rs[k]).body == r.body;
        assert(rest[k].body == r.body);
        lemma_absorbed_counts(rest, r, body);
    }
}

proof fn lemma_count_remove(rs: Seq<ReactionView>, k: int, body: Seq<char>)
    requires
        0 <= k < rs.len(),
    ensures
        event_count(rs, body) == event_count(rs.remove(k), body) + if rs[k].body == body {
            rs[k].events.len()
        } else {
            0
        },
    decreases rs.len(),
{
    if k == rs.len() - 1 {
        assert(rs.remove(k) == rs.drop_last());
    } else {
        lemma_count_remove(rs.drop_last(), k, body);
        assert(rs.remove(k).drop_last() == rs.drop_last().remove(k));
        assert(rs.remove(k).last() == rs.last());
    }
}

/// The number of events under an emoji does not depend on the order of the
/// reactions.
pub proof fn lemma_count_any_order(a: Seq<ReactionView>, b: Seq<ReactionView>, body: Seq<char>)
    requires
        a.to_multiset() == b.to_multiset(),
    ensures
        event_count(a, body) == event_count(b, body),
    decreases a.len(),
{
    a.to_multiset_ensures();
    b.to_multiset_ensures();
    assert(a.len() == b.len());
    if a.len() > 0 {
        let x = a.last();
        assert(a[a.len() - 1] == x);
        assert(a.contains(x));
        assert(a.to_multiset().count(x) > 0);
        assert(b.to_multiset().count(x) > 0);
        assert(b.contains(x));
        let k = b.index_of(x);
        assert(a.drop_last() == a.remove(a.len() - 1));
        lemma_count_any_order(a.drop_last(), b.remove(k), body);
        lemma_count_remove(b, k, body);
    }
}

/// The emojis that occur do not depend on the order of the reactions.
pub proof fn lemma_bodies_any_order(a: Seq<ReactionView>, b: Seq<ReactionView>, body: Seq<char>)
    requires
        a.to_multiset() == b.to_multiset(),
    ensures
        has_body(a, body) == has_body(b, body),
{
    a.to_multiset_ensures();
    b.to_multiset_ensures();
    if has_body(a, body) {
        let i = choose|i: int| 0 <= i < a.len() && (#[trigger] a[i]).body == body;
        assert(a.contains(a[i]));
        assert(a.to_multiset().count(a[i]) > 0);
        assert(b.to_multiset().count(a[i]) > 0);
        assert(b.contains(a[i]));
        let k = b.index_of(a[i]);
        assert(b[k].body == body);
    }
    if has_body(b, body) {
        let i = choose|i: int| 0 <= i < b.len() && (#[trigger] b[i]).body == body;
        assert(b.contains(b[i]));
        assert(b.to_multiset().count(b[i]) > 0);
        assert(a.to_multiset().count(b[i]) > 0);
        assert(a.contains(b[i]));
        let k = a.index_of(b[i]);
        assert(a[k].body == body);
    }
}

/// In whatever order the same reactions come, merging them gives the same
/// emojis, each once, with the same number of events under each.
pub proof fn lemma_merge_any_order(a: Seq<ReactionView>, b: Seq<ReactionView>)
    requires
        a.to_multiset() == b.to_multiset(),
    ensures
        distinct_bodies(merged(a)),
        distinct_bodies(merged(b)),
        forall|body: Seq<char>| has_body(merged(a), body) == has_body(merged(b), body),
        forall|body: Seq<char>| event_count(merged(a), body) == event_count(merged(b), body),
{
    lemma_merged_bodies(a);
    lemma_merged_bodies(b);
    assert forall|body: Seq<char>| has_body(merged(a), body) == has_body(merged(b), body) by {
        lemma_bodies_any_order(a, b, body);
    }
    assert forall|body: Seq<char>| event_count(merged(a), body) == event_count(merged(b), body) by {
        lemma_merged_counts(a, body);
        lemma_merged_counts(b, body);
        lemma_count_any_order(a, b, body);
    }
}

/// The emoji of a reaction as a line of text shows it: padded, and with its
/// shortcode in brackets where the emoji table has one.
pub open spec fn displayed(body: Seq<char>, entry: Option<EmojiEntryView>) -> Seq<char> {
    match entry {
        Some(EmojiEntryView { shortcode: Some(code), .. }) => padded(body) + " ("@ + code + ")"@,
        _ => padded(body),
    }
}

/// The first words of what is shown for the senders of `events`.
pub open spec fn sender_words(events: Seq<ReactionEventView>) -> Seq<Seq<char>> {
    Seq::new(events.len(), |i: int| first_word(shown(events[i].sender)))
}

/// Who reacted, as prose: at most five names, then how many others.
pub open spec fn senders_text(events: Seq<ReactionEventView>) -> Seq<char> {
    pretty(limited(sender_words(events), 5, events.len(), None))
}

/// The events of `events` after the member records `members` were seen.
pub open spec fn events_updated(events: Seq<ReactionEventView>, members: Seq<MemberView>) -> Seq<
    ReactionEventView,
> {
    Seq::new(
        events.len(),
        |i: int|
            ReactionEventView {
                id: events[i].id,
                sender: updated_by_all(events[i].sender, members),
            },
    )
}

/// The reactions `rs` after the member records `members` were seen.
pub open spec fn reactions_updated(rs: Seq<ReactionView>, members: Seq<MemberView>) -> Seq<
    ReactionView,
> {
    Seq::new(
        rs.len(),
        |i: int| ReactionView { body: rs[i].body, events: events_updated(rs[i].events, members) },
    )
}

impl ReactionEvent {
    pub fn new(id: String, sender_id: String) -> (event: ReactionEvent)
        ensures
            event@ == (ReactionEventView { id: id@, sender: fresh(sender_id@) }),
    {
        ReactionEvent { id, sender: Username::new(sender_id) }
    }

    pub fn copy(&self) -> (c: ReactionEvent)
        ensures
            c@ == self@,
    {
        ReactionEvent { id: self.id.clone(), sender: self.sender.copy() }
    }
}

/// Copies of the events of `v`.
pub fn copy_events(v: &Vec<ReactionEvent>) -> (c: Vec<ReactionEvent>)
    ensures
        views(c@) == views(v@),
{
    let mut c: Vec<ReactionEvent> = Vec::new();
    let mut i: usize = 0;
    while i < v.len()
        invariant
            i <= v.len(),
            views(c@) == views(v@.take(i as int)),
        decreases v.len() - i,
    {
        c.push(v[i].copy());
        assert(v@.take(i + 1) == v@.take(i as int).push(v@[i as int]));
        i += 1;
    }
    assert(v@.take(v.len() as int) == v@);
    c
}

/// Copies of the reactions of `v`.
pub fn copy_reactions(v: &Vec<Reaction>) -> (c: Vec<Reaction>)
    ensures
        views(c@) == views(v@),
{
    let mut c: Vec<Reaction> = Vec::new();
    let mut i: usize = 0;
    while i < v.len()
        invariant
            i <= v.len(),
            views(c@) == views(v@.take(i as int)),
        decreases v.len() - i,
    {
        c.push(v[i].copy());
        assert(v@.take(i + 1) == v@.take(i as int).push(v@[i as int]));
        i += 1;
    }
    assert(v@.take(v.len() as int) == v@);
    c
}

fn find_body(rs: &Vec<Reaction>, body: &String) -> (found: Option<usize>)
    ensures
        found matches Some(k) ==> k < rs.len() && rs@[k as int]@.body == body@,
        found is None ==> !has_body(views(rs@), body@),
{
    let mut k: usize = 0;
    while k < rs.len()
        invariant
            k <= rs.len(),
            forall|j: int| 0 <= j < k ==> (#[trigger] views(rs@)[j]).body != body@,
        decreases rs.len() - k,
    {
        if rs[k].body == *body {
            return Some(k);
        }
        k += 1;
    }
    None
}

impl Reaction {
    /// The reaction that one reaction event makes.
    pub fn new(body: String, event: ReactionEvent) -> (r: Reaction)
        ensures
            r@ == (ReactionView { body: body@, events: seq![event@] }),
    {
        let mut events: Vec<ReactionEvent> = Vec::new();
        events.push(event);
        assert(views(events@) == seq![event@]);
        Reaction { body, events }
    }

    pub fn copy(&self) -> (c: Reaction)
        ensures
            c@ == self@,
    {
        Reaction { body: self.body.clone(), events: copy_events(&self.events) }
    }

    /// Draws the reactions of `reactions` together, one entry for each
    /// emoji. An entry of `reactions` whose emoji occurred before it is left
    /// behind without events.
    pub fn merge(reactions: &mut Vec<Reaction>) -> (out: Vec<Reaction>)
        ensures
            views(out@) == merged(views(old(reactions)@)),
            views(final(reactions)@) == drained(views(old(reactions)@)),
    {
        let ghost given = views(reactions@);
        let mut out: Vec<Reaction> = Vec::new();
        let n: usize = reactions.len();
        let mut i: usize = 0;
        assert(given.take(0) == Seq::<ReactionView>::empty());
        while i < n
            invariant
                i <= n,
                n == reactions.len(),
                given == views(old(reactions)@),
                given.len() == n,
                views(out@) == merged(given.take(i as int)),
                forall|j: int| 0 <= j < i ==> (#[trigger] views(reactions@)[j]) == drained(given)[j],
                forall|j: int| i <= j < n ==> (#[trigger] views(reactions@)[j]) == given[j],
            decreases n - i,
        {
            proof {
                lemma_merged_bodies(given.take(i as int));
                assert(given.take(i + 1).drop_last() == given.take(i as int));
                assert(given.take(i + 1).last() == given[i as int]);
            }
            let ghost before = views(out@);
            let ghost seen = views(reactions@);
            assert(seen[i as int] == given[i as int]);
            match find_body(&out, &reactions[i].body) {
                Some(k) => {
                    let mut taken: Vec<ReactionEvent> = Vec::new();
                    let entry = &mut reactions[i];
                    std::mem::swap(&mut entry.events, &mut taken);
                    let target = &mut out[k];
                    target.events.append(&mut taken);
                    proof {
                        assert(before[k as int].body == given[i as int].body);
                        assert(has_body(before, given[i as int].body));
                        assert(has_body(given.take(i as int), given[i as int].body));
                        assert(views(out@) =~= absorbed(before, given[i as int])) by {
                            assert forall|j: int| 0 <= j < before.len() implies views(out@)[j]
                                == absorbed(before, given[i as int])[j] by {
                                if j != k {
                                    assert(before[j].body != before[k as int].body);
                                }
                            }
                        }
                        assert(views(reactions@)[i as int] == drained(given)[i as int]);
                        assert forall|j: int| 0 <= j < i implies (#[trigger] views(reactions@)[j])
                            == drained(given)[j] by {
                            assert(views(reactions@)[j] == seen[j]);
                        }
                        assert forall|j: int| i + 1 <= j < n implies (#[trigger] views(
                            reactions@,
                        )[j]) == given[j] by {
                            assert(views(reactions@)[j] == seen[j]);
                        }
                    }
                },
                None => {
                    out.push(reactions[i].copy());
                    proof {
                        assert(!has_body(given.take(i as int), given[i as int].body));
                        assert(views(reactions@)[i as int] == drained(given)[i as int]);
                    }
                },
            }
            i += 1;
        }
        assert(given.take(n as int) == given);
        assert(views(reactions@) =~= drained(given));
        out
    }

    /// The emoji as a line shows it, given what the emoji table holds for it.
    pub fn display_with(&self, entry: &Option<EmojiEntry>) -> (text: String)
        ensures
            text@ == displayed(self@.body, opt_entry(*entry)),
    {
        let mut text = pad_emoji(self.body.as_str());
        if let Some(e) = entry {
            if let Some(code) = &e.shortcode {
                text.append(" (");
                text.append(code.as_str());
                text.append(")");
            }
        }
        text
    }

    /// The emoji as a line shows it.
    pub fn display(&self) -> (text: String)
        ensures
            text@ == displayed(self@.body, emoji_entry(self@.body)),
    {
        let entry = lookup_emoji(self.body.as_str());
        self.display_with(&entry)
    }

    /// Who reacted with this emoji, as prose.
    pub fn pretty_senders(&self) -> (text: String)
        ensures
            text@ == senders_text(self@.events),
    {
        let mut names: Vec<String> = Vec::new();
        let mut i: usize = 0;
        while i < self.events.len()
            invariant
                i <= self.events.len(),
                views(names@) == sender_words(self@.events).take(i as int),
            decreases self.events.len() - i,
        {
            names.push(first_word_of(self.events[i].sender.as_str()));
            assert(views(names@) =~= sender_words(self@.events).take(i + 1));
            i += 1;
        }
        assert(sender_words(self@.events).take(self.events.len() as int) == sender_words(
            self@.events,
        ));
        pretty_list(limit_list(names, 5, self.events.len(), None))
    }

    /// The line that stands for this reaction under a message.
    pub fn list_view(&self) -> (text: String)
        ensures
            text@ == displayed(self@.body, emoji_entry(self@.body)) + " "@ + senders_text(
                self@.events,
            ),
    {
        let mut text = self.display();
        let senders = self.pretty_senders();
        text.append(" ");
        text.append(senders.as_str());
        text
    }

    /// Brings the names of those who reacted up to date.
    pub fn update_senders(&mut self, members: &Vec<Member>)
        ensures
            final(self)@ == (ReactionView {
                body: old(self)@.body,
                events: events_updated(old(self)@.events, views(members@)),
            }),
    {
        let n: usize = self.events.len();
        let ghost given = self.events@;
        let mut i: usize = 0;
        while i < n
            invariant
                i <= n,
                n == self.events.len(),
                n == given.len(),
                given == old(self).events@,
                self.body == old(self).body,
                forall|j: int|
                    0 <= j < i ==> (#[trigger] self.events@[j])@ == (ReactionEventView {
                        id: given[j]@.id,
                        sender: updated_by_all(given[j]@.sender, views(members@)),
                    }),
                forall|j: int| i <= j < n ==> (#[trigger] self.events@[j]) == given[j],
            decreases n - i,
        {
            let event = &mut self.events[i];
            event.sender.update_all(members);
            i += 1;
        }
        assert(views(self.events@) =~= events_updated(old(self)@.events, views(members@)));
    }
}

} // verus!
