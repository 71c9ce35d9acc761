//! From the events of a room to the list of messages that the chat shows.

use crate::display::{message_text, senders_updated};
use crate::event::{EventView, TimelineEvent};
use crate::fanout::with_receipts;
use crate::message::{
    lemma_replies_view, merge_result, merged, message_of, MergeResult, Message, MessageView,
};
use crate::reaction::Reaction;
use crate::receipts::{ReceiptQueue, ReceiptView};
use crate::text::{contains_text, is_part, lowercase, to_lowercase};
use crate::timeline::Timeline;
use crate::username::{Member, MemberView};
use crate::views::{group_views, views};
use vstd::prelude::*;

verus! {

broadcast use group_views;

/// The messages `ms` after the event `e` came in. An event that starts a
/// message adds it at the end. Any other is handed to the messages that
/// are there; an answer that finds no message to go under is added at the
/// end like a message of its own.
pub open spec fn taken_in(ms: Seq<MessageView>, e: EventView) -> Seq<MessageView> {
    match message_of(e, false) {
        Some(m) => ms.push(m),
        None => {
            let after = merged(ms, e, 0);
            if merge_result(ms, e) == MergeResult::Missed {
                match message_of(e, true) {
                    Some(m) => after.push(m),
                    None => after,
                }
            } else {
                after
            }
        },
    }
}

/// The messages that the events `es` make, taken in one after the other.
pub open spec fn grown(es: Seq<EventView>) -> Seq<MessageView>
    decreases es.len(),
{
    if es.len() == 0 {
        Seq::empty()
    } else {
        taken_in(grown(es.drop_last()), es.last())
    }
}

/// The tree `ms` with the reactions of every message merged: one entry for
/// each emoji.
pub open spec fn reactions_merged(ms: Seq<MessageView>) -> Seq<MessageView>
    decreases ms,
{
    Seq::new(
        ms.len(),
        |i: int|
            if 0 <= i < ms.len() {
                MessageView {
                    reactions: crate::reaction::merged(ms[i].reactions),
                    replies: reactions_merged(ms[i].replies),
                    ..ms[i]
                }
            } else {
                arbitrary()
            },
    )
}

/// The tree `ms` with every user name brought up to date.
pub open spec fn names_known(ms: Seq<MessageView>, members: Seq<MemberView>) -> Seq<MessageView> {
    Seq::new(ms.len(), |i: int| senders_updated(ms[i], members))
}

/// Whether the text of the message `m` holds the search term `term`, the
/// text taken in lower case.
pub open spec fn matches(m: MessageView, term: Seq<char>) -> bool {
    is_part(lowercase(message_text(m)), term)
}

/// Holds of the messages that the search keeps: those that match the term
/// or have a reply left.
pub open spec fn kept(term: Seq<char>) -> spec_fn(MessageView) -> bool {
    |m: MessageView| matches(m, term) || m.replies.len() > 0
}

/// What a search for `term` leaves of the tree `ms`: a message stays if it
/// matches or if one of its replies stays. The empty term leaves everything.
pub open spec fn found(ms: Seq<MessageView>, term: Seq<char>) -> Seq<MessageView>
    decreases ms, 1nat,
{
    if term.len() == 0 {
        ms
    } else {
        searched(ms, term).filter(kept(term))
    }
}

/// The messages of `ms`, each with the replies that the search leaves it.
pub open spec fn searched(ms: Seq<MessageView>, term: Seq<char>) -> Seq<MessageView>
    decreases ms, 0nat,
{
    Seq::new(
        ms.len(),
        |i: int|
            if 0 <= i < ms.len() {
                MessageView { replies: found(ms[i].replies, term), ..ms[i] }
            } else {
                arbitrary()
            },
    )
}

/// The list of messages that the chat shows for the events `es`: the
/// messages that the events make, with the reactions of each merged, the
/// receipts `rs` shown, the names brought up to date by `members` and the
/// search for `term` applied; the newest message first.
pub open spec fn listed(
    es: Seq<EventView>,
    rs: Seq<ReceiptView>,
    members: Seq<MemberView>,
    term: Seq<char>,
) -> Seq<MessageView> {
    found(names_known(with_receipts(reactions_merged(grown(es)), rs), members), term).reverse()
}

/// Takes one event in: see `taken_in`.
pub fn take_in(messages: &mut Vec<Message>, event: &TimelineEvent)
    ensures
        views(final(messages)@) == taken_in(views(old(messages)@), event@),
{
    if let Some(message) = Message::try_from(event, false) {
        messages.push(message);
    } else if Message::apply_timeline_event(messages, event, 0) == MergeResult::Missed {
        if let Some(message) = Message::try_from(event, true) {
            messages.push(message);
        }
    }
}

/// Merges the reactions of every message of the tree.
pub fn merge_reactions(messages: &mut Vec<Message>)
    ensures
        views(final(messages)@) == reactions_merged(views(old(messages)@)),
    decreases *old(messages),
{
    let ghost ms = views(messages@);
    let n: usize = messages.len();
    let mut i: usize = 0;
    while i < n
        invariant
            i <= n,
            n == messages.len(),
            ms == views(old(messages)@),
            ms.len() == n,
            forall|j: int| 0 <= j < i ==> (#[trigger] messages@[j])@ == reactions_merged(ms)[j],
            forall|j: int| i <= j < n ==> (#[trigger] messages@[j]) == old(messages)@[j],
        decreases n - i,
    {
        let m = &mut messages[i];
        proof {
            lemma_replies_view(*m);
        }
        merge_reactions(&mut m.replies);
        let merged = Reaction::merge(&mut m.reactions);
        m.reactions = merged;
        proof {
            let now = messages@[i as int];
            lemma_replies_view(now);
            assert(now@.replies == reactions_merged(ms[i as int].replies));
        }
        i += 1;
    }
    assert(views(messages@) =~= reactions_merged(ms));
}

/// Brings every user name of the tree up to date.
pub fn update_names(messages: &mut Vec<Message>, members: &Vec<Member>)
    ensures
        views(final(messages)@) == names_known(views(old(messages)@), views(members@)),
{
    let ghost ms = views(messages@);
    let n: usize = messages.len();
    let mut i: usize = 0;
    while i < n
        invariant
            i <= n,
            n == messages.len(),
            ms == views(old(messages)@),
            ms.len() == n,
            forall|j: int|
                0 <= j < i ==> (#[trigger] messages@[j])@ == senders_updated(ms[j], views(members@)),
            forall|j: int| i <= j < n ==> (#[trigger] messages@[j]) == old(messages)@[j],
        decreases n - i,
    {
        let m = &mut messages[i];
        m.update_senders(members);
        i += 1;
    }
    assert(views(messages@) =~= names_known(ms, views(members@)));
}

/// Applies the search for `term` to the tree: see `found`.
pub fn search(messages: &mut Vec<Message>, term: &str)
    ensures
        views(final(messages)@) == found(views(old(messages)@), term@),
    decreases *old(messages),
{
    if term.is_empty() {
        return ;
    }
    let ghost ms = views(messages@);
    let ghost below = searched(ms, term@);
    let mut all: Vec<Message> = Vec::new();
    std::mem::swap(messages, &mut all);
    proof {
        reveal(Seq::filter);
        assert(below.take(0).filter(kept(term@)) == Seq::<MessageView>::empty());
    }
    for m in it: all
        invariant
            ms == views(it.seq()),
            it.seq() == old(messages)@,
            below == searched(ms, term@),
            views(messages@) == below.take(it.index() as int).filter(kept(term@)),
    {
        let ghost i = it.index() as int;
        proof {
            assert(below.take(i + 1) == below.take(i).push(below[i]));
            below.take(i).lemma_filter_push(below[i], kept(term@));
            lemma_replies_view(m);
        }
        let mut m = m;
        search(&mut m.replies, term);
        proof {
            lemma_replies_view(m);
            assert(m@ == below[i]);
        }
        let text = m.display();
        let lower = to_lowercase(text.as_str());
        if contains_text(lower.as_str(), term) || m.replies.len() > 0 {
            messages.push(m);
        }
    }
    assert(below.take(below.len() as int) == below);
}

/// The list of messages that the chat shows: see `listed`.
pub fn make_message_list(
    timeline: &Timeline,
    members: &Vec<Member>,
    receipts: &ReceiptQueue,
    term: &str,
) -> (messages: Vec<Message>)
    requires
        receipts.wf(),
    ensures
        views(messages@) == listed(timeline@, receipts@, views(members@), term@),
{
    let mut messages: Vec<Message> = Vec::new();
    let n: usize = timeline.len();
    let mut i: usize = 0;
    assert(timeline@.take(0) == Seq::<EventView>::empty());
    while i < n
        invariant
            i <= n,
            n == timeline@.len(),
            views(messages@) == grown(timeline@.take(i as int)),
        decreases n - i,
    {
        take_in(&mut messages, timeline.get(i));
        assert(timeline@.take(i + 1).drop_last() == timeline@.take(i as int));
        i += 1;
    }
    assert(timeline@.take(n as int) == timeline@);
    merge_reactions(&mut messages);
    let mut queue = receipts.copy();
    Message::apply_receipts(&mut messages, &mut queue);
    update_names(&mut messages, members);
    search(&mut messages, term);
    let ghost before = views(messages@);
    let mut listed: Vec<Message> = Vec::new();
    while messages.len() > 0
        invariant
            messages.len() <= before.len(),
            views(messages@) == before.take(messages.len() as int),
            listed.len() == before.len() - messages.len(),
            forall|j: int| 0 <= j < listed.len() ==> (#[trigger] listed@[j])@ == before[before.len() - 1 - j],
        decreases messages.len(),
    {
        assert(views(messages@)[messages.len() - 1] == before[messages.len() - 1]);
        let m = messages.pop().unwrap();
        listed.push(m);
    }
    assert(views(listed@) =~= before.reverse());
    listed
}

} // verus!
