//! What holds of the messages that the events of a room make, whatever the
//! events are: replies nest four levels deep at most, every reaction has an
//! event, and no two messages share an id.

use crate::chat::{chat_ok, ChatView};
use crate::event::{ContentView, EventView, RelationView};
use crate::fanout::with_receipts;
use crate::listing::{
    found, grown, kept, listed, names_known, reactions_merged, searched, taken_in,
};
use crate::message::{
    cleaned, deeper, handed_down, handled, merge_result, merged, message_of, not_message,
    position, redacted, started, target, with_reply, MergeResult, MessageView,
};
use crate::message_laws::{
    all_occupied, lemma_absent_counts, lemma_depth_cap, lemma_first_exists, lemma_without_event,
    nested_within, occurrences, reactions_occupied, weight,
};
use crate::reaction::ReactionView;
use crate::receipts::{queued, ReceiptView};
use crate::timeline::holds;
use crate::username::MemberView;
use vstd::prelude::*;

verus! {

/// A message without replies can stand at any depth.
proof fn lemma_leaf_nested(ms: Seq<MessageView>, m: MessageView, d: nat)
    requires
        nested_within(ms, d),
        m.replies.len() == 0,
    ensures
        nested_within(ms.push(m), d),
{
    let out = ms.push(m);
    assert forall|i: int| 0 <= i < out.len() && (#[trigger] out[i]).replies.len() > 0 implies d <= 3
        && nested_within(out[i].replies, d + 1) by {
        assert(out[i] == ms[i]);
    }
}

/// Taking an event in keeps the replies within four levels.
pub proof fn lemma_taken_in_nested(ms: Seq<MessageView>, e: EventView)
    requires
        nested_within(ms, 0),
    ensures
        nested_within(taken_in(ms, e), 0),
{
    match message_of(e, false) {
        Some(m) => {
            lemma_leaf_nested(ms, m, 0);
        },
        None => {
            lemma_depth_cap(ms, e, 0);
            match message_of(e, true) {
                Some(m) => {
                    lemma_leaf_nested(merged(ms, e, 0), m, 0);
                },
                None => {},
            }
        },
    }
}

/// In the messages that events make, replies nest four levels deep at most.
pub proof fn lemma_grown_nested(es: Seq<EventView>)
    ensures
        nested_within(grown(es), 0),
    decreases es.len(),
{
    if es.len() > 0 {
        lemma_grown_nested(es.drop_last());
        lemma_taken_in_nested(grown(es.drop_last()), es.last());
    }
}

/// A message without reactions and replies keeps every reaction occupied.
proof fn lemma_leaf_occupied(ms: Seq<MessageView>, m: MessageView)
    requires
        reactions_occupied(ms),
        m.reactions.len() == 0,
        m.replies.len() == 0,
    ensures
        reactions_occupied(ms.push(m)),
{
    let out = ms.push(m);
    assert forall|i: int| 0 <= i < out.len() implies all_occupied((#[trigger] out[i]).reactions)
        && reactions_occupied(out[i].replies) by {
        if i < ms.len() {
            assert(out[i] == ms[i]);
        }
    }
}

/// No event leaves a reaction without events: a reaction comes with its
/// event, and a redaction takes the reactions away that it empties.
pub proof fn lemma_merged_occupied(ms: Seq<MessageView>, e: EventView, d: nat)
    requires
        reactions_occupied(ms),
    ensures
        reactions_occupied(merged(ms, e, d)),
    decreases ms,
{
    let out = merged(ms, e, d);
    if handled(ms, e) {
        let id = target(e).unwrap();
        let i = position(ms, id);
        let w = choose|w: int| 0 <= w < ms.len() && (#[trigger] ms[w]).id == id;
        lemma_first_exists(ms, id, w);
        match e.content {
            ContentView::Message { relation: RelationView::Replacement { new_body, .. }, .. } => {
                assert forall|k: int| 0 <= k < out.len() implies all_occupied(
                    (#[trigger] out[k]).reactions,
                ) && reactions_occupied(out[k].replies) by {
                    assert(out[k].reactions == ms[k].reactions);
                    assert(out[k].replies == ms[k].replies);
                }
            },
            ContentView::Message { body, relation: RelationView::Reply { event_id } } => {
                let reply = started(e, body, Some(event_id));
                if d > 3 {
                    lemma_leaf_occupied(ms, reply);
                } else {
                    let rest = ms.remove(i);
                    assert forall|k: int| 0 <= k < rest.len() implies all_occupied(
                        (#[trigger] rest[k]).reactions,
                    ) && reactions_occupied(rest[k].replies) by {
                        if k < i {
                            assert(rest[k] == ms[k]);
                        } else {
                            assert(rest[k] == ms[k + 1]);
                        }
                    }
                    lemma_leaf_occupied(ms[i].replies, reply);
                    let parent = with_reply(ms[i], reply);
                    assert forall|k: int| 0 <= k < out.len() implies all_occupied(
                        (#[trigger] out[k]).reactions,
                    ) && reactions_occupied(out[k].replies) by {
                        if k < rest.len() {
                            assert(out[k] == rest[k]);
                        } else {
                            assert(out[k] == parent);
                        }
                    }
                }
            },
            ContentView::Reaction { key, .. } => {
                assert forall|k: int| 0 <= k < out.len() implies all_occupied(
                    (#[trigger] out[k]).reactions,
                ) && reactions_occupied(out[k].replies) by {
                    assert(out[k].replies == ms[k].replies);
                    if k == i {
                        let rs = out[k].reactions;
                        assert forall|j: int| 0 <= j < rs.len() implies (#[trigger] rs[j]).events.len()
                            > 0 by {
                            if j < ms[i].reactions.len() {
                                assert(rs[j] == ms[i].reactions[j]);
                            }
                        }
                    } else {
                        assert(out[k].reactions == ms[k].reactions);
                    }
                }
            },
            _ => {},
        }
    } else {
        let below = handed_down(ms, e, d);
        assert forall|k: int| 0 <= k < below.len() implies all_occupied(
            (#[trigger] below[k]).reactions,
        ) && reactions_occupied(below[k].replies) by {
            assert(below[k].reactions == cleaned(ms[k].reactions, e));
            match redacted(e) {
                Some(id) => {
                    lemma_without_event(ms[k].reactions, id);
                },
                None => {},
            }
            lemma_merged_occupied(ms[k].replies, e, deeper(d));
        }
        match redacted(e) {
            Some(id) => {
                assert forall|k: int| 0 <= k < out.len() implies all_occupied(
                    (#[trigger] out[k]).reactions,
                ) && reactions_occupied(out[k].replies) by {
                    assert(out.contains(out[k]));
                    below.lemma_filter_contains_rev(not_message(id), out[k]);
                    let j = below.index_of(out[k]);
                    assert(below[j] == out[k]);
                }
            },
            None => {},
        }
    }
}

/// In the messages that events make, every reaction has an event.
pub proof fn lemma_grown_occupied(es: Seq<EventView>)
    ensures
        reactions_occupied(grown(es)),
    decreases es.len(),
{
    if es.len() > 0 {
        let ms = grown(es.drop_last());
        let e = es.last();
        lemma_grown_occupied(es.drop_last());
        match message_of(e, false) {
            Some(m) => {
                lemma_leaf_occupied(ms, m);
            },
            None => {
                lemma_merged_occupied(ms, e, 0);
                match message_of(e, true) {
                    Some(m) => {
                        lemma_leaf_occupied(merged(ms, e, 0), m);
                    },
                    None => {},
                }
            },
        }
    }
}

/// Lists that agree on their first `n` messages hold an id equally often
/// there.
proof fn lemma_occurrences_same(a: Seq<MessageView>, b: Seq<MessageView>, id: Seq<char>, n: nat)
    requires
        n <= a.len(),
        n <= b.len(),
        forall|j: int| 0 <= j < n ==> a[j] == b[j],
    ensures
        occurrences(a, id, n) == occurrences(b, id, n),
    decreases n,
{
    if n > 0 {
        lemma_occurrences_same(a, b, id, (n - 1) as nat);
    }
}

/// The more messages are counted, the more often an id occurs.
proof fn lemma_occurrences_grow(ms: Seq<MessageView>, id: Seq<char>, n: nat, m: nat)
    requires
        n <= m <= ms.len(),
    ensures
        occurrences(ms, id, n) <= occurrences(ms, id, m),
    decreases m,
{
    if n < m {
        lemma_occurrences_grow(ms, id, n, (m - 1) as nat);
    }
}

/// A list holds an id as often as each of its messages does, at least.
proof fn lemma_occurrences_of(ms: Seq<MessageView>, id: Seq<char>, j: int, n: nat)
    requires
        0 <= j < n <= ms.len(),
    ensures
        occurrences(ms, id, n) >= weight(ms[j], id),
    decreases n,
{
    if j < n - 1 {
        lemma_occurrences_of(ms, id, j, (n - 1) as nat);
    }
}

/// A message added to a list adds what it holds.
proof fn lemma_occurrences_push(ms: Seq<MessageView>, m: MessageView, id: Seq<char>)
    ensures
        occurrences(ms.push(m), id, ms.len() + 1) == occurrences(ms, id, ms.len()) + weight(m, id),
{
    lemma_occurrences_same(ms.push(m), ms, id, ms.len());
    assert(ms.push(m)[ms.len() as int] == m);
}

/// A message taken out of a list takes with it what it holds.
proof fn lemma_occurrences_remove(ms: Seq<MessageView>, i: int, id: Seq<char>, n: nat)
    requires
        0 <= i < ms.len(),
        n < ms.len(),
    ensures
        n <= i ==> occurrences(ms.remove(i), id, n) == occurrences(ms, id, n),
        n > i ==> occurrences(ms.remove(i), id, n) + weight(ms[i], id) == occurrences(ms, id, n + 1),
    decreases n,
{
    let rest = ms.remove(i);
    if n <= i {
        lemma_occurrences_same(rest, ms, id, n);
    } else {
        lemma_occurrences_remove(ms, i, id, (n - 1) as nat);
        assert(rest[n - 1] == ms[n as int]);
        assert(occurrences(ms, id, n + 1) == occurrences(ms, id, n) + weight(ms[n as int], id));
        if n - 1 == i {
            assert(occurrences(ms, id, n) == occurrences(ms, id, (n - 1) as nat) + weight(ms[i], id));
        }
    }
}

/// A message replaced by one that holds an id as often leaves the count
/// as it was.
proof fn lemma_occurrences_update(ms: Seq<MessageView>, i: int, m: MessageView, id: Seq<char>, n: nat)
    requires
        0 <= i < ms.len(),
        n <= ms.len(),
        weight(m, id) == weight(ms[i], id),
    ensures
        occurrences(ms.update(i, m), id, n) == occurrences(ms, id, n),
    decreases n,
{
    if n > 0 {
        lemma_occurrences_update(ms, i, m, id, (n - 1) as nat);
        if n - 1 != i {
            assert(ms.update(i, m)[n - 1] == ms[n - 1]);
        }
    }
}

/// What is left of a list holds an id no more often than the list.
proof fn lemma_occurrences_filter(ms: Seq<MessageView>, p: spec_fn(MessageView) -> bool, id: Seq<char>)
    ensures
        occurrences(ms.filter(p), id, ms.filter(p).len()) <= occurrences(ms, id, ms.len()),
    decreases ms.len(),
{
    reveal(Seq::filter);
    if ms.len() > 0 {
        let first = ms.drop_last();
        lemma_occurrences_filter(first, p, id);
        lemma_occurrences_same(first, ms, id, first.len());
        if p(ms.last()) {
            lemma_occurrences_push(first.filter(p), ms.last(), id);
        }
    }
}

/// How often an event can add its own id to a list: once where it finds
/// the message it is about, and never otherwise.
pub open spec fn added(ms: Seq<MessageView>, e: EventView, id: Seq<char>, n: nat) -> nat {
    if id == e.id && (target(e) matches Some(t) && occurrences(ms, t, n) >= 1) {
        1
    } else {
        0
    }
}

/// An event adds one message to a tree at most, with its own id, and only
/// where the message that it is about occurs: no id occurs more often
/// afterwards but that of the event, by one.
pub proof fn lemma_merged_ids(ms: Seq<MessageView>, e: EventView, d: nat, id: Seq<char>)
    requires
        target(e) matches Some(t) ==> occurrences(ms, t, ms.len()) <= 1,
    ensures
        occurrences(merged(ms, e, d), id, merged(ms, e, d).len()) <= occurrences(ms, id, ms.len())
            + added(ms, e, id, ms.len()),
    decreases ms, ms.len() + 1,
{
    let out = merged(ms, e, d);
    if handled(ms, e) {
        let t = target(e).unwrap();
        let w = choose|w: int| 0 <= w < ms.len() && (#[trigger] ms[w]).id == t;
        lemma_first_exists(ms, t, w);
        let i = position(ms, t);
        lemma_occurrences_of(ms, t, i, ms.len());
        assert(added(ms, e, id, ms.len()) == if id == e.id {
            1nat
        } else {
            0nat
        });
        match e.content {
            ContentView::Message { relation: RelationView::Replacement { new_body, .. }, .. } => {
                lemma_occurrences_update(ms, i, out[i], id, ms.len());
            },
            ContentView::Message { body, relation: RelationView::Reply { event_id } } => {
                let reply = started(e, body, Some(event_id));
                assert(reply.replies.len() == 0);
                if d > 3 {
                    lemma_occurrences_push(ms, reply, id);
                } else {
                    let rest = ms.remove(i);
                    lemma_occurrences_remove(ms, i, id, rest.len());
                    lemma_occurrences_push(ms[i].replies, reply, id);
                    lemma_occurrences_push(rest, with_reply(ms[i], reply), id);
                }
            },
            ContentView::Reaction { key, .. } => {
                lemma_occurrences_update(ms, i, out[i], id, ms.len());
            },
            _ => {},
        }
    } else {
        let below = handed_down(ms, e, d);
        lemma_handed_down_ids(ms, e, d, id, ms.len());
        match redacted(e) {
            Some(gone) => {
                lemma_occurrences_filter(below, not_message(gone), id);
            },
            None => {},
        }
    }
}

proof fn lemma_handed_down_ids(ms: Seq<MessageView>, e: EventView, d: nat, id: Seq<char>, n: nat)
    requires
        n <= ms.len(),
        target(e) matches Some(t) ==> occurrences(ms, t, ms.len()) <= 1,
    ensures
        occurrences(handed_down(ms, e, d), id, n) <= occurrences(ms, id, n) + added(ms, e, id, n),
    decreases ms, n,
{
    if n > 0 {
        let below = handed_down(ms, e, d);
        let j = n - 1;
        lemma_handed_down_ids(ms, e, d, id, (n - 1) as nat);
        assert(below[j].id == ms[j].id);
        assert(below[j].replies == merged(ms[j].replies, e, deeper(d)));
        match target(e) {
            Some(t) => {
                lemma_occurrences_of(ms, t, j, ms.len());
                lemma_occurrences_grow(ms, t, n, ms.len());
            },
            None => {},
        }
        lemma_merged_ids(ms[j].replies, e, deeper(d), id);
    }
}

/// An answer that is missed found no message to go under: the message that
/// it answers occurs nowhere in the tree.
pub proof fn lemma_missed_absent(ms: Seq<MessageView>, e: EventView, t: Seq<char>)
    requires
        target(e) == Some(t),
        merge_result(ms, e) == MergeResult::Missed,
    ensures
        occurrences(ms, t, ms.len()) == 0,
{
    lemma_absent_counts(ms, t, ms.len());
}

/// No two of the events have the same id.
pub open spec fn distinct_ids(es: Seq<EventView>) -> bool {
    forall|i: int, j: int| 0 <= i < j < es.len() ==> es[i].id != es[j].id
}

/// An event that is taken in adds one message at most, with its own id.
pub proof fn lemma_taken_in_ids(ms: Seq<MessageView>, e: EventView, id: Seq<char>)
    requires
        target(e) matches Some(t) ==> occurrences(ms, t, ms.len()) <= 1,
    ensures
        occurrences(taken_in(ms, e), id, taken_in(ms, e).len()) <= occurrences(ms, id, ms.len()) + (
        if id == e.id {
            1nat
        } else {
            0nat
        }),
{
    match message_of(e, false) {
        Some(m) => {
            assert(m.replies.len() == 0);
            lemma_occurrences_push(ms, m, id);
        },
        None => {
            let after = merged(ms, e, 0);
            lemma_merged_ids(ms, e, 0, id);
            if merge_result(ms, e) == MergeResult::Missed {
                match message_of(e, true) {
                    Some(m) => {
                        assert(m.replies.len() == 0);
                        let t = target(e).unwrap();
                        lemma_missed_absent(ms, e, t);
                        lemma_occurrences_push(after, m, id);
                    },
                    None => {},
                }
            }
        },
    }
}

/// No two messages share an id: in the messages that events with
/// different ids make, at every depth taken together, an id occurs once at
/// most, and only if it is the id of one of the events.
pub proof fn lemma_grown_ids(es: Seq<EventView>, id: Seq<char>)
    requires
        distinct_ids(es),
    ensures
        occurrences(grown(es), id, grown(es).len()) <= 1,
        occurrences(grown(es), id, grown(es).len()) == 1 ==> holds(es, id),
    decreases es.len(),
{
    if es.len() > 0 {
        let first = es.drop_last();
        let e = es.last();
        assert(distinct_ids(first)) by {
            assert forall|i: int, j: int| 0 <= i < j < first.len() implies first[i].id != first[j].id by {
                assert(es[i].id != es[j].id);
            }
        }
        lemma_grown_ids(first, id);
        match target(e) {
            Some(t) => {
                lemma_grown_ids(first, t);
            },
            None => {},
        }
        lemma_taken_in_ids(grown(first), e, id);
        if id == e.id {
            if holds(first, id) {
                let k = choose|k: int| 0 <= k < first.len() && (#[trigger] first[k]).id == id;
                assert(es[k].id == es[es.len() - 1].id);
            }
            assert(es[es.len() - 1].id == id);
        } else if holds(first, id) {
            let k = choose|k: int| 0 <= k < first.len() && (#[trigger] first[k]).id == id;
            assert(es[k].id == id);
        }
    }
}

/// Two trees of the same shape: message for message the same ids and the
/// same contents, and below each the same again.
pub open spec fn alike(a: Seq<MessageView>, b: Seq<MessageView>) -> bool
    decreases a,
{
    &&& a.len() == b.len()
    &&& forall|i: int|
        0 <= i < a.len() ==> (#[trigger] a[i]).id == b[i].id && a[i].body == b[i].body && alike(
            a[i].replies,
            b[i].replies,
        )
}

/// Trees of the same shape hold an id equally often.
proof fn lemma_alike_occurrences(a: Seq<MessageView>, b: Seq<MessageView>, id: Seq<char>, n: nat)
    requires
        alike(a, b),
        n <= a.len(),
    ensures
        occurrences(a, id, n) == occurrences(b, id, n),
    decreases a, n,
{
    if n > 0 {
        lemma_alike_occurrences(a, b, id, (n - 1) as nat);
        assert(a[n - 1].id == b[n - 1].id);
        lemma_alike_occurrences(a[n - 1].replies, b[n - 1].replies, id, a[n - 1].replies.len());
    }
}

/// Trees of the same shape nest equally deep.
proof fn lemma_alike_nested(a: Seq<MessageView>, b: Seq<MessageView>, d: nat)
    requires
        alike(a, b),
        nested_within(a, d),
    ensures
        nested_within(b, d),
    decreases a,
{
    assert forall|i: int| 0 <= i < b.len() && (#[trigger] b[i]).replies.len() > 0 implies d <= 3
        && nested_within(b[i].replies, d + 1) by {
        assert(alike(a[i].replies, b[i].replies));
        lemma_alike_nested(a[i].replies, b[i].replies, d + 1);
    }
}

/// Merging the reactions leaves the shape of a tree as it is.
pub proof fn lemma_alike_merged(ms: Seq<MessageView>)
    ensures
        alike(ms, reactions_merged(ms)),
    decreases ms,
{
    let out = reactions_merged(ms);
    assert forall|i: int| 0 <= i < ms.len() implies (#[trigger] ms[i]).id == out[i].id && ms[i].body
        == out[i].body && alike(ms[i].replies, out[i].replies) by {
        lemma_alike_merged(ms[i].replies);
    }
}

/// Showing the receipts leaves the shape of a tree as it is.
pub proof fn lemma_alike_receipts(ms: Seq<MessageView>, rs: Seq<ReceiptView>)
    ensures
        alike(ms, with_receipts(ms, rs)),
    decreases ms,
{
    let out = with_receipts(ms, rs);
    assert forall|i: int| 0 <= i < ms.len() implies (#[trigger] ms[i]).id == out[i].id && ms[i].body
        == out[i].body && alike(ms[i].replies, out[i].replies) by {
        lemma_alike_receipts(ms[i].replies, rs);
    }
}

/// Bringing the names up to date leaves the shape of a tree as it is.
pub proof fn lemma_alike_names(ms: Seq<MessageView>, members: Seq<MemberView>)
    ensures
        alike(ms, names_known(ms, members)),
    decreases ms,
{
    let out = names_known(ms, members);
    assert forall|i: int| 0 <= i < ms.len() implies (#[trigger] ms[i]).id == out[i].id && ms[i].body
        == out[i].body && alike(ms[i].replies, out[i].replies) by {
        lemma_alike_names(ms[i].replies, members);
        assert(out[i].replies =~= names_known(ms[i].replies, members));
    }
}

/// A search adds nothing to a tree.
proof fn lemma_found_ids(ms: Seq<MessageView>, term: Seq<char>, id: Seq<char>)
    ensures
        occurrences(found(ms, term), id, found(ms, term).len()) <= occurrences(ms, id, ms.len()),
    decreases ms, ms.len() + 1,
{
    if term.len() > 0 {
        lemma_searched_ids(ms, term, id, ms.len());
        lemma_occurrences_filter(searched(ms, term), kept(term), id);
    }
}

proof fn lemma_searched_ids(ms: Seq<MessageView>, term: Seq<char>, id: Seq<char>, n: nat)
    requires
        n <= ms.len(),
    ensures
        occurrences(searched(ms, term), id, n) <= occurrences(ms, id, n),
    decreases ms, n,
{
    if n > 0 {
        lemma_searched_ids(ms, term, id, (n - 1) as nat);
        let below = searched(ms, term);
        assert(below[n - 1].id == ms[n - 1].id);
        assert(below[n - 1].replies == found(ms[n - 1].replies, term));
        lemma_found_ids(ms[n - 1].replies, term, id);
    }
}

/// A search makes no tree deeper.
proof fn lemma_found_nested(ms: Seq<MessageView>, term: Seq<char>, d: nat)
    requires
        nested_within(ms, d),
    ensures
        nested_within(found(ms, term), d),
        ms.len() == 0 ==> found(ms, term).len() == 0,
    decreases ms,
{
    reveal(Seq::filter);
    if term.len() > 0 {
        let below = searched(ms, term);
        let out = found(ms, term);
        assert forall|k: int| 0 <= k < out.len() && (#[trigger] out[k]).replies.len() > 0 implies d
            <= 3 && nested_within(out[k].replies, d + 1) by {
            assert(out.contains(out[k]));
            below.lemma_filter_contains_rev(kept(term), out[k]);
            let j = below.index_of(out[k]);
            assert(below[j] == out[k]);
            assert(below[j].replies == found(ms[j].replies, term));
            if ms[j].replies.len() > 0 {
                lemma_found_nested(ms[j].replies, term, d + 1);
            } else {
                lemma_found_nested(ms[j].replies, term, d);
            }
        }
    }
}

/// A list holds an id as often from its end as from its start.
proof fn lemma_occurrences_reverse(ms: Seq<MessageView>, id: Seq<char>, n: nat)
    requires
        n <= ms.len(),
    ensures
        occurrences(ms.reverse(), id, n) + occurrences(ms, id, (ms.len() - n) as nat) == occurrences(
            ms,
            id,
            ms.len(),
        ),
    decreases n,
{
    if n > 0 {
        lemma_occurrences_reverse(ms, id, (n - 1) as nat);
        let k = ms.len() - n;
        assert(ms.reverse()[n - 1] == ms[k]);
        assert(occurrences(ms, id, (k + 1) as nat) == occurrences(ms, id, k as nat) + weight(ms[k], id));
    }
}

/// Merged reactions have events if the reactions had.
proof fn lemma_merge_occupied(rs: Seq<ReactionView>)
    requires
        all_occupied(rs),
    ensures
        all_occupied(crate::reaction::merged(rs)),
    decreases rs.len(),
{
    if rs.len() > 0 {
        let first = rs.drop_last();
        assert forall|k: int| 0 <= k < first.len() implies (#[trigger] first[k]).events.len() > 0 by {
            assert(rs[k].events.len() > 0);
        }
        lemma_merge_occupied(first);
        let before = crate::reaction::merged(first);
        let out = crate::reaction::merged(rs);
        assert(rs[rs.len() - 1].events.len() > 0);
        assert forall|k: int| 0 <= k < out.len() implies (#[trigger] out[k]).events.len() > 0 by {
            if k < before.len() {
                assert(before[k].events.len() > 0);
            }
        }
    }
}

/// Merging the reactions of a tree leaves none without events.
proof fn lemma_merged_tree_occupied(ms: Seq<MessageView>)
    requires
        reactions_occupied(ms),
    ensures
        reactions_occupied(reactions_merged(ms)),
    decreases ms,
{
    let out = reactions_merged(ms);
    assert forall|i: int| 0 <= i < out.len() implies all_occupied((#[trigger] out[i]).reactions)
        && reactions_occupied(out[i].replies) by {
        assert(all_occupied(ms[i].reactions));
        lemma_merge_occupied(ms[i].reactions);
        lemma_merged_tree_occupied(ms[i].replies);
    }
}

/// Showing the receipts leaves the reactions as they are.
proof fn lemma_receipts_occupied(ms: Seq<MessageView>, rs: Seq<ReceiptView>)
    requires
        reactions_occupied(ms),
    ensures
        reactions_occupied(with_receipts(ms, rs)),
    decreases ms,
{
    let out = with_receipts(ms, rs);
    assert forall|i: int| 0 <= i < out.len() implies all_occupied((#[trigger] out[i]).reactions)
        && reactions_occupied(out[i].replies) by {
        assert(all_occupied(ms[i].reactions));
        lemma_receipts_occupied(ms[i].replies, rs);
    }
}

/// Bringing the names up to date leaves every reaction its events.
proof fn lemma_names_occupied(ms: Seq<MessageView>, members: Seq<MemberView>)
    requires
        reactions_occupied(ms),
    ensures
        reactions_occupied(names_known(ms, members)),
    decreases ms,
{
    let out = names_known(ms, members);
    assert forall|i: int| 0 <= i < out.len() implies all_occupied((#[trigger] out[i]).reactions)
        && reactions_occupied(out[i].replies) by {
        assert(all_occupied(ms[i].reactions));
        let rs = out[i].reactions;
        assert forall|k: int| 0 <= k < rs.len() implies (#[trigger] rs[k]).events.len() > 0 by {
            assert(ms[i].reactions[k].events.len() > 0);
        }
        lemma_names_occupied(ms[i].replies, members);
        assert(out[i].replies =~= names_known(ms[i].replies, members));
    }
}

/// A search leaves every reaction its events.
proof fn lemma_found_occupied(ms: Seq<MessageView>, term: Seq<char>)
    requires
        reactions_occupied(ms),
    ensures
        reactions_occupied(found(ms, term)),
    decreases ms,
{
    if term.len() > 0 {
        let below = searched(ms, term);
        let out = found(ms, term);
        assert forall|k: int| 0 <= k < out.len() implies all_occupied((#[trigger] out[k]).reactions)
            && reactions_occupied(out[k].replies) by {
            assert(out.contains(out[k]));
            below.lemma_filter_contains_rev(kept(term), out[k]);
            let j = below.index_of(out[k]);
            assert(below[j] == out[k]);
            assert(all_occupied(ms[j].reactions));
            lemma_found_occupied(ms[j].replies, term);
        }
    }
}

/// In the list of messages that a chat shows, every reaction has an event.
pub proof fn lemma_listed_occupied(
    es: Seq<EventView>,
    rs: Seq<ReceiptView>,
    members: Seq<MemberView>,
    term: Seq<char>,
)
    ensures
        reactions_occupied(listed(es, rs, members, term)),
{
    let a = grown(es);
    let b = reactions_merged(a);
    let c = with_receipts(b, rs);
    let d = names_known(c, members);
    let f = found(d, term);
    lemma_grown_occupied(es);
    lemma_merged_tree_occupied(a);
    lemma_receipts_occupied(b, rs);
    lemma_names_occupied(c, members);
    lemma_found_occupied(d, term);
    let out = f.reverse();
    assert forall|i: int| 0 <= i < out.len() implies all_occupied((#[trigger] out[i]).reactions)
        && reactions_occupied(out[i].replies) by {
        assert(out[i] == f[f.len() - 1 - i]);
    }
}

/// In the list of messages that a chat shows, replies nest four levels
/// deep at most.
pub proof fn lemma_listed_nested(
    es: Seq<EventView>,
    rs: Seq<ReceiptView>,
    members: Seq<MemberView>,
    term: Seq<char>,
)
    ensures
        nested_within(listed(es, rs, members, term), 0),
{
    let a = grown(es);
    let b = reactions_merged(a);
    let c = with_receipts(b, rs);
    let d = names_known(c, members);
    let f = found(d, term);
    lemma_grown_nested(es);
    lemma_alike_merged(a);
    lemma_alike_nested(a, b, 0);
    lemma_alike_receipts(b, rs);
    lemma_alike_nested(b, c, 0);
    lemma_alike_names(c, members);
    lemma_alike_nested(c, d, 0);
    lemma_found_nested(d, term, 0);
    let out = f.reverse();
    assert forall|i: int| 0 <= i < out.len() && (#[trigger] out[i]).replies.len() > 0 implies
        nested_within(out[i].replies, 1) by {
        assert(out[i] == f[f.len() - 1 - i]);
    }
}

/// No two messages of the list that a chat shows share an id: where the
/// events have different ids, an id occurs once at most in the list, the
/// replies at every depth taken together, and only if it is the id of one
/// of the events.
pub proof fn lemma_listed_ids(
    es: Seq<EventView>,
    rs: Seq<ReceiptView>,
    members: Seq<MemberView>,
    term: Seq<char>,
    id: Seq<char>,
)
    requires
        distinct_ids(es),
    ensures
        occurrences(listed(es, rs, members, term), id, listed(es, rs, members, term).len()) <= 1,
        occurrences(listed(es, rs, members, term), id, listed(es, rs, members, term).len()) == 1
            ==> holds(es, id),
{
    let a = grown(es);
    let b = reactions_merged(a);
    let c = with_receipts(b, rs);
    let d = names_known(c, members);
    let f = found(d, term);
    lemma_grown_ids(es, id);
    lemma_alike_merged(a);
    lemma_alike_occurrences(a, b, id, a.len());
    lemma_alike_receipts(b, rs);
    lemma_alike_occurrences(b, c, id, b.len());
    lemma_alike_names(c, members);
    lemma_alike_occurrences(c, d, id, c.len());
    lemma_found_ids(d, term, id);
    lemma_occurrences_reverse(f, id, f.len());
}

/// The list of a chat keeps to the rules of a message tree: no two of its
/// messages share an id, replies nest four levels deep at most, and every
/// reaction has an event.
pub proof fn lemma_chat_tree(c: ChatView, id: Seq<char>)
    requires
        chat_ok(c),
    ensures
        occurrences(c.messages, id, c.messages.len()) <= 1,
        nested_within(c.messages, 0),
        reactions_occupied(c.messages),
{
    lemma_listed_ids(c.events, queued(c.receipts), c.members, c.search, id);
    lemma_listed_nested(c.events, queued(c.receipts), c.members, c.search);
    lemma_listed_occupied(c.events, queued(c.receipts), c.members, c.search);
}

} // verus!
