//! What holds of a message tree whatever events reach it.

use crate::event::{BodyView, ContentView, EventView, RelationView};
use crate::message::{
    deeper, edited, handed_down, handled, has_id, is_first, lemma_merged_nothing,
    lemma_position, merge_result, merged, not_event, not_message, occupied, occurs, position,
    redacted, started, stripped, target, without_event, MergeResult, MessageView,
};
use crate::reaction::ReactionView;
use vstd::prelude::*;

verus! {

/// Replies nest no deeper than four levels: in a list at depth `d` a
/// message has replies only while `d` is at most three, and its replies
/// keep to the same rule one level down.
pub open spec fn nested_within(ms: Seq<MessageView>, d: nat) -> bool
    decreases ms,
{
    forall|i: int|
        0 <= i < ms.len() && (#[trigger] ms[i]).replies.len() > 0 ==> d <= 3 && nested_within(
            ms[i].replies,
            d + 1,
        )
}

/// No event makes replies nest deeper than four levels: a reply that
/// would go below the fourth level is added beside its message instead.
pub proof fn lemma_depth_cap(ms: Seq<MessageView>, e: EventView, d: nat)
    requires
        nested_within(ms, d),
    ensures
        nested_within(merged(ms, e, d), d),
    decreases ms,
{
    let out = merged(ms, e, d);
    if handled(ms, e) {
        let id = target(e).unwrap();
        let i = position(ms, id);
        let w = choose|w: int| 0 <= w < ms.len() && (#[trigger] ms[w]).id == id;
        lemma_first_exists(ms, id, w);
        assert(is_first(ms, id, i));
        assert forall|k: int| 0 <= k < out.len() && (#[trigger] out[k]).replies.len() > 0 implies d
            <= 3 && nested_within(out[k].replies, d + 1) by {
            match e.content {
                ContentView::Message { relation: RelationView::Replacement { new_body, .. }, .. } => {
                    assert(out[k].replies == ms[k].replies);
                },
                ContentView::Message { body, relation: RelationView::Reply { event_id } } => {
                    let reply = started(e, body, Some(event_id));
                    if d > 3 {
                        if k < ms.len() {
                            assert(out[k] == ms[k]);
                        }
                    } else if k < ms.len() - 1 {
                        if k < i {
                            assert(out[k] == ms[k]);
                        } else {
                            assert(out[k] == ms[k + 1]);
                        }
                    } else {
                        let old_replies = ms[i].replies;
                        let new_replies = old_replies.push(reply);
                        assert(out[k].replies == new_replies);
                        assert forall|j: int|
                            0 <= j < new_replies.len() && (#[trigger] new_replies[j]).replies.len()
                                > 0 implies d + 1 <= 3 && nested_within(
                            new_replies[j].replies,
                            d + 2,
                        ) by {
                            assert(j < old_replies.len());
                            assert(new_replies[j] == old_replies[j]);
                            assert(ms[i].replies.len() > 0);
                            assert(nested_within(ms[i].replies, d + 1));
                        }
                    }
                },
                ContentView::Reaction { key, .. } => {
                    assert(out[k].replies == ms[k].replies);
                },
                _ => {},
            }
        }
    } else {
        let below = handed_down(ms, e, d);
        assert forall|k: int| 0 <= k < below.len() && (#[trigger] below[k]).replies.len() > 0 implies d
            <= 3 && nested_within(below[k].replies, d + 1) by {
            if ms[k].replies.len() == 0 {
                assert(ms[k].replies =~= Seq::<MessageView>::empty());
                lemma_merged_nothing(e, deeper(d));
            } else {
                lemma_depth_cap(ms[k].replies, e, d + 1);
            }
        }
        match redacted(e) {
            Some(id) => {
                assert forall|k: int| 0 <= k < out.len() && (#[trigger] out[k]).replies.len()
                    > 0 implies d <= 3 && nested_within(out[k].replies, d + 1) by {
                    assert(out.contains(out[k]));
                    below.lemma_filter_contains_rev(not_message(id), out[k]);
                    assert(below.contains(out[k]));
                    let j = below.index_of(out[k]);
                    assert(below[j] == out[k]);
                }
            },
            None => {},
        }
    }
}

/// Where a list holds a message with an id, one of them is the first.
pub proof fn lemma_first_exists(ms: Seq<MessageView>, id: Seq<char>, w: int)
    requires
        0 <= w < ms.len(),
        ms[w].id == id,
    ensures
        is_first(ms, id, position(ms, id)),
        position(ms, id) <= w,
    decreases w,
{
    if exists|j: int| 0 <= j < w && (#[trigger] ms[j]).id == id {
        let j = choose|j: int| 0 <= j < w && (#[trigger] ms[j]).id == id;
        lemma_first_exists(ms, id, j);
    } else {
        assert(is_first(ms, id, w));
        lemma_position(ms, id, w);
    }
}

/// No reaction of `rs` holds the event `id`.
pub open spec fn events_clear(rs: Seq<ReactionView>, id: Seq<char>) -> bool {
    forall|k: int, j: int|
        0 <= k < rs.len() && 0 <= j < rs[k].events.len() ==> (#[trigger] rs[k].events[j]).id != id
}

/// Every reaction of `rs` has an event.
pub open spec fn all_occupied(rs: Seq<ReactionView>) -> bool {
    forall|k: int| 0 <= k < rs.len() ==> (#[trigger] rs[k]).events.len() > 0
}

/// Nothing in the tree has the id `id`: no message, no reply, and no event
/// of a reaction.
pub open spec fn clear_of(ms: Seq<MessageView>, id: Seq<char>) -> bool
    decreases ms,
{
    forall|i: int|
        0 <= i < ms.len() ==> (#[trigger] ms[i]).id != id && events_clear(ms[i].reactions, id)
            && clear_of(ms[i].replies, id)
}

/// Every reaction in the tree has an event.
pub open spec fn reactions_occupied(ms: Seq<MessageView>) -> bool
    decreases ms,
{
    forall|i: int|
        0 <= i < ms.len() ==> all_occupied((#[trigger] ms[i]).reactions) && reactions_occupied(
            ms[i].replies,
        )
}

/// A filter that every element passes keeps the sequence as it is.
pub proof fn lemma_filter_keeps_all<A>(s: Seq<A>, p: spec_fn(A) -> bool)
    requires
        forall|i: int| 0 <= i < s.len() ==> p(#[trigger] s[i]),
    ensures
        s.filter(p) == s,
    decreases s.len(),
{
    reveal(Seq::filter);
    if s.len() > 0 {
        assert forall|i: int| 0 <= i < s.drop_last().len() implies p(#[trigger] s.drop_last()[i]) by {
            assert(p(s[i]));
        }
        lemma_filter_keeps_all(s.drop_last(), p);
        assert(p(s[s.len() - 1]));
        assert(s.drop_last().push(s.last()) == s);
    }
}

/// After an event was deleted from a list of reactions, no reaction holds
/// it and none is left without events.
pub proof fn lemma_without_event(rs: Seq<ReactionView>, id: Seq<char>)
    ensures
        events_clear(without_event(rs, id), id),
        all_occupied(without_event(rs, id)),
{
    let bare = stripped(rs, id);
    let out = without_event(rs, id);
    assert forall|k: int| 0 <= k < out.len() implies (#[trigger] out[k]).events.len() > 0 by {
        bare.lemma_filter_pred(occupied(), k);
    }
    assert forall|k: int, j: int| 0 <= k < out.len() && 0 <= j < out[k].events.len() implies (
    #[trigger] out[k].events[j]).id != id by {
        assert(out.contains(out[k]));
        bare.lemma_filter_contains_rev(occupied(), out[k]);
        let t = bare.index_of(out[k]);
        assert(bare[t] == out[k]);
        rs[t].events.lemma_filter_pred(not_event(id), j);
    }
}

/// Reactions that do not hold an event, and all have events, stay as they
/// are when that event is deleted.
pub proof fn lemma_without_absent_event(rs: Seq<ReactionView>, id: Seq<char>)
    requires
        events_clear(rs, id),
        all_occupied(rs),
    ensures
        without_event(rs, id) == rs,
{
    let bare = stripped(rs, id);
    assert forall|k: int| 0 <= k < rs.len() implies bare[k] == rs[k] by {
        assert forall|j: int| 0 <= j < rs[k].events.len() implies not_event(id)(
            #[trigger] rs[k].events[j],
        ) by {
            assert(rs[k].events[j].id != id);
        }
        lemma_filter_keeps_all(rs[k].events, not_event(id));
    }
    assert(bare =~= rs);
    assert forall|k: int| 0 <= k < bare.len() implies occupied()(#[trigger] bare[k]) by {
        assert(rs[k].events.len() > 0);
    }
    lemma_filter_keeps_all(bare, occupied());
}

/// A redaction leaves nothing of what it deletes: no message and no reply
/// with that id is left in the tree, and with each of them go its
/// reactions; no reaction holds an event with that id.
pub proof fn lemma_redaction_clears(ms: Seq<MessageView>, e: EventView, d: nat, id: Seq<char>)
    requires
        redacted(e) == Some(id),
    ensures
        clear_of(merged(ms, e, d), id),
        merge_result(ms, e) == MergeResult::Ignored,
    decreases ms,
{
    let below = handed_down(ms, e, d);
    let out = merged(ms, e, d);
    assert(!handled(ms, e));
    assert(out == below.filter(not_message(id)));
    assert forall|k: int| 0 <= k < out.len() implies (#[trigger] out[k]).id != id && events_clear(
        out[k].reactions,
        id,
    ) && clear_of(out[k].replies, id) by {
        below.lemma_filter_pred(not_message(id), k);
        assert(out.contains(out[k]));
        below.lemma_filter_contains_rev(not_message(id), out[k]);
        let j = below.index_of(out[k]);
        assert(below[j] == out[k]);
        lemma_without_event(ms[j].reactions, id);
        lemma_redaction_clears(ms[j].replies, e, deeper(d), id);
    }
}

/// A redaction changes only what it deletes: a tree that holds nothing with
/// the deleted id stays as it is.
pub proof fn lemma_redaction_elsewhere(ms: Seq<MessageView>, e: EventView, d: nat, id: Seq<char>)
    requires
        redacted(e) == Some(id),
        clear_of(ms, id),
        reactions_occupied(ms),
    ensures
        merged(ms, e, d) == ms,
    decreases ms,
{
    let below = handed_down(ms, e, d);
    assert(!handled(ms, e));
    assert forall|i: int| 0 <= i < ms.len() implies below[i] == ms[i] by {
        assert(ms[i].id != id);
        lemma_without_absent_event(ms[i].reactions, id);
        lemma_redaction_elsewhere(ms[i].replies, e, deeper(d), id);
    }
    assert(below =~= ms);
    assert forall|i: int| 0 <= i < below.len() implies not_message(id)(#[trigger] below[i]) by {
        assert(ms[i].id != id);
    }
    lemma_filter_keeps_all(below, not_message(id));
}

/// How often the id `id` occurs on the first `n` messages of `ms` and
/// below them.
pub open spec fn occurrences(ms: Seq<MessageView>, id: Seq<char>, n: nat) -> nat
    decreases ms, n,
{
    if n == 0 || n > ms.len() {
        0
    } else {
        occurrences(ms, id, (n - 1) as nat) + (if ms[n - 1].id == id {
            1nat
        } else {
            0nat
        }) + occurrences(ms[n - 1].replies, id, ms[n - 1].replies.len())
    }
}

/// How often the id `id` occurs on the message `m` and below it.
pub open spec fn weight(m: MessageView, id: Seq<char>) -> nat {
    (if m.id == id {
        1nat
    } else {
        0nat
    }) + occurrences(m.replies, id, m.replies.len())
}

/// The first message with the id `id` among the first `n` messages of `ms`
/// and what is below them, each message before its replies.
pub open spec fn located(ms: Seq<MessageView>, id: Seq<char>, n: nat) -> Option<MessageView>
    decreases ms, n,
{
    if n == 0 || n > ms.len() {
        None
    } else {
        match located(ms, id, (n - 1) as nat) {
            Some(m) => Some(m),
            None => {
                if ms[n - 1].id == id {
                    Some(ms[n - 1])
                } else {
                    located(ms[n - 1].replies, id, ms[n - 1].replies.len())
                }
            },
        }
    }
}

/// Whether the event `e` is an edit of the message `id` that installs the
/// content `body`.
pub open spec fn edits(e: EventView, id: Seq<char>, body: BodyView) -> bool {
    e.content matches ContentView::Message {
        relation: RelationView::Replacement { event_id, new_body },
        ..
    } && event_id == id && new_body == body
}

proof fn lemma_occurrences_hold(ms: Seq<MessageView>, id: Seq<char>, n: nat, j: int)
    requires
        0 <= j < n <= ms.len(),
    ensures
        occurrences(ms, id, n) >= weight(ms[j], id),
    decreases n,
{
    if j < n - 1 {
        lemma_occurrences_hold(ms, id, (n - 1) as nat, j);
    }
}

proof fn lemma_occurrences_two(ms: Seq<MessageView>, id: Seq<char>, n: nat, j: int, k: int)
    requires
        0 <= j < k < n <= ms.len(),
    ensures
        occurrences(ms, id, n) >= weight(ms[j], id) + weight(ms[k], id),
    decreases n,
{
    if k < n - 1 {
        lemma_occurrences_two(ms, id, (n - 1) as nat, j, k);
    } else {
        lemma_occurrences_hold(ms, id, (n - 1) as nat, j);
    }
}

/// An id that does not occur is not found.
pub proof fn lemma_absent_not_located(ms: Seq<MessageView>, id: Seq<char>, n: nat)
    requires
        n <= ms.len(),
        occurrences(ms, id, n) == 0,
    ensures
        located(ms, id, n) is None,
    decreases ms, n,
{
    if n > 0 {
        lemma_absent_not_located(ms, id, (n - 1) as nat);
        lemma_absent_not_located(ms[n - 1].replies, id, ms[n - 1].replies.len());
    }
}

/// An id that stands nowhere in a tree is not counted.
pub proof fn lemma_absent_counts(ms: Seq<MessageView>, id: Seq<char>, n: nat)
    requires
        !occurs(ms, id),
        n <= ms.len(),
    ensures
        occurrences(ms, id, n) == 0,
    decreases ms, n,
{
    if n > 0 {
        let m = ms[n - 1];
        assert(m.id != id && !occurs(m.replies, id));
        lemma_absent_counts(m.replies, id, m.replies.len());
        lemma_absent_counts(ms, id, (n - 1) as nat);
    }
}

/// An id that is counted stands in the tree.
pub proof fn lemma_counted_occurs(ms: Seq<MessageView>, id: Seq<char>, n: nat)
    requires
        n <= ms.len(),
        occurrences(ms, id, n) > 0,
    ensures
        occurs(ms, id),
    decreases ms, n,
{
    if n > 0 {
        let m = ms[n - 1];
        if occurrences(ms, id, (n - 1) as nat) > 0 {
            lemma_counted_occurs(ms, id, (n - 1) as nat);
        } else if m.id != id {
            lemma_counted_occurs(m.replies, id, m.replies.len());
            assert(occurs(m.replies, id));
        }
    }
}

/// An id that stands in a tree is counted.
pub proof fn lemma_occurs_counted(ms: Seq<MessageView>, id: Seq<char>)
    requires
        occurs(ms, id),
    ensures
        occurrences(ms, id, ms.len()) > 0,
    decreases ms, ms.len() + 1,
{
    if occurrences(ms, id, ms.len()) == 0 {
        lemma_uncounted_absent(ms, id, ms.len());
        let i = choose|i: int|
            0 <= i < ms.len() && ((#[trigger] ms[i]).id == id || occurs(ms[i].replies, id));
        assert(false);
    }
}

/// Where an id is not counted on the first `n` messages and below them,
/// none of them has it and it stands below none of them.
proof fn lemma_uncounted_absent(ms: Seq<MessageView>, id: Seq<char>, n: nat)
    requires
        n <= ms.len(),
        occurrences(ms, id, n) == 0,
    ensures
        forall|i: int| 0 <= i < n ==> (#[trigger] ms[i]).id != id && !occurs(ms[i].replies, id),
    decreases ms, n,
{
    if n > 0 {
        lemma_uncounted_absent(ms, id, (n - 1) as nat);
        let m = ms[n - 1];
        if occurs(m.replies, id) {
            lemma_occurs_counted(m.replies, id);
        }
    }
}

/// What is found under an id has that id.
pub proof fn lemma_located_id(ms: Seq<MessageView>, id: Seq<char>, n: nat)
    requires
        n <= ms.len(),
    ensures
        located(ms, id, n) matches Some(m) ==> m.id == id,
    decreases ms, n,
{
    if n > 0 {
        lemma_located_id(ms, id, (n - 1) as nat);
        lemma_located_id(ms[n - 1].replies, id, ms[n - 1].replies.len());
    }
}

/// The message after an edit, if there is a message.
pub open spec fn edited_if(m: Option<MessageView>, body: BodyView) -> Option<MessageView> {
    match m {
        Some(x) => Some(edited(x, body)),
        None => None,
    }
}

proof fn lemma_edit_here(ms: Seq<MessageView>, i: int, id: Seq<char>, body: BodyView, n: nat)
    requires
        is_first(ms, id, i),
        occurrences(ms, id, ms.len()) <= 1,
        n <= ms.len(),
    ensures
        occurrences(ms.update(i, edited(ms[i], body)), id, n) == occurrences(ms, id, n),
        located(ms, id, n) == if n > i {
            Some(ms[i])
        } else {
            None
        },
        located(ms.update(i, edited(ms[i], body)), id, n) == if n > i {
            Some(edited(ms[i], body))
        } else {
            None
        },
    decreases n,
{
    let up = ms.update(i, edited(ms[i], body));
    if n > 0 {
        lemma_edit_here(ms, i, id, body, (n - 1) as nat);
        let j = n - 1;
        lemma_occurrences_hold(ms, id, ms.len(), i);
        if j != i {
            if j < i {
                lemma_occurrences_two(ms, id, ms.len(), j, i);
            } else {
                lemma_occurrences_two(ms, id, ms.len(), i, j);
            }
            assert(weight(ms[j], id) == 0);
            assert(up[j] == ms[j]);
            lemma_absent_not_located(ms[j].replies, id, ms[j].replies.len());
        } else {
            assert(weight(ms[i], id) == 1);
            assert(up[i] == edited(ms[i], body));
            assert(weight(up[i], id) == weight(ms[i], id));
        }
    }
}

/// An edit changes the message it is about and no other: where the id of
/// the edit occurs once in the tree at most, the message that is found
/// under it afterwards is the message that was found before with the new
/// content, the old content being the last of its history; and the id
/// occurs as often as before.
pub proof fn lemma_edit(ms: Seq<MessageView>, e: EventView, d: nat, id: Seq<char>, body: BodyView)
    requires
        edits(e, id, body),
        occurrences(ms, id, ms.len()) <= 1,
    ensures
        merged(ms, e, d).len() == ms.len(),
        occurrences(merged(ms, e, d), id, ms.len()) == occurrences(ms, id, ms.len()),
        located(merged(ms, e, d), id, ms.len()) == edited_if(located(ms, id, ms.len()), body),
        merge_result(ms, e) == if occurrences(ms, id, ms.len()) == 1 {
            MergeResult::Consumed
        } else {
            MergeResult::Ignored
        },
    decreases ms, ms.len() + 1,
{
    assert(target(e) == Some(id));
    if occurrences(ms, id, ms.len()) == 1 {
        lemma_counted_occurs(ms, id, ms.len());
    } else if occurs(ms, id) {
        lemma_occurs_counted(ms, id);
    }
    assert(redacted(e) is None);
    if handled(ms, e) {
        let w = choose|w: int| 0 <= w < ms.len() && (#[trigger] ms[w]).id == id;
        lemma_first_exists(ms, id, w);
        let i = position(ms, id);
        lemma_edit_here(ms, i, id, body, ms.len());
    } else {
        lemma_edit_below(ms, e, d, id, body, ms.len());
    }
}

proof fn lemma_edit_below(ms: Seq<MessageView>, e: EventView, d: nat, id: Seq<char>, body: BodyView, n: nat)
    requires
        edits(e, id, body),
        !has_id(ms, id),
        occurrences(ms, id, ms.len()) <= 1,
        n <= ms.len(),
    ensures
        occurrences(handed_down(ms, e, d), id, n) == occurrences(ms, id, n),
        located(handed_down(ms, e, d), id, n) == edited_if(located(ms, id, n), body),
    decreases ms, n,
{
    if n > 0 {
        let below = handed_down(ms, e, d);
        let j = n - 1;
        lemma_edit_below(ms, e, d, id, body, (n - 1) as nat);
        lemma_occurrences_hold(ms, id, ms.len(), j);
        assert(ms[j].id != id);
        assert(below[j].id == ms[j].id);
        assert(below[j].replies == merged(ms[j].replies, e, deeper(d)));
        lemma_edit(ms[j].replies, e, deeper(d), id, body);
    }
}

/// The tree after the events `es` were handed to it one after the other.
pub open spec fn merged_all(ms: Seq<MessageView>, es: Seq<EventView>, d: nat) -> Seq<MessageView>
    decreases es.len(),
{
    if es.len() == 0 {
        ms
    } else {
        merged(merged_all(ms, es.drop_last(), d), es.last(), d)
    }
}

/// Every one of `es` is an edit of the message `id`, and `bodies` are the
/// contents that they install.
pub open spec fn all_edit(es: Seq<EventView>, id: Seq<char>, bodies: Seq<BodyView>) -> bool {
    es.len() == bodies.len() && forall|k: int| 0 <= k < es.len() ==> edits(#[trigger] es[k], id, bodies[k])
}

/// After any number of edits of a message, its history has grown by as
/// many contents as there were edits, and its content is that of the last
/// edit: the history holds what it held, then the content that the message
/// had, then the contents of all edits but the last.
pub proof fn lemma_edit_history(
    ms: Seq<MessageView>,
    es: Seq<EventView>,
    d: nat,
    id: Seq<char>,
    bodies: Seq<BodyView>,
)
    requires
        all_edit(es, id, bodies),
        occurrences(ms, id, ms.len()) == 1,
        es.len() > 0,
    ensures
        located(ms, id, ms.len()) is Some,
        merged_all(ms, es, d).len() == ms.len(),
        occurrences(merged_all(ms, es, d), id, ms.len()) == 1,
        located(merged_all(ms, es, d), id, ms.len()) matches Some(after) && ({
            let before = located(ms, id, ms.len())->0;
            &&& after.id == id
            &&& after.body == bodies.last()
            &&& after.history == before.history.push(before.body) + bodies.drop_last()
            &&& after.history.len() == before.history.len() + es.len()
        }),
    decreases es.len(),
{
    lemma_present_located(ms, id, ms.len());
    let before = located(ms, id, ms.len())->0;
    if es.len() == 1 {
        assert(es.drop_last() =~= Seq::<EventView>::empty());
        assert(merged_all(ms, es.drop_last(), d) == ms);
        assert(edits(es[0], id, bodies[0]));
        lemma_edit(ms, es.last(), d, id, bodies.last());
        lemma_located_id(merged_all(ms, es, d), id, ms.len());
        assert(bodies.drop_last() =~= Seq::<BodyView>::empty());
        assert(before.history.push(before.body) + bodies.drop_last() =~= before.history.push(
            before.body,
        ));
    } else {
        let first = es.drop_last();
        let contents = bodies.drop_last();
        assert forall|k: int| 0 <= k < first.len() implies edits(#[trigger] first[k], id, contents[k]) by {
            assert(edits(es[k], id, bodies[k]));
        }
        lemma_edit_history(ms, first, d, id, contents);
        let middle = merged_all(ms, first, d);
        assert(edits(es[es.len() - 1], id, bodies[bodies.len() - 1]));
        lemma_edit(middle, es.last(), d, id, bodies.last());
        let mid = located(middle, id, ms.len())->0;
        assert(mid.history.push(mid.body) =~= before.history.push(before.body) + bodies.drop_last()) by {
            assert(contents.drop_last().push(contents.last()) =~= contents);
        }
        lemma_located_id(merged_all(ms, es, d), id, ms.len());
    }
}

/// An id that occurs is found.
pub proof fn lemma_present_located(ms: Seq<MessageView>, id: Seq<char>, n: nat)
    requires
        n <= ms.len(),
        occurrences(ms, id, n) > 0,
    ensures
        located(ms, id, n) is Some,
    decreases ms, n,
{
    if n > 0 {
        if occurrences(ms, id, (n - 1) as nat) > 0 {
            lemma_present_located(ms, id, (n - 1) as nat);
        } else if ms[n - 1].id != id {
            lemma_present_located(ms[n - 1].replies, id, ms[n - 1].replies.len());
        }
    }
}

} // verus!
