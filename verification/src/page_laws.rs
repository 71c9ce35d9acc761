//! What a page of older events does to the messages that are shown: where
//! the events that the room holds are about none of the events of the page,
//! every message that was shown is shown afterwards.

use crate::chat::{
    after_batch, chat_ok, lemma_asked_all_room, lemma_batch_keeps_bookmark, lemma_bookmark_holds,
    ChatView,
};
use crate::event::{ContentView, EventView, RelationView};
use crate::fanout::with_receipts;
use crate::layout::{narrower, row_for, rows_down, rows_down_all, rows_for, rows_of, shows, RowView};
use crate::listing::{
    found, grown, kept, listed, names_known, reactions_merged, searched, taken_in,
};
use crate::message::{
    applied_here, cleaned, deeper, handed_down, handled, has_id, is_first, lemma_occurs,
    lemma_position, merge_result, merged, message_of, not_event, not_message, occupied, occurs,
    occurs_below, position, redacted, started, stripped, target, with_reply, without_event,
    MessageView,
};
use crate::message_laws::{
    clear_of, events_clear, lemma_filter_keeps_all, lemma_first_exists,
    lemma_without_absent_event, reactions_occupied,
};
use crate::reaction::ReactionView;
use crate::receipts::{queued, ReceiptView};
use crate::timeline::{
    before, holds, inserted_all, lemma_inserted, lemma_lex_total, lemma_place, ordered, place,
};
use crate::tree_laws::{
    alike, lemma_alike_merged, lemma_alike_names, lemma_alike_receipts, lemma_grown_occupied,
};
use crate::username::MemberView;
use vstd::prelude::*;

verus! {

/// The event that the event `e` is about, if it is about one: the one it
/// edits, answers, reacts to or deletes.
pub open spec fn refers(e: EventView) -> Option<Seq<char>> {
    match target(e) {
        Some(id) => Some(id),
        None => redacted(e),
    }
}

/// What a tree holds nothing of does not stand in it.
proof fn lemma_clear_absent(ms: Seq<MessageView>, id: Seq<char>)
    requires
        clear_of(ms, id),
    ensures
        !occurs(ms, id),
    decreases ms,
{
    if occurs(ms, id) {
        let i = choose|i: int|
            0 <= i < ms.len() && ((#[trigger] ms[i]).id == id || occurs(ms[i].replies, id));
        lemma_clear_absent(ms[i].replies, id);
    }
}

/// An event changes nothing in a tree that holds nothing of what the event
/// is about.
proof fn lemma_untouched(ms: Seq<MessageView>, e: EventView, d: nat)
    requires
        refers(e) matches Some(id) ==> clear_of(ms, id),
        reactions_occupied(ms),
    ensures
        !handled(ms, e),
        handed_down(ms, e, d) == ms,
        merged(ms, e, d) == ms,
    decreases ms,
{
    let below = handed_down(ms, e, d);
    assert forall|i: int| 0 <= i < ms.len() implies below[i] == ms[i] by {
        match redacted(e) {
            Some(id) => {
                lemma_without_absent_event(ms[i].reactions, id);
            },
            None => {},
        }
        lemma_untouched(ms[i].replies, e, deeper(d));
    }
    assert(below =~= ms);
    match redacted(e) {
        Some(id) => {
            assert forall|i: int| 0 <= i < below.len() implies not_message(id)(#[trigger] below[i]) by {
                assert(ms[i].id != id);
            }
            lemma_filter_keeps_all(below, not_message(id));
        },
        None => {},
    }
}

/// An event that is about nothing in the first part of a list leaves that
/// part alone and does to the rest what it does to the rest alone.
proof fn lemma_merged_after(a: Seq<MessageView>, b: Seq<MessageView>, e: EventView, d: nat)
    requires
        refers(e) matches Some(id) ==> clear_of(a, id),
        reactions_occupied(a),
    ensures
        merged(a + b, e, d) == a + merged(b, e, d),
        merge_result(a + b, e) == merge_result(b, e),
{
    let x = a + b;
    lemma_untouched(a, e, d);
    match target(e) {
        Some(t) => {
            lemma_clear_absent(a, t);
            lemma_occurs(a, t);
            lemma_occurs(b, t);
            lemma_occurs(x, t);
            if has_id(x, t) {
                let i = choose|i: int| 0 <= i < x.len() && (#[trigger] x[i]).id == t;
                if i < a.len() {
                    assert(a[i].id == t);
                }
                assert(b[i - a.len()].id == t);
            }
            if has_id(b, t) {
                let j = choose|j: int| 0 <= j < b.len() && (#[trigger] b[j]).id == t;
                assert(x[a.len() + j].id == t);
            }
            if occurs_below(x, t, x.len()) {
                let j = choose|j: int| 0 <= j < x.len() && occurs((#[trigger] x[j]).replies, t);
                if j < a.len() {
                    assert(occurs(a[j].replies, t));
                }
                assert(occurs(b[j - a.len()].replies, t));
            }
            if occurs_below(b, t, b.len()) {
                let j = choose|j: int| 0 <= j < b.len() && occurs((#[trigger] b[j]).replies, t);
                assert(occurs(x[a.len() + j].replies, t));
            }
        },
        None => {},
    }
    if handled(b, e) {
        let t = target(e).unwrap();
        let w = choose|w: int| 0 <= w < b.len() && (#[trigger] b[w]).id == t;
        lemma_first_exists(b, t, w);
        let p = position(b, t);
        let i = a.len() + p;
        assert(is_first(x, t, i)) by {
            assert forall|j: int| 0 <= j < i implies (#[trigger] x[j]).id != t by {
                if j < a.len() {
                    assert(a[j].id != t);
                } else {
                    assert(b[j - a.len()].id != t);
                }
            }
        }
        lemma_position(x, t, i);
        assert(x[i] == b[p]);
        match e.content {
            ContentView::Message { relation: RelationView::Replacement { new_body, .. }, .. } => {
                assert(applied_here(x, e, d) =~= a + applied_here(b, e, d));
            },
            ContentView::Message { body, relation: RelationView::Reply { event_id } } => {
                assert(applied_here(x, e, d) =~= a + applied_here(b, e, d));
            },
            ContentView::Reaction { key, .. } => {
                assert(applied_here(x, e, d) =~= a + applied_here(b, e, d));
            },
            _ => {},
        }
    } else {
        let below = handed_down(x, e, d);
        assert(below =~= a + handed_down(b, e, d)) by {
            assert forall|i: int| 0 <= i < x.len() implies below[i] == (a + handed_down(b, e, d))[i] by {
                if i < a.len() {
                    assert(x[i] == a[i]);
                    assert(handed_down(a, e, d)[i] == a[i]);
                } else {
                    assert(x[i] == b[i - a.len()]);
                }
            }
        }
        match redacted(e) {
            Some(id) => {
                assert forall|i: int| 0 <= i < a.len() implies not_message(id)(#[trigger] a[i]) by {
                    assert(a[i].id != id);
                }
                lemma_filter_keeps_all(a, not_message(id));
                Seq::filter_distributes_over_add(a, handed_down(b, e, d), not_message(id));
            },
            None => {},
        }
    }
}

/// An event that is about nothing in the first part of a list is taken in
/// by the rest alone.
proof fn lemma_taken_in_after(a: Seq<MessageView>, b: Seq<MessageView>, e: EventView)
    requires
        refers(e) matches Some(id) ==> clear_of(a, id),
        reactions_occupied(a),
    ensures
        taken_in(a + b, e) == a + taken_in(b, e),
{
    match message_of(e, false) {
        Some(m) => {
            assert((a + b).push(m) =~= a + b.push(m));
        },
        None => {
            lemma_merged_after(a, b, e, 0);
            match message_of(e, true) {
                Some(m) => {
                    assert((a + merged(b, e, 0)).push(m) =~= a + merged(b, e, 0).push(m));
                },
                None => {},
            }
        },
    }
}

/// Reactions that hold no event with an id hold none after an event was
/// deleted from them.
proof fn lemma_cleaned_clear(rs: Seq<ReactionView>, e: EventView, id: Seq<char>)
    requires
        events_clear(rs, id),
    ensures
        events_clear(cleaned(rs, e), id),
{
    match redacted(e) {
        Some(gone) => {
            let bare = stripped(rs, gone);
            let out = without_event(rs, gone);
            assert forall|k: int, j: int| 0 <= k < out.len() && 0 <= j < out[k].events.len() implies (
            #[trigger] out[k].events[j]).id != id by {
                assert(out.contains(out[k]));
                bare.lemma_filter_contains_rev(occupied(), out[k]);
                let t = bare.index_of(out[k]);
                assert(bare[t] == out[k]);
                let ev = out[k].events[j];
                assert(bare[t].events.contains(ev));
                rs[t].events.lemma_filter_contains_rev(not_event(gone), ev);
                let u = rs[t].events.index_of(ev);
                assert(rs[t].events[u].id != id);
            }
        },
        None => {},
    }
}

/// A new message holds nothing but its own id.
proof fn lemma_leaf_clear(ms: Seq<MessageView>, m: MessageView, id: Seq<char>)
    requires
        clear_of(ms, id),
        m.id != id,
        m.reactions.len() == 0,
        m.replies.len() == 0,
    ensures
        clear_of(ms.push(m), id),
{
    let out = ms.push(m);
    assert forall|i: int| 0 <= i < out.len() implies (#[trigger] out[i]).id != id && events_clear(
        out[i].reactions,
        id,
    ) && clear_of(out[i].replies, id) by {
        if i < ms.len() {
            assert(out[i] == ms[i]);
        }
    }
}

/// An event brings nothing into a tree but what has its own id.
proof fn lemma_merged_clear(ms: Seq<MessageView>, e: EventView, d: nat, id: Seq<char>)
    requires
        clear_of(ms, id),
        e.id != id,
    ensures
        clear_of(merged(ms, e, d), id),
    decreases ms,
{
    let out = merged(ms, e, d);
    if handled(ms, e) {
        let t = target(e).unwrap();
        let i = position(ms, t);
        let w = choose|w: int| 0 <= w < ms.len() && (#[trigger] ms[w]).id == t;
        lemma_first_exists(ms, t, w);
        match e.content {
            ContentView::Message { relation: RelationView::Replacement { new_body, .. }, .. } => {
                assert forall|k: int| 0 <= k < out.len() implies (#[trigger] out[k]).id != id
                    && events_clear(out[k].reactions, id) && clear_of(out[k].replies, id) by {
                    assert(out[k].id == ms[k].id);
                    assert(out[k].reactions == ms[k].reactions);
                    assert(out[k].replies == ms[k].replies);
                }
            },
            ContentView::Message { body, relation: RelationView::Reply { event_id } } => {
                let reply = started(e, body, Some(event_id));
                if d > 3 {
                    lemma_leaf_clear(ms, reply, id);
                } else {
                    let rest = ms.remove(i);
                    lemma_leaf_clear(ms[i].replies, reply, id);
                    let parent = with_reply(ms[i], reply);
                    assert forall|k: int| 0 <= k < out.len() implies (#[trigger] out[k]).id != id
                        && events_clear(out[k].reactions, id) && clear_of(out[k].replies, id) by {
                        if k < i {
                            assert(out[k] == ms[k]);
                        } else if k < rest.len() {
                            assert(out[k] == ms[k + 1]);
                        } else {
                            assert(out[k] == parent);
                        }
                    }
                }
            },
            ContentView::Reaction { key, .. } => {
                assert forall|k: int| 0 <= k < out.len() implies (#[trigger] out[k]).id != id
                    && events_clear(out[k].reactions, id) && clear_of(out[k].replies, id) by {
                    assert(out[k].id == ms[k].id);
                    assert(out[k].replies == ms[k].replies);
                    if k == i {
                        let rs = out[k].reactions;
                        assert forall|r: int, j: int|
                            0 <= r < rs.len() && 0 <= j < rs[r].events.len() implies (
                        #[trigger] rs[r].events[j]).id != id by {
                            if r < ms[i].reactions.len() {
                                assert(rs[r] == ms[i].reactions[r]);
                                assert(ms[i].reactions[r].events[j].id != id);
                            }
                        }
                    } else {
                        assert(out[k].reactions == ms[k].reactions);
                    }
                }
            },
            _ => {},
        }
    } else {
        let below = handed_down(ms, e, d);
        assert forall|k: int| 0 <= k < below.len() implies (#[trigger] below[k]).id != id
            && events_clear(below[k].reactions, id) && clear_of(below[k].replies, id) by {
            assert(below[k].id == ms[k].id);
            lemma_cleaned_clear(ms[k].reactions, e, id);
            lemma_merged_clear(ms[k].replies, e, deeper(d), id);
        }
        match redacted(e) {
            Some(gone) => {
                assert forall|k: int| 0 <= k < out.len() implies (#[trigger] out[k]).id != id
                    && events_clear(out[k].reactions, id) && clear_of(out[k].replies, id) by {
                    assert(out.contains(out[k]));
                    below.lemma_filter_contains_rev(not_message(gone), out[k]);
                    let j = below.index_of(out[k]);
                    assert(below[j] == out[k]);
                }
            },
            None => {},
        }
    }
}

/// The messages that events make hold nothing with an id that none of the
/// events has.
pub proof fn lemma_grown_clear(es: Seq<EventView>, id: Seq<char>)
    requires
        !holds(es, id),
    ensures
        clear_of(grown(es), id),
    decreases es.len(),
{
    if es.len() > 0 {
        let first = es.drop_last();
        let e = es.last();
        assert(es[es.len() - 1].id != id);
        assert(!holds(first, id)) by {
            if holds(first, id) {
                let k = choose|k: int| 0 <= k < first.len() && (#[trigger] first[k]).id == id;
                assert(es[k].id == id);
            }
        }
        lemma_grown_clear(first, id);
        let ms = grown(first);
        match message_of(e, false) {
            Some(m) => {
                lemma_leaf_clear(ms, m, id);
            },
            None => {
                lemma_merged_clear(ms, e, 0, id);
                match message_of(e, true) {
                    Some(m) => {
                        lemma_leaf_clear(merged(ms, e, 0), m, id);
                    },
                    None => {},
                }
            },
        }
    }
}

/// None of the events `es` is about one of the events `page`.
pub open spec fn unrelated(es: Seq<EventView>, page: Seq<EventView>) -> bool {
    forall|k: int| 0 <= k < es.len() ==> (refers(#[trigger] es[k]) matches Some(id) ==> !holds(page, id))
}

/// Events that are about none of the events before them make their
/// messages behind those of the events before them, as they would alone.
pub proof fn lemma_grown_after(page: Seq<EventView>, es: Seq<EventView>)
    requires
        unrelated(es, page),
    ensures
        grown(page + es) == grown(page) + grown(es),
    decreases es.len(),
{
    if es.len() == 0 {
        assert(page + es =~= page);
        assert(grown(page) + grown(es) =~= grown(page));
    } else {
        let first = es.drop_last();
        let e = es.last();
        assert((page + es).drop_last() =~= page + first);
        assert((page + es).last() == e);
        assert(unrelated(first, page)) by {
            assert forall|k: int| 0 <= k < first.len() implies (refers(#[trigger] first[k]) matches Some(
                id,
            ) ==> !holds(page, id)) by {
                assert(first[k] == es[k]);
            }
        }
        lemma_grown_after(page, first);
        assert(es[es.len() - 1] == e);
        match refers(e) {
            Some(id) => {
                lemma_grown_clear(page, id);
            },
            None => {},
        }
        lemma_grown_occupied(page);
        lemma_taken_in_after(grown(page), grown(first), e);
    }
}

/// Every event of `page` comes before every event of `es`.
pub open spec fn older(page: Seq<EventView>, es: Seq<EventView>) -> bool {
    forall|k: int, j: int|
        0 <= k < page.len() && 0 <= j < es.len() ==> before(#[trigger] page[k], #[trigger] es[j])
}

/// Events that are older than all that a room holds go in front of them:
/// the events afterwards are some of the page, then the events held.
pub proof fn lemma_page_goes_first(es: Seq<EventView>, page: Seq<EventView>) -> (front: Seq<EventView>)
    requires
        ordered(es),
        older(page, es),
    ensures
        inserted_all(es, page) == front + es,
        ordered(inserted_all(es, page)),
        forall|id: Seq<char>| #[trigger] holds(front, id) ==> holds(page, id),
    decreases page.len(),
{
    if page.len() == 0 {
        let front = Seq::<EventView>::empty();
        assert(front + es =~= es);
        front
    } else {
        let first = page.drop_last();
        let e = page.last();
        assert(older(first, es)) by {
            assert forall|k: int, j: int| 0 <= k < first.len() && 0 <= j < es.len() implies before(
                #[trigger] first[k],
                #[trigger] es[j],
            ) by {
                assert(before(page[k], es[j]));
            }
        }
        let before_e = lemma_page_goes_first(es, first);
        let prev = inserted_all(es, first);
        lemma_inserted(prev, e);
        assert forall|id: Seq<char>| #[trigger] holds(before_e, id) implies holds(page, id) by {
            assert(holds(first, id));
            let k = choose|k: int| 0 <= k < first.len() && (#[trigger] first[k]).id == id;
            assert(page[k].id == id);
        }
        if holds(prev, e.id) {
            before_e
        } else {
            lemma_place(prev, e);
            let k = place(prev, e);
            if k > before_e.len() {
                let j = before_e.len() as int;
                assert(prev[j] == es[0]);
                assert(before(prev[j], e));
                assert(before(page[page.len() - 1], es[0]));
                lemma_lex_total(e.id, es[0].id);
            }
            let front = before_e.insert(k, e);
            assert(prev.insert(k, e) =~= front + es);
            assert forall|id: Seq<char>| #[trigger] holds(front, id) implies holds(page, id) by {
                let i = choose|i: int| 0 <= i < front.len() && (#[trigger] front[i]).id == id;
                if i < k {
                    assert(before_e[i].id == id);
                    assert(holds(before_e, id));
                } else if i == k {
                    assert(page[page.len() - 1].id == id);
                } else {
                    assert(before_e[i - 1].id == id);
                    assert(holds(before_e, id));
                }
            }
            front
        }
    }
}

/// Being of the same shape goes both ways.
proof fn lemma_alike_sym(a: Seq<MessageView>, b: Seq<MessageView>)
    requires
        alike(a, b),
    ensures
        alike(b, a),
    decreases a,
{
    assert forall|i: int| 0 <= i < b.len() implies (#[trigger] b[i]).id == a[i].id && b[i].body
        == a[i].body && alike(b[i].replies, a[i].replies) by {
        assert(alike(a[i].replies, b[i].replies));
        lemma_alike_sym(a[i].replies, b[i].replies);
    }
}

/// Trees of the same shape as a third are of the same shape.
proof fn lemma_alike_trans(a: Seq<MessageView>, b: Seq<MessageView>, c: Seq<MessageView>)
    requires
        alike(a, b),
        alike(b, c),
    ensures
        alike(a, c),
    decreases a,
{
    assert forall|i: int| 0 <= i < a.len() implies (#[trigger] a[i]).id == c[i].id && a[i].body
        == c[i].body && alike(a[i].replies, c[i].replies) by {
        assert(alike(a[i].replies, b[i].replies));
        assert(alike(b[i].replies, c[i].replies));
        lemma_alike_trans(a[i].replies, b[i].replies, c[i].replies);
    }
}

/// Lists of the same shape are so from any message on.
proof fn lemma_alike_skip(a: Seq<MessageView>, b: Seq<MessageView>, n: int)
    requires
        alike(a, b),
        0 <= n <= a.len(),
    ensures
        alike(a.skip(n), b.skip(n)),
{
    let x = a.skip(n);
    let y = b.skip(n);
    assert forall|i: int| 0 <= i < x.len() implies (#[trigger] x[i]).id == y[i].id && x[i].body
        == y[i].body && alike(x[i].replies, y[i].replies) by {
        assert(alike(a[i + n].replies, b[i + n].replies));
    }
}

/// Lists of the same shape stay so with one more message each, the two
/// of the same shape.
proof fn lemma_alike_push(a: Seq<MessageView>, b: Seq<MessageView>, m: MessageView, n: MessageView)
    requires
        alike(a, b),
        m.id == n.id,
        m.body == n.body,
        alike(m.replies, n.replies),
    ensures
        alike(a.push(m), b.push(n)),
{
    let x = a.push(m);
    let y = b.push(n);
    assert forall|i: int| 0 <= i < x.len() implies (#[trigger] x[i]).id == y[i].id && x[i].body
        == y[i].body && alike(x[i].replies, y[i].replies) by {
        if i < a.len() {
            assert(alike(a[i].replies, b[i].replies));
        }
    }
}

/// Trees of the same shape hold the same messages.
proof fn lemma_alike_occurs(a: Seq<MessageView>, b: Seq<MessageView>, id: Seq<char>)
    requires
        alike(a, b),
        occurs(a, id),
    ensures
        occurs(b, id),
    decreases a,
{
    let i = choose|i: int|
        0 <= i < a.len() && ((#[trigger] a[i]).id == id || occurs(a[i].replies, id));
    assert(alike(a[i].replies, b[i].replies));
    if a[i].id != id {
        lemma_alike_occurs(a[i].replies, b[i].replies, id);
    }
    assert(b[i].id == id || occurs(b[i].replies, id));
}

/// A filter that decides alike on two lists of the same shape leaves lists
/// of the same shape.
proof fn lemma_alike_filter(a: Seq<MessageView>, b: Seq<MessageView>, p: spec_fn(MessageView) -> bool)
    requires
        alike(a, b),
        forall|i: int| 0 <= i < a.len() ==> p(#[trigger] a[i]) == p(b[i]),
    ensures
        alike(a.filter(p), b.filter(p)),
    decreases a.len(),
{
    reveal(Seq::filter);
    if a.len() > 0 {
        let a1 = a.drop_last();
        let b1 = b.drop_last();
        assert forall|i: int| 0 <= i < a1.len() implies (#[trigger] a1[i]).id == b1[i].id && a1[i].body
            == b1[i].body && alike(a1[i].replies, b1[i].replies) by {
            assert(alike(a[i].replies, b[i].replies));
        }
        assert forall|i: int| 0 <= i < a1.len() implies p(#[trigger] a1[i]) == p(b1[i]) by {
            assert(p(a[i]) == p(b[i]));
        }
        lemma_alike_filter(a1, b1, p);
        let k = a.len() - 1;
        assert(p(a[k]) == p(b[k]));
        assert(alike(a[k].replies, b[k].replies));
        if p(a.last()) {
            lemma_alike_push(a1.filter(p), b1.filter(p), a.last(), b.last());
        }
    }
}

/// A search leaves trees of the same shape in the same shape: whether a
/// message stays depends on its content and on the replies that stay.
proof fn lemma_found_alike(a: Seq<MessageView>, b: Seq<MessageView>, term: Seq<char>)
    requires
        alike(a, b),
    ensures
        alike(found(a, term), found(b, term)),
    decreases a,
{
    if term.len() > 0 {
        let sa = searched(a, term);
        let sb = searched(b, term);
        assert forall|i: int| 0 <= i < sa.len() implies (#[trigger] sa[i]).id == sb[i].id && sa[i].body
            == sb[i].body && alike(sa[i].replies, sb[i].replies) by {
            assert(alike(a[i].replies, b[i].replies));
            lemma_found_alike(a[i].replies, b[i].replies, term);
        }
        assert forall|i: int| 0 <= i < sa.len() implies kept(term)(#[trigger] sa[i]) == kept(term)(
            sb[i],
        ) by {
            assert(alike(sa[i].replies, sb[i].replies));
        }
        lemma_alike_filter(sa, sb, kept(term));
    }
}

/// A search looks at each message of a list by itself.
proof fn lemma_found_add(a: Seq<MessageView>, b: Seq<MessageView>, term: Seq<char>)
    ensures
        found(a + b, term) == found(a, term) + found(b, term),
{
    if term.len() > 0 {
        assert(searched(a + b, term) =~= searched(a, term) + searched(b, term));
        Seq::filter_distributes_over_add(searched(a, term), searched(b, term), kept(term));
    }
}

/// What stands in a list stands in a longer one.
proof fn lemma_occurs_add(a: Seq<MessageView>, b: Seq<MessageView>, id: Seq<char>)
    requires
        occurs(b, id),
    ensures
        occurs(a + b, id),
{
    let i = choose|i: int|
        0 <= i < b.len() && ((#[trigger] b[i]).id == id || occurs(b[i].replies, id));
    let x = a + b;
    assert(x[a.len() + i] == b[i]);
}

/// A list holds the same messages from either end.
proof fn lemma_occurs_reverse(ms: Seq<MessageView>, id: Seq<char>)
    ensures
        occurs(ms.reverse(), id) == occurs(ms, id),
{
    let r = ms.reverse();
    if occurs(ms, id) {
        let i = choose|i: int|
            0 <= i < ms.len() && ((#[trigger] ms[i]).id == id || occurs(ms[i].replies, id));
        assert(r[ms.len() - 1 - i] == ms[i]);
    }
    if occurs(r, id) {
        let i = choose|i: int|
            0 <= i < r.len() && ((#[trigger] r[i]).id == id || occurs(r[i].replies, id));
        assert(ms[ms.len() - 1 - i] == r[i]);
    }
}

/// Whether one of the first `n` messages of `ms` has the id `id`, or a
/// message below one of them.
pub open spec fn among(ms: Seq<MessageView>, id: Seq<char>, n: nat) -> bool {
    exists|j: int|
        0 <= j < n && j < ms.len() && ((#[trigger] ms[j]).id == id || occurs(ms[j].replies, id))
}

/// One message more adds itself and what stands below it.
proof fn lemma_among_step(ms: Seq<MessageView>, id: Seq<char>, n: nat)
    requires
        n < ms.len(),
    ensures
        among(ms, id, n + 1) == (among(ms, id, n) || ms[n as int].id == id || occurs(
            ms[n as int].replies,
            id,
        )),
{
    if among(ms, id, n) {
        let j = choose|j: int|
            0 <= j < n && j < ms.len() && ((#[trigger] ms[j]).id == id || occurs(ms[j].replies, id));
        assert(ms[j].id == id || occurs(ms[j].replies, id));
    }
    if ms[n as int].id == id || occurs(ms[n as int].replies, id) {
        assert(among(ms, id, n + 1));
    }
    if among(ms, id, n + 1) {
        let j = choose|j: int|
            0 <= j < n + 1 && j < ms.len() && ((#[trigger] ms[j]).id == id || occurs(
                ms[j].replies,
                id,
            ));
        if j < n {
            assert(among(ms, id, n));
        }
    }
}

/// Rows joined show what either part shows.
proof fn lemma_shows_add(a: Seq<RowView>, b: Seq<RowView>, id: Seq<char>)
    ensures
        shows(a + b, id) == (shows(a, id) || shows(b, id)),
{
    let x = a + b;
    if shows(a, id) {
        let k = choose|k: int| 0 <= k < a.len() && (#[trigger] a[k]).id == id;
        assert(x[k].id == id);
    }
    if shows(b, id) {
        let k = choose|k: int| 0 <= k < b.len() && (#[trigger] b[k]).id == id;
        assert(x[a.len() + k].id == id);
    }
    if shows(x, id) {
        let k = choose|k: int| 0 <= k < x.len() && (#[trigger] x[k]).id == id;
        if k < a.len() {
            assert(a[k].id == id);
        } else {
            assert(b[k - a.len()].id == id);
        }
    }
}

/// Rows show the same from either end.
proof fn lemma_shows_reverse(s: Seq<RowView>, id: Seq<char>)
    ensures
        shows(s.reverse(), id) == shows(s, id),
{
    let r = s.reverse();
    if shows(s, id) {
        let k = choose|k: int| 0 <= k < s.len() && (#[trigger] s[k]).id == id;
        assert(r[s.len() - 1 - k].id == id);
    }
    if shows(r, id) {
        let k = choose|k: int| 0 <= k < r.len() && (#[trigger] r[k]).id == id;
        assert(s[s.len() - 1 - k].id == id);
    }
}

/// The rows of a message show the message and what stands below it.
proof fn lemma_rows_down_shows(m: MessageView, width: nat, reply: bool, top: nat, id: Seq<char>)
    ensures
        shows(rows_down(m, width, reply, top), id) == (m.id == id || occurs(m.replies, id)),
    decreases m, 0nat,
{
    let own = seq![row_for(m, width, reply, top)];
    let below = rows_down_all(m.replies, narrower(width), top, m.replies.len());
    lemma_shows_add(own, below, id);
    lemma_rows_down_all_shows(m.replies, narrower(width), top, m.replies.len(), id);
    assert(own[0].id == m.id);
    if shows(own, id) {
        let k = choose|k: int| 0 <= k < own.len() && (#[trigger] own[k]).id == id;
        assert(k == 0);
    }
}

/// The rows of the first replies of a list show those replies and what
/// stands below them.
proof fn lemma_rows_down_all_shows(rs: Seq<MessageView>, width: nat, top: nat, n: nat, id: Seq<char>)
    requires
        n <= rs.len(),
    ensures
        shows(rows_down_all(rs, width, top, n), id) == among(rs, id, n),
    decreases rs, n,
{
    if n > 0 {
        lemma_rows_down_all_shows(rs, width, top, (n - 1) as nat, id);
        lemma_rows_down_shows(rs[n - 1], width, true, top, id);
        lemma_shows_add(
            rows_down_all(rs, width, top, (n - 1) as nat),
            rows_down(rs[n - 1], width, true, top),
            id,
        );
        lemma_among_step(rs, id, (n - 1) as nat);
    }
}

/// The rows of a list show the messages that stand in it, at any depth.
pub proof fn lemma_rows_of_shows(ms: Seq<MessageView>, width: nat, n: nat, id: Seq<char>)
    requires
        n <= ms.len(),
    ensures
        shows(rows_of(ms, width, n), id) == among(ms, id, n),
    decreases n,
{
    if n > 0 {
        lemma_rows_of_shows(ms, width, (n - 1) as nat, id);
        let top = (n - 1) as nat;
        lemma_rows_down_shows(ms[n - 1], width, false, top, id);
        lemma_shows_reverse(rows_down(ms[n - 1], width, false, top), id);
        lemma_shows_add(rows_of(ms, width, (n - 1) as nat), rows_for(ms[n - 1], width, top), id);
        lemma_among_step(ms, id, (n - 1) as nat);
    }
}

/// The messages as the chat shows them, before the search.
pub open spec fn dressed(ms: Seq<MessageView>, rs: Seq<ReceiptView>, members: Seq<MemberView>) -> Seq<
    MessageView,
> {
    names_known(with_receipts(reactions_merged(ms), rs), members)
}

/// Reactions, receipts and names leave the shape of a tree as it is.
proof fn lemma_dressed_alike(ms: Seq<MessageView>, rs: Seq<ReceiptView>, members: Seq<MemberView>)
    ensures
        alike(ms, dressed(ms, rs, members)),
{
    let a = reactions_merged(ms);
    let b = with_receipts(a, rs);
    let c = names_known(b, members);
    lemma_alike_merged(ms);
    lemma_alike_receipts(a, rs);
    lemma_alike_names(b, members);
    lemma_alike_trans(ms, a, b);
    lemma_alike_trans(ms, b, c);
}

/// A page of older events takes no message off the screen, where the
/// events that the room holds are about none of the events of the page:
/// every message that had a row has one afterwards.
pub proof fn lemma_page_keeps_shown(
    es: Seq<EventView>,
    page: Seq<EventView>,
    rs: Seq<ReceiptView>,
    members: Seq<MemberView>,
    term: Seq<char>,
    width: nat,
    id: Seq<char>,
)
    requires
        ordered(es),
        older(page, es),
        unrelated(es, page),
        shows(rows_of(listed(es, rs, members, term), width, listed(es, rs, members, term).len()), id),
    ensures
        shows(
            rows_of(
                listed(inserted_all(es, page), rs, members, term),
                width,
                listed(inserted_all(es, page), rs, members, term).len(),
            ),
            id,
        ),
{
    let front = lemma_page_goes_first(es, page);
    assert(unrelated(es, front)) by {
        assert forall|k: int| 0 <= k < es.len() implies (refers(#[trigger] es[k]) matches Some(x)
            ==> !holds(front, x)) by {
            match refers(es[k]) {
                Some(x) => {
                    if holds(front, x) {
                        assert(holds(page, x));
                    }
                },
                None => {},
            }
        }
    }
    lemma_grown_after(front, es);
    let a = grown(front);
    let b = grown(es);
    let before = listed(es, rs, members, term);
    let after = listed(inserted_all(es, page), rs, members, term);
    let fb = found(dressed(b, rs, members), term);
    assert(before == fb.reverse());
    lemma_rows_of_shows(before, width, before.len(), id);
    assert(occurs(before, id));
    lemma_occurs_reverse(fb, id);
    let all = dressed(a + b, rs, members);
    let n = a.len() as int;
    lemma_dressed_alike(a + b, rs, members);
    lemma_dressed_alike(b, rs, members);
    let pa = all.take(n);
    let pb = all.skip(n);
    assert(all =~= pa + pb);
    lemma_alike_skip(a + b, all, n);
    assert((a + b).skip(n) =~= b);
    lemma_alike_sym(b, dressed(b, rs, members));
    lemma_alike_trans(dressed(b, rs, members), b, pb);
    lemma_found_alike(dressed(b, rs, members), pb, term);
    lemma_alike_occurs(fb, found(pb, term), id);
    lemma_found_add(pa, pb, term);
    lemma_occurs_add(found(pa, term), found(pb, term), id);
    let fall = found(all, term);
    assert(after == fall.reverse());
    lemma_occurs_reverse(fall, id);
    lemma_rows_of_shows(after, width, after.len(), id);
}

/// A page of older events leaves the selection on the message on which it
/// stood, the message of the bookmark, where the events that the room
/// holds are about none of the events of the page.
pub proof fn lemma_page_keeps_bookmark(
    c: ChatView,
    room_id: Seq<char>,
    events: Seq<EventView>,
    cursor: Option<Seq<char>>,
)
    requires
        chat_ok(c),
        shows(c.rows, c.bookmark.message_id),
        older(events, c.events),
        unrelated(c.events, events),
        c.rows.len() <= usize::MAX,
        after_batch(c, room_id, events, cursor).0.rows.len() <= usize::MAX,
    ensures
        ({
            let after = after_batch(c, room_id, events, cursor).0;
            &&& c.selection.row < c.rows.len()
            &&& c.rows[c.selection.row as int].id == c.bookmark.message_id
            &&& after.bookmark == c.bookmark
            &&& after.selection.row < after.rows.len()
            &&& after.rows[after.selection.row as int].id == c.bookmark.message_id
        }),
{
    lemma_bookmark_holds(c);
    if room_id == c.room_id {
        lemma_asked_all_room(c, events, events.len());
        lemma_page_keeps_shown(
            c.events,
            events,
            queued(c.receipts),
            c.members,
            c.search,
            c.width,
            c.bookmark.message_id,
        );
    }
    lemma_batch_keeps_bookmark(c, room_id, events, cursor);
}

} // verus!
