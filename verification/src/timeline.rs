//! The events of a room in their order: by the time at which the server
//! received them, and by their id where two have the same time. No id
//! occurs twice.

use crate::event::{EventView, TimelineEvent};
use crate::text::chars_of;
use crate::views::{group_views, views};
use vstd::prelude::*;

verus! {

broadcast use group_views;

/// Whether `a` comes before `b` in the order of the dictionary, character
/// by character.
pub open spec fn lex_less(a: Seq<char>, b: Seq<char>) -> bool
    decreases a.len(),
{
    if b.len() == 0 {
        false
    } else if a.len() == 0 {
        true
    } else if a[0] != b[0] {
        (a[0] as int) < (b[0] as int)
    } else {
        lex_less(a.drop_first(), b.drop_first())
    }
}

/// Of two different texts one comes before the other.
pub proof fn lemma_lex_total(a: Seq<char>, b: Seq<char>)
    ensures
        a == b || lex_less(a, b) || lex_less(b, a),
        !(lex_less(a, b) && lex_less(b, a)),
        !lex_less(a, a),
    decreases a.len(),
{
    if a.len() > 0 && b.len() > 0 && a[0] == b[0] {
        lemma_lex_total(a.drop_first(), b.drop_first());
        if a.drop_first() == b.drop_first() {
            assert(a =~= seq![a[0]] + a.drop_first());
            assert(b =~= seq![b[0]] + b.drop_first());
            assert(a =~= b);
        }
    } else if a.len() == 0 && b.len() == 0 {
        assert(a =~= b);
    } else if a.len() > 0 && b.len() > 0 {
        assert(a[0] as int != b[0] as int);
    }
    if a.len() > 0 {
        lemma_lex_irreflexive(a);
    }
}

proof fn lemma_lex_irreflexive(a: Seq<char>)
    ensures
        !lex_less(a, a),
    decreases a.len(),
{
    if a.len() > 0 {
        lemma_lex_irreflexive(a.drop_first());
    }
}

/// The order of the dictionary is transitive.
pub proof fn lemma_lex_transitive(a: Seq<char>, b: Seq<char>, c: Seq<char>)
    requires
        lex_less(a, b),
        lex_less(b, c),
    ensures
        lex_less(a, c),
    decreases a.len(),
{
    if a.len() > 0 && b.len() > 0 && c.len() > 0 && a[0] == b[0] && b[0] == c[0] {
        lemma_lex_transitive(a.drop_first(), b.drop_first(), c.drop_first());
    }
}

/// Whether the event `a` stands before the event `b`: it is older, or as
/// old and its id comes first.
pub open spec fn before(a: EventView, b: EventView) -> bool {
    a.ts < b.ts || (a.ts == b.ts && lex_less(a.id, b.id))
}

/// The events stand in their order, and no id occurs twice.
pub open spec fn ordered(es: Seq<EventView>) -> bool {
    &&& forall|i: int, j: int| 0 <= i < j < es.len() ==> before(es[i], es[j])
    &&& forall|i: int, j: int| 0 <= i < j < es.len() ==> es[i].id != es[j].id
}

/// Whether one of `es` has the id `id`.
pub open spec fn holds(es: Seq<EventView>, id: Seq<char>) -> bool {
    exists|i: int| 0 <= i < es.len() && (#[trigger] es[i]).id == id
}

/// The number of events of `es` that stand before `e`.
pub open spec fn place(es: Seq<EventView>, e: EventView) -> int
    decreases es.len(),
{
    if es.len() == 0 || !before(es[0], e) {
        0
    } else {
        1 + place(es.drop_first(), e)
    }
}

/// The events `es` with the event `e`: an event whose id is there already
/// changes nothing, any other goes to its place in the order.
pub open spec fn inserted(es: Seq<EventView>, e: EventView) -> Seq<EventView> {
    if holds(es, e.id) {
        es
    } else {
        es.insert(place(es, e), e)
    }
}

/// The events `es` with each of `more`, inserted in turn.
pub open spec fn inserted_all(es: Seq<EventView>, more: Seq<EventView>) -> Seq<EventView>
    decreases more.len(),
{
    if more.len() == 0 {
        es
    } else {
        inserted(inserted_all(es, more.drop_last()), more.last())
    }
}

/// The place of an event parts the events that come before it from those
/// that come after it.
pub proof fn lemma_place(es: Seq<EventView>, e: EventView)
    requires
        ordered(es),
        !holds(es, e.id),
    ensures
        0 <= place(es, e) <= es.len(),
        forall|i: int| 0 <= i < place(es, e) ==> before(es[i], e),
        forall|i: int| place(es, e) <= i < es.len() ==> before(e, es[i]),
    decreases es.len(),
{
    if es.len() > 0 {
        let rest = es.drop_first();
        assert forall|i: int, j: int| 0 <= i < j < rest.len() implies before(rest[i], rest[j])
            && rest[i].id != rest[j].id by {
            assert(before(es[i + 1], es[j + 1]));
            assert(es[i + 1].id != es[j + 1].id);
        }
        assert(!holds(rest, e.id)) by {
            if holds(rest, e.id) {
                let k = choose|k: int| 0 <= k < rest.len() && (#[trigger] rest[k]).id == e.id;
                assert(es[k + 1].id == e.id);
            }
        }
        if before(es[0], e) {
            lemma_place(rest, e);
            assert forall|i: int| 0 <= i < place(es, e) implies before(es[i], e) by {
                if i > 0 {
                    assert(before(rest[i - 1], e));
                }
            }
            assert forall|i: int| place(es, e) <= i < es.len() implies before(e, es[i]) by {
                assert(before(e, rest[i - 1]));
            }
        } else {
            assert(es[0].id != e.id);
            lemma_lex_total(es[0].id, e.id);
            assert(before(e, es[0]));
            assert forall|i: int| 0 <= i < es.len() implies before(e, es[i]) by {
                if i > 0 {
                    assert(before(es[0], es[i]));
                    lemma_before_transitive(e, es[0], es[i]);
                }
            }
        }
    }
}

/// The order of events is transitive.
pub proof fn lemma_before_transitive(a: EventView, b: EventView, c: EventView)
    requires
        before(a, b),
        before(b, c),
    ensures
        before(a, c),
{
    if a.ts == b.ts && b.ts == c.ts {
        lemma_lex_transitive(a.id, b.id, c.id);
    }
}

/// Inserting keeps the order, and an event that is there already, by its
/// id, changes nothing, whatever else it holds.
pub proof fn lemma_inserted(es: Seq<EventView>, e: EventView)
    requires
        ordered(es),
    ensures
        ordered(inserted(es, e)),
        holds(inserted(es, e), e.id),
        holds(es, e.id) ==> inserted(es, e) == es,
        inserted(inserted(es, e), e) == inserted(es, e),
{
    if !holds(es, e.id) {
        lemma_place(es, e);
        let k = place(es, e);
        let out = es.insert(k, e);
        assert(out[k].id == e.id);
        assert forall|i: int, j: int| 0 <= i < j < out.len() implies before(out[i], out[j])
            && out[i].id != out[j].id by {
            if j < k {
                assert(before(es[i], es[j]) && es[i].id != es[j].id);
            } else if j == k {
                assert(before(es[i], e));
                assert(es[i].id != e.id);
            } else if i < k {
                assert(before(es[i], es[j - 1]) && es[i].id != es[j - 1].id);
            } else if i == k {
                assert(before(e, es[j - 1]));
                assert(es[j - 1].id != e.id);
            } else {
                assert(before(es[i - 1], es[j - 1]) && es[i - 1].id != es[j - 1].id);
            }
        }
    } else {
        let k = choose|k: int| 0 <= k < es.len() && (#[trigger] es[k]).id == e.id;
        assert(inserted(es, e)[k].id == e.id);
    }
}

/// Whether `a` comes before `b` in the order of the dictionary.
pub fn text_less(a: &str, b: &str) -> (less: bool)
    ensures
        less == lex_less(a@, b@),
{
    let x = chars_of(a);
    let y = chars_of(b);
    let mut i: usize = 0;
    assert(x@.skip(0) == x@ && y@.skip(0) == y@);
    while i < x.len() && i < y.len() && x[i] == y[i]
        invariant
            i <= x.len(),
            i <= y.len(),
            lex_less(x@, y@) == lex_less(x@.skip(i as int), y@.skip(i as int)),
        decreases x.len() - i,
    {
        assert(x@.skip(i as int)[0] == x@[i as int] && y@.skip(i as int)[0] == y@[i as int]);
        assert(x@.skip(i as int).drop_first() == x@.skip(i + 1));
        assert(y@.skip(i as int).drop_first() == y@.skip(i + 1));
        i += 1;
    }
    if i >= y.len() {
        false
    } else if i >= x.len() {
        true
    } else {
        let c: char = x[i];
        let d: char = y[i];
        assert(x@.skip(i as int)[0] == c && y@.skip(i as int)[0] == d);
        c < d
    }
}

/// The events of one room.
pub struct Timeline {
    events: Vec<TimelineEvent>,
}

impl View for Timeline {
    type V = Seq<EventView>;

    closed spec fn view(&self) -> Seq<EventView> {
        views(self.events@)
    }
}

impl Timeline {
    pub open spec fn wf(&self) -> bool {
        ordered(self@)
    }

    pub fn new() -> (t: Timeline)
        ensures
            t.wf(),
            t@ == Seq::<EventView>::empty(),
    {
        Timeline { events: Vec::new() }
    }

    pub fn len(&self) -> (n: usize)
        ensures
            n == self@.len(),
    {
        self.events.len()
    }

    /// The event at place `i`.
    pub fn get(&self, i: usize) -> (e: &TimelineEvent)
        requires
            i < self@.len(),
        ensures
            e@ == self@[i as int],
    {
        &self.events[i]
    }

    /// Whether an event with the id `id` is there.
    pub fn contains(&self, id: &String) -> (found: bool)
        ensures
            found == holds(self@, id@),
    {
        let mut i: usize = 0;
        while i < self.events.len()
            invariant
                i <= self.events.len(),
                forall|j: int| 0 <= j < i ==> (#[trigger] self@[j]).id != id@,
            decreases self.events.len() - i,
        {
            if self.events[i].id == *id {
                assert(self@[i as int].id == id@);
                return true;
            }
            i += 1;
        }
        false
    }

    /// Puts an event in its place: see `inserted`. Returns whether the
    /// event was new.
    pub fn insert(&mut self, event: TimelineEvent) -> (added: bool)
        requires
            old(self).wf(),
        ensures
            final(self).wf(),
            final(self)@ == inserted(old(self)@, event@),
            added == !holds(old(self)@, event@.id),
    {
        proof {
            lemma_inserted(self@, event@);
        }
        if self.contains(&event.id) {
            return false;
        }
        let ghost es = self@;
        let mut k: usize = 0;
        assert(es.skip(0) == es);
        loop
            invariant
                k <= self.events.len(),
                es == views(self.events@),
                place(es, event@) == k + place(es.skip(k as int), event@),
            ensures
                k <= self.events.len(),
                es == views(self.events@),
                place(es, event@) == k,
            decreases self.events.len() - k,
        {
            if k >= self.events.len() {
                break ;
            }
            let other = &self.events[k];
            assert(es.skip(k as int)[0] == other@);
            let earlier = other.ts < event.ts || (other.ts == event.ts && text_less(
                other.id.as_str(),
                event.id.as_str(),
            ));
            if !earlier {
                break ;
            }
            assert(es.skip(k as int).drop_first() == es.skip(k + 1));
            k += 1;
        }
        self.events.insert(k, event);
        true
    }
}

} // verus!
