use crate::key::{KeyCode, KeyEvent};
use crate::roomcache::{arranged, sort_rooms, DecoratedRoom, RoomView};
use crate::text::{contains_text, is_part, lowercase, to_lowercase};
use crate::views::{group_views, views};
use crate::widgets::textinput::{
    input_after, input_ok, input_takes, window_left, TextInput, TextInputView,
};
use crate::widgets::{closing, consumed, Effect, EffectView, EventResult, EventResultView};
use vstd::prelude::*;

verus! {

broadcast use group_views;

/// The popup from which a room is chosen: a field to narrow the list down,
/// and the rooms.
pub struct Rooms {
    textinput: TextInput,
    joined: Vec<DecoratedRoom>,
    selected: usize,
}

pub struct RoomsView {
    pub textinput: TextInputView,
    pub joined: Seq<RoomView>,
    pub selected: nat,
}

impl View for Rooms {
    type V = RoomsView;

    closed spec fn view(&self) -> RoomsView {
        RoomsView {
            textinput: self.textinput@,
            joined: views(self.joined@),
            selected: self.selected as nat,
        }
    }
}

/// The rooms in the order in which the popup lists them: as `arranged`, but
/// the room that the user is in goes from the top to the bottom.
pub open spec fn listed_rooms(rooms: Seq<RoomView>, current: Option<Seq<char>>) -> Seq<RoomView> {
    let sorted = arranged(rooms);
    match current {
        Some(id) => {
            if sorted.len() > 1 && sorted[0].room_id == id {
                sorted.drop_first().push(sorted[0])
            } else {
                sorted
            }
        },
        None => sorted,
    }
}

/// The popup as it opens: the field empty, the first room selected.
pub open spec fn rooms_start(rooms: Seq<RoomView>, current: Option<Seq<char>>) -> RoomsView {
    RoomsView {
        textinput: TextInputView {
            title: "Search"@,
            value: Seq::empty(),
            focused: true,
            password: false,
            cursor: 0,
            left: 0,
        },
        joined: listed_rooms(rooms, current),
        selected: 0,
    }
}

/// Holds of the rooms whose name holds `pattern`, whatever the case.
pub open spec fn named_like(pattern: Seq<char>) -> spec_fn(RoomView) -> bool {
    |r: RoomView| is_part(lowercase(r.name), lowercase(pattern))
}

/// The rooms that the popup shows: those whose name holds what was typed.
pub open spec fn filtered(r: RoomsView) -> Seq<RoomView> {
    r.joined.filter(named_like(r.textinput.value))
}

/// The popup after a key: the arrows move through the rooms that are
/// shown, round and round; what is typed narrows the list down and moves
/// the selection to the top.
pub open spec fn rooms_after(r: RoomsView, key: KeyEvent) -> RoomsView {
    let shown = filtered(r).len();
    match key.code {
        KeyCode::Esc | KeyCode::Enter => r,
        KeyCode::Down => RoomsView {
            selected: if r.selected + 1 >= shown {
                0
            } else {
                r.selected + 1
            },
            ..r
        },
        KeyCode::Up => RoomsView {
            selected: if r.selected == 0 {
                if shown == 0 {
                    0
                } else {
                    (shown - 1) as nat
                }
            } else {
                (r.selected - 1) as nat
            },
            ..r
        },
        _ => {
            if input_takes(r.textinput, key) {
                RoomsView { textinput: input_after(r.textinput, key), selected: 0, ..r }
            } else {
                r
            }
        },
    }
}

/// What a key asks for: Enter enters the selected room, Esc closes the
/// popup.
pub open spec fn rooms_result(r: RoomsView, key: KeyEvent) -> EventResultView {
    match key.code {
        KeyCode::Esc => closing(),
        KeyCode::Down | KeyCode::Up => consumed(),
        KeyCode::Enter => {
            if r.selected < filtered(r).len() {
                EventResultView::Consumed(
                    EffectView::SelectRoom { room_id: filtered(r)[r.selected as int].room_id },
                )
            } else {
                consumed()
            }
        },
        _ => {
            if input_takes(r.textinput, key) {
                consumed()
            } else {
                EventResultView::Ignored
            }
        },
    }
}

impl Rooms {
    pub open spec fn wf(&self) -> bool {
        input_ok(self@.textinput)
    }

    /// The popup for the rooms `rooms`; `current` is the room that the user
    /// is in.
    pub fn new(rooms: Vec<DecoratedRoom>, current: Option<&str>) -> (r: Rooms)
        ensures
            r.wf(),
            r@ == rooms_start(
                views(rooms@),
                match current {
                    Some(id) => Some(id@),
                    None => None,
                },
            ),
    {
        let mut joined = rooms;
        sort_rooms(&mut joined);
        if let Some(id) = current {
            if joined.len() > 1 && crate::text::same_text(joined[0].room_id.as_str(), id) {
                let ghost sorted = views(joined@);
                let first = joined.remove(0);
                joined.push(first);
                assert(views(joined@) =~= sorted.drop_first().push(sorted[0]));
            }
        }
        Rooms { textinput: TextInput::new(String::from_str("Search"), true, false), joined, selected: 0 }
    }

    /// The rooms that are shown: see `filtered`.
    pub fn filtered_rooms(&self) -> (rooms: Vec<&DecoratedRoom>)
        ensures
            rooms@.len() == filtered(self@).len(),
            forall|i: int| 0 <= i < rooms@.len() ==> (#[trigger] rooms@[i])@ == filtered(self@)[i],
    {
        let value = self.textinput.value();
        let pattern = to_lowercase(value.as_str());
        let ghost all = views(self.joined@);
        let ghost keep = named_like(self@.textinput.value);
        let mut rooms: Vec<&DecoratedRoom> = Vec::new();
        let mut i: usize = 0;
        proof {
            reveal(Seq::filter);
            assert(all.take(0).filter(keep) == Seq::<RoomView>::empty());
        }
        while i < self.joined.len()
            invariant
                i <= self.joined.len(),
                all == views(self.joined@),
                keep == named_like(self@.textinput.value),
                pattern@ == lowercase(self@.textinput.value),
                rooms@.len() == all.take(i as int).filter(keep).len(),
                forall|k: int|
                    0 <= k < rooms@.len() ==> (#[trigger] rooms@[k])@ == all.take(i as int).filter(
                        keep,
                    )[k],
            decreases self.joined.len() - i,
        {
            proof {
                assert(all.take(i + 1) == all.take(i as int).push(all[i as int]));
                all.take(i as int).lemma_filter_push(all[i as int], keep);
            }
            let name = to_lowercase(self.joined[i].name.as_str());
            if contains_text(name.as_str(), pattern.as_str()) {
                rooms.push(&self.joined[i]);
            }
            i += 1;
        }
        assert(all.take(self.joined.len() as int) == all);
        rooms
    }

    /// Moves the window of the field so that `size` columns show the
    /// cursor.
    pub fn adjust_window(&mut self, size: usize)
        requires
            old(self).wf(),
        ensures
            final(self).wf(),
            final(self)@ == (RoomsView {
                textinput: TextInputView {
                    left: window_left(old(self)@.textinput, size as nat),
                    ..old(self)@.textinput
                },
                ..old(self)@
            }),
    {
        self.textinput.adjust_window(size);
    }

    pub fn textinput(&self) -> (t: &TextInput)
        ensures
            t@ == self@.textinput,
    {
        &self.textinput
    }

    pub fn selected(&self) -> (i: usize)
        ensures
            i == self@.selected,
    {
        self.selected
    }

    pub fn key_event(&mut self, input: &KeyEvent) -> (result: EventResult)
        requires
            old(self).wf(),
        ensures
            final(self).wf(),
            final(self)@ == rooms_after(old(self)@, *input),
            result@ == rooms_result(old(self)@, *input),
    {
        match input.code {
            KeyCode::Esc => EventResult::Consumed(Effect::ClosePopup),
            KeyCode::Down => {
                let shown = self.filtered_rooms().len();
                if shown == 0 || self.selected >= shown - 1 {
                    self.selected = 0;
                } else {
                    self.selected += 1;
                }
                EventResult::Consumed(Effect::Nothing)
            },
            KeyCode::Up => {
                let shown = self.filtered_rooms().len();
                if self.selected == 0 {
                    self.selected = if shown == 0 {
                        0
                    } else {
                        shown - 1
                    };
                } else {
                    self.selected -= 1;
                }
                EventResult::Consumed(Effect::Nothing)
            },
            KeyCode::Enter => {
                let rooms = self.filtered_rooms();
                if self.selected < rooms.len() {
                    EventResult::Consumed(
                        Effect::SelectRoom { room_id: rooms[self.selected].room_id.clone() },
                    )
                } else {
                    EventResult::Consumed(Effect::Nothing)
                }
            },
            _ => {
                if let EventResult::Consumed(_) = self.textinput.key_event(input) {
                    self.selected = 0;
                    EventResult::Consumed(Effect::Nothing)
                } else {
                    EventResult::Ignored
                }
            },
        }
    }

    pub fn widget(&self) -> (w: RoomsWidget<'_>)
        ensures
            w.rooms@ == self@,
    {
        RoomsWidget { rooms: self }
    }
}

/// The list of rooms as it is drawn.
pub struct RoomsWidget<'a> {
    pub rooms: &'a Rooms,
}

} // verus!
