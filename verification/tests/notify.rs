use matui::event::{EventContent, MessageBody, Relation, TimelineEvent};
use matui::notify::Notify;

fn message(room: &str, sender: &str, body: &str) -> TimelineEvent {
    TimelineEvent {
        id: "$1".to_string(),
        room_id: room.to_string(),
        sender: sender.to_string(),
        ts: 1,
        content: EventContent::Message {
            body: MessageBody::Text { body: body.to_string() },
            relation: Relation::Plain,
        },
    }
}

#[test]
fn notification_gating() {
    let mut gate = Notify::new();
    let room = "!R:h".to_string();
    gate.room_visit_event(&room);
    gate.focus_event();
    let e = message("!R:h", "@other:h", " hello ");
    assert!(gate.timeline_event(&e, "@me:h", false).is_none());

    gate.blur_event();
    let notice = gate.timeline_event(&e, "@me:h", false).unwrap();
    assert_eq!(notice.room_id, "!R:h");
    assert_eq!(notice.sender, "@other:h");
    assert_eq!(notice.body, "hello");
    assert_eq!(notice.replaces, None);
    gate.shown(room.clone(), 7);

    assert_eq!(gate.room_visit_event(&room), Some(7));
    assert_eq!(gate.room_visit_event(&room), None);
}

#[test]
fn own_messages_and_muted_rooms_do_not_notify() {
    let gate = Notify::new();
    assert!(gate.timeline_event(&message("!R:h", "@me:h", "x"), "@me:h", false).is_none());
    assert!(gate.timeline_event(&message("!R:h", "@other:h", "x"), "@me:h", true).is_none());
    assert!(gate.timeline_event(&message("!R:h", "@other:h", "x"), "@me:h", false).is_some());
}

#[test]
fn the_focus_gates_the_visited_room_only() {
    let mut gate = Notify::new();
    gate.room_visit_event(&"!R:h".to_string());
    gate.focus_event();
    assert!(gate.focused());
    assert!(gate.timeline_event(&message("!R:h", "@other:h", "x"), "@me:h", false).is_none());
    assert!(gate.timeline_event(&message("!S:h", "@other:h", "x"), "@me:h", false).is_some());
}

#[test]
fn events_that_make_no_message_do_not_notify() {
    let gate = Notify::new();
    let mut e = message("!R:h", "@other:h", "x");
    e.content = EventContent::Reaction { key: "👍".to_string(), relates_to: "$0".to_string() };
    assert!(gate.timeline_event(&e, "@me:h", false).is_none());
    e.content = EventContent::Other;
    assert!(gate.timeline_event(&e, "@me:h", false).is_none());
}

#[test]
fn a_new_notification_takes_the_place_of_the_old() {
    let mut gate = Notify::new();
    gate.shown("!R:h".to_string(), 3);
    gate.shown("!S:h".to_string(), 4);
    let notice = gate.timeline_event(&message("!R:h", "@other:h", "x"), "@me:h", false).unwrap();
    assert_eq!(notice.replaces, Some(3));
    gate.shown("!R:h".to_string(), 5);
    let notice = gate.timeline_event(&message("!R:h", "@other:h", "x"), "@me:h", false).unwrap();
    assert_eq!(notice.replaces, Some(5));
    assert_eq!(gate.room_visit_event(&"!S:h".to_string()), Some(4));
    assert_eq!(gate.room_visit_event(&"!R:h".to_string()), Some(5));
}
