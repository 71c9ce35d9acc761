use matui::event::{EventContent, MessageBody, Relation, TimelineEvent};
use matui::roomcache::{sort_rooms, DecoratedRoom, Preview, RoomCache};
use matui::settings::{
    blur_delay, clean_vim, default_settings, is_muted, max_events, reactions, set_muted,
};

fn room(id: &str, unread: u64, ts: Option<u64>) -> DecoratedRoom {
    DecoratedRoom {
        room_id: id.to_string(),
        name: format!("Room {}", id),
        visited: false,
        last_message: None,
        last_sender: None,
        last_ts: ts,
        notifications: unread,
        highlights: unread / 2,
    }
}

fn ids(rooms: &[DecoratedRoom]) -> Vec<&str> {
    rooms.iter().map(|r| r.room_id.as_str()).collect()
}

fn event(sender: &str, ts: u64, content: EventContent) -> Option<TimelineEvent> {
    Some(TimelineEvent {
        id: format!("${}", ts),
        room_id: "!r:h".to_string(),
        sender: sender.to_string(),
        ts,
        content,
    })
}

fn text(body: &str) -> EventContent {
    EventContent::Message {
        body: MessageBody::Text { body: body.to_string() },
        relation: Relation::Plain,
    }
}

#[test]
fn rooms_with_more_unread_and_newer_messages_come_first() {
    let mut rooms = vec![
        room("a", 0, Some(5)),
        room("b", 3, None),
        room("c", 0, Some(9)),
        room("d", 0, None),
        room("e", 3, Some(1)),
        room("f", 0, Some(5)),
    ];
    sort_rooms(&mut rooms);
    assert_eq!(ids(&rooms), vec!["e", "b", "c", "f", "a", "d"]);
    let mut expected = vec![
        room("a", 0, Some(5)),
        room("b", 3, None),
        room("c", 0, Some(9)),
        room("d", 0, None),
        room("e", 3, Some(1)),
        room("f", 0, Some(5)),
    ];
    expected.sort_by_key(|r| (r.unread_count(), r.last_ts));
    expected.reverse();
    assert_eq!(ids(&rooms), ids(&expected));
}

#[test]
fn a_visited_room_shows_nothing_unread() {
    let mut cache = RoomCache::new();
    cache.populate(vec![room("a", 4, None), room("b", 2, None)]);
    assert_eq!(cache.wrap("a").unwrap().unread_count(), 4);
    assert_eq!(cache.wrap("a").unwrap().highlight_count(), 2);
    cache.room_visit_event("a");
    let a = cache.wrap("a").unwrap();
    assert!(a.visited);
    assert_eq!((a.unread_count(), a.highlight_count()), (0, 0));
    assert_eq!(cache.wrap("b").unwrap().unread_count(), 2);
    assert!(cache.wrap("c").is_none());
    cache.room_visit_event("c");
    assert_eq!(cache.get_rooms().len(), 2);
}

#[test]
fn activity_renews_a_room_and_a_new_room_comes_first() {
    let mut cache = RoomCache::new();
    cache.populate(vec![room("a", 0, None), room("b", 0, None)]);
    cache.room_visit_event("b");
    cache.timeline_event(room("b", 1, Some(7)));
    let rooms = cache.get_rooms();
    assert_eq!(ids(&rooms), vec!["a", "b"]);
    assert!(!rooms[1].visited);
    assert_eq!(rooms[1].unread_count(), 1);
    cache.timeline_event(room("c", 0, None));
    assert_eq!(ids(&cache.get_rooms()), vec!["c", "a", "b"]);
}

#[test]
fn the_last_message_is_the_first_message_found() {
    let events = vec![
        None,
        event("@x:h", 90, EventContent::Reaction { key: "👍".to_string(), relates_to: "$1".to_string() }),
        event("@b:h", 80, text("the last word")),
        event("@a:h", 70, text("older")),
    ];
    let p = DecoratedRoom::preview(&events);
    assert_eq!(p.last_message, Some("the last word".to_string()));
    assert_eq!(p.last_sender, Some("@b:h".to_string()));
    assert_eq!(p.last_ts, Some(90));
    let r = DecoratedRoom::from_room("!r:h".to_string(), "Room".to_string(), 2, 1, p);
    assert_eq!((r.room_id(), r.unread_count(), r.highlight_count()), ("!r:h", 2, 1));
    assert_eq!(r.last_sender, Some("@b:h".to_string()));
}

#[test]
fn the_preview_goes_on_to_the_next_text_message() {
    let image = || EventContent::Message {
        body: MessageBody::Image { body: "cat.png".to_string(), info: None, source: "mxc://h/media".to_string() },
        relation: Relation::Plain,
    };
    let p = DecoratedRoom::preview(&vec![event("@a:h", 5, image())]);
    assert_eq!((p.last_message, p.last_sender, p.last_ts), (None, None, Some(5)));
    let p = DecoratedRoom::preview(&vec![
        event("@a:h", 9, image()),
        None,
        event("@b:h", 8, EventContent::Other),
        event("@c:h", 7, text("look at this")),
        event("@d:h", 6, text("older")),
    ]);
    assert_eq!(p.last_message, Some("look at this".to_string()));
    assert_eq!(p.last_sender, Some("@c:h".to_string()));
    assert_eq!(p.last_ts, Some(9));
}

#[test]
fn a_room_without_messages_has_no_preview() {
    let p: Preview = DecoratedRoom::preview(&vec![None, event("@a:h", 5, EventContent::Other)]);
    assert_eq!((p.last_message, p.last_sender, p.last_ts), (None, None, Some(5)));
    let p = DecoratedRoom::preview(&vec![]);
    assert_eq!((p.last_message, p.last_sender, p.last_ts), (None, None, None));
}

#[test]
fn settings_answer() {
    let mut s = default_settings();
    assert_eq!(reactions(&s), vec!["❤️", "👍", "👎", "😂", "‼️", "❓️"]);
    assert!(!clean_vim(&s));
    assert_eq!(blur_delay(&s), None);
    assert_eq!(max_events(&s), -1);
    s.clean_vim = true;
    s.blur_delay = 30;
    s.max_events = 500;
    assert!(clean_vim(&s));
    assert_eq!(blur_delay(&s), Some(30));
    assert_eq!(max_events(&s), 500);
    s.blur_delay = -5;
    assert_eq!(blur_delay(&s), None);
}

#[test]
fn muting_follows_the_last_change() {
    let mut s = default_settings();
    s.muted = vec!["!quiet:h".to_string()];
    assert!(is_muted(&s, "!quiet:h"));
    assert!(!is_muted(&s, "!loud:h"));
    set_muted(&mut s, "!loud:h", true);
    set_muted(&mut s, "!quiet:h", false);
    assert!(is_muted(&s, "!loud:h"));
    assert!(!is_muted(&s, "!quiet:h"));
    set_muted(&mut s, "!loud:h", false);
    assert!(!is_muted(&s, "!loud:h"));
}
