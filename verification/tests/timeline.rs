use matui::event::{EventContent, TimelineEvent};
use matui::timeline::{text_less, Timeline};

fn event(id: &str, ts: u64) -> TimelineEvent {
    TimelineEvent {
        id: id.to_string(),
        room_id: "!r:h".to_string(),
        sender: "@a:h".to_string(),
        ts,
        content: EventContent::Other,
    }
}

fn ids(t: &Timeline) -> Vec<String> {
    (0..t.len()).map(|i| t.get(i).id.clone()).collect()
}

#[test]
fn events_stand_by_time_and_then_by_id() {
    let mut t = Timeline::new();
    assert!(t.insert(event("c", 5)));
    assert!(t.insert(event("a", 9)));
    assert!(t.insert(event("b", 5)));
    assert!(t.insert(event("d", 1)));
    assert_eq!(ids(&t), vec!["d", "b", "c", "a"]);
}

#[test]
fn the_same_event_comes_in_once() {
    let mut t = Timeline::new();
    assert!(t.insert(event("a", 5)));
    assert!(t.insert(event("b", 6)));
    assert!(!t.insert(event("a", 5)));
    assert!(!t.insert(event("a", 99)));
    assert_eq!(t.len(), 2);
    assert_eq!(ids(&t), vec!["a", "b"]);
    assert_eq!(t.get(0).ts, 5);
    assert!(t.contains(&"a".to_string()));
    assert!(!t.contains(&"c".to_string()));
}

#[test]
fn texts_are_ordered_like_a_dictionary() {
    assert!(text_less("a", "b"));
    assert!(!text_less("b", "a"));
    assert!(!text_less("a", "a"));
    assert!(text_less("", "a"));
    assert!(!text_less("a", ""));
    assert!(text_less("ab", "abc"));
    assert!(text_less("$10", "$9"));
    assert!(text_less("z", "é"));
    for (a, b) in [("x", "y"), ("é", "z"), ("ab", "b"), ("", "")] {
        assert_eq!(text_less(a, b), a < b);
    }
}
