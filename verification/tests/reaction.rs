use matui::emoji::{center_emoji, format_emojis, pad_emoji};
use matui::react::{React, ReactResult};
use matui::key::{KeyCode, KeyEvent, Modifiers};
use matui::reaction::{Reaction, ReactionEvent};
use matui::username::Member;

fn reaction(body: &str, events: &[(&str, &str)]) -> Reaction {
    Reaction {
        body: body.to_string(),
        events: events
            .iter()
            .map(|(id, sender)| ReactionEvent::new(id.to_string(), sender.to_string()))
            .collect(),
    }
}

fn counts(merged: &[Reaction]) -> Vec<(String, usize)> {
    let mut out: Vec<(String, usize)> =
        merged.iter().map(|r| (r.body.clone(), r.events.len())).collect();
    out.sort();
    out
}

#[test]
fn merging_draws_equal_emojis_together() {
    let mut given = vec![
        reaction("a", &[("1", "@x:h")]),
        reaction("b", &[("2", "@y:h")]),
        reaction("a", &[("3", "@z:h")]),
        reaction("b", &[("4", "@x:h")]),
        reaction("a", &[("5", "@y:h")]),
    ];
    let merged = Reaction::merge(&mut given);
    assert_eq!(merged.len(), 2);
    assert_eq!(merged[0].body, "a");
    assert_eq!(merged[1].body, "b");
    let ids: Vec<&str> = merged[0].events.iter().map(|e| e.id.as_str()).collect();
    assert_eq!(ids, vec!["1", "3", "5"]);
    let ids: Vec<&str> = merged[1].events.iter().map(|e| e.id.as_str()).collect();
    assert_eq!(ids, vec!["2", "4"]);
    let left: Vec<usize> = given.iter().map(|r| r.events.len()).collect();
    assert_eq!(left, vec![1, 1, 0, 0, 0]);
}

#[test]
fn merging_gives_the_same_counts_in_any_order() {
    let orders: [[&str; 5]; 4] = [
        ["a", "b", "a", "b", "a"],
        ["a", "a", "a", "b", "b"],
        ["b", "b", "a", "a", "a"],
        ["b", "a", "a", "a", "b"],
    ];
    for order in orders {
        let mut given: Vec<Reaction> = order
            .iter()
            .enumerate()
            .map(|(n, body)| reaction(body, &[(&n.to_string(), "@x:h")]))
            .collect();
        let merged = Reaction::merge(&mut given);
        assert_eq!(counts(&merged), vec![("a".to_string(), 3), ("b".to_string(), 2)]);
    }
}

#[test]
fn merging_nothing_gives_nothing() {
    let mut given: Vec<Reaction> = vec![];
    assert!(Reaction::merge(&mut given).is_empty());
}

#[test]
fn an_emoji_is_shown_with_its_shortcode() {
    assert_eq!(reaction("👍", &[]).display(), "👍 (+1)");
    assert_eq!(reaction("🚀", &[]).display(), "🚀 (rocket)");
    assert_eq!(reaction("❤️", &[]).display(), "❤️  (heart)");
    assert_eq!(reaction("not an emoji", &[]).display(), "not an emoji");
}

#[test]
fn senders_are_named_by_their_first_word() {
    let mut r = reaction("👍", &[("1", "@a:h"), ("2", "@b:h")]);
    assert_eq!(r.pretty_senders(), "@a:h and @b:h");
    r.update_senders(&vec![
        Member { user_id: "@a:h".to_string(), display_name: Some("Alice Smith".to_string()) },
        Member { user_id: "@c:h".to_string(), display_name: Some("Carol".to_string()) },
    ]);
    assert_eq!(r.pretty_senders(), "Alice and @b:h");
    assert_eq!(r.list_view(), "👍 (+1) Alice and @b:h");
}

#[test]
fn many_senders_are_counted() {
    let events: Vec<(String, String)> =
        (0..8).map(|n| (n.to_string(), format!("@u{}:h", n))).collect();
    let refs: Vec<(&str, &str)> = events.iter().map(|(a, b)| (a.as_str(), b.as_str())).collect();
    let r = reaction("👍", &refs);
    assert_eq!(r.pretty_senders(), "@u0:h, @u1:h, @u2:h, @u3:h, @u4:h and 3 others");
}

#[test]
fn emojis_are_padded_and_centred() {
    assert_eq!(pad_emoji("❤️"), "❤️ ");
    assert_eq!(pad_emoji("‼️"), "‼️ ");
    assert_eq!(pad_emoji("👍"), "👍");
    assert_eq!(pad_emoji("❤"), "❤");
    assert_eq!(center_emoji("👍"), "  👍  ");
    assert_eq!(center_emoji("☁️"), "  ☁️   ");
    assert_eq!(
        format_emojis(&vec!["🐶".to_string(), "❤️".to_string()]),
        "  🐶    ❤️   "
    );
    assert_eq!(format_emojis(&vec![]), "");
}

fn key(code: KeyCode) -> KeyEvent {
    KeyEvent::new(code, Modifiers::Plain)
}

fn strings(list: &[&str]) -> Vec<String> {
    list.iter().map(|s| s.to_string()).collect()
}

#[test]
fn the_list_of_reactions_offers_each_emoji_once() {
    let react = React::new(strings(&["👍", "🚀"]), strings(&["🚀"]), &strings(&["❤️", "👍", "😂"]));
    assert_eq!(
        react.descriptions(),
        vec!["  👍   +1", "  🚀   rocket", "  ❤️    heart", "  😂   joy"]
    );
    assert_eq!(react.selected(), 0);
    assert_eq!(react.title(), "Add Reaction");
}

#[test]
fn the_list_of_reactions_selects_and_removes() {
    let mut react = React::new(strings(&["👍", "🚀"]), strings(&["🚀"]), &strings(&["❤️"]));
    assert!(matches!(react.key_event(&key(KeyCode::Enter)), ReactResult::SelectReaction(e) if e == "👍"));
    assert!(matches!(react.key_event(&key(KeyCode::Char('j'))), ReactResult::Consumed));
    assert_eq!(react.title(), "Remove Reaction");
    assert!(matches!(react.key_event(&key(KeyCode::Enter)), ReactResult::RemoveReaction(e) if e == "🚀"));
    assert!(matches!(react.key_event(&key(KeyCode::Down)), ReactResult::Consumed));
    assert!(matches!(react.key_event(&key(KeyCode::Down)), ReactResult::Consumed));
    assert_eq!(react.selected(), 2);
    assert!(matches!(react.key_event(&key(KeyCode::Up)), ReactResult::Consumed));
    assert!(matches!(react.key_event(&key(KeyCode::Char('k'))), ReactResult::Consumed));
    assert!(matches!(react.key_event(&key(KeyCode::Char('k'))), ReactResult::Consumed));
    assert_eq!(react.selected(), 0);
    assert!(matches!(react.key_event(&key(KeyCode::Esc)), ReactResult::Exit));
    assert!(matches!(react.key_event(&key(KeyCode::Char('x'))), ReactResult::Ignored));
}

#[test]
fn an_empty_list_of_reactions_closes_on_enter() {
    let mut react = React::new(vec![], vec![], &vec![]);
    assert!(matches!(react.key_event(&key(KeyCode::Down)), ReactResult::Consumed));
    assert_eq!(react.selected(), 0);
    assert!(matches!(react.key_event(&key(KeyCode::Enter)), ReactResult::Exit));
}
