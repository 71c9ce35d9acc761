use matui::chat::{Chat, ChatConfig, Command};
use matui::display::AfterDownload;
use matui::event::{EventContent, MediaInfo, MessageBody, Relation, TimelineEvent};
use matui::key::{KeyCode, KeyEvent, Modifiers};
use matui::receipts::ReadReceipt;
use matui::username::Member;
use std::time::{Duration, Instant};

fn content(body: MessageBody, relation: Relation) -> EventContent {
    EventContent::Message { body, relation }
}

fn text(body: &str) -> MessageBody {
    MessageBody::Text { body: body.to_string() }
}

fn event(id: &str, ts: u64, sender: &str, content: EventContent) -> TimelineEvent {
    TimelineEvent {
        id: id.to_string(),
        room_id: "!r:h".to_string(),
        sender: sender.to_string(),
        ts,
        content,
    }
}

fn message(id: &str, ts: u64, body: &str) -> TimelineEvent {
    event(id, ts, "@a:h", content(text(body), Relation::Plain))
}

fn chat() -> Chat {
    let config = ChatConfig { max_events: -1, muted: false, reactions: vec!["👍".to_string()] };
    let (chat, commands) =
        Chat::try_new("!r:h".to_string(), "Room".to_string(), "@me:h".to_string(), config);
    assert!(matches!(&commands[..], [Command::FetchMessages { cursor: None, limit: 32 }]));
    chat
}

fn member(id: &str, name: Option<&str>) -> Member {
    Member { user_id: id.to_string(), display_name: name.map(|n| n.to_string()) }
}

fn key(c: char) -> KeyEvent {
    KeyEvent::new(KeyCode::Char(c), Modifiers::Plain)
}

fn code(code: KeyCode) -> KeyEvent {
    KeyEvent::new(code, Modifiers::Plain)
}

fn ids(chat: &Chat) -> Vec<String> {
    chat.messages().iter().map(|m| m.id.clone()).collect()
}

fn selected(chat: &Chat) -> Option<String> {
    chat.selected_reply().map(|m| m.id.clone())
}

fn filled(n: u64) -> Chat {
    let mut c = chat();
    c.room_member_event("!r:h", member("@a:h", Some("Alice")));
    let events = (0..n).map(|i| message(&format!("m{:03}", i), 100 + i, "text")).collect();
    c.batch_event("!r:h", events, None);
    c
}

#[test]
fn an_event_asks_for_its_sender_and_is_read() {
    let mut c = chat();
    let commands = c.timeline_event(message("1", 1, "hello"));
    assert!(matches!(
        &commands[..],
        [Command::FetchMember { user_id }, Command::ReadTo { event_id }]
            if user_id == "@a:h" && event_id == "1"
    ));
    assert_eq!(ids(&c), vec!["1"]);
    let commands = c.timeline_event(message("2", 2, "again"));
    assert!(matches!(&commands[..], [Command::ReadTo { event_id }] if event_id == "2"));
    assert_eq!(ids(&c), vec!["2", "1"]);
}

#[test]
fn an_event_that_comes_twice_changes_nothing() {
    let mut c = chat();
    c.timeline_event(message("1", 1, "hello"));
    c.timeline_event(message("2", 2, "again"));
    let before = (ids(&c), c.rows().len(), c.selection());
    let commands = c.timeline_event(message("1", 1, "hello"));
    assert!(commands.is_empty());
    assert!((ids(&c), c.rows().len(), c.selection()) == before);
    let commands = c.timeline_event(message("1", 99, "changed"));
    assert!(commands.is_empty());
    assert_eq!(c.messages()[1].display(), "hello");
}

#[test]
fn events_of_other_rooms_are_passed_over() {
    let mut c = chat();
    let mut e = message("1", 1, "hello");
    e.room_id = "!other:h".to_string();
    assert!(c.timeline_event(e).is_empty());
    assert!(c.batch_event("!other:h", vec![message("2", 2, "x")], None).is_empty());
    assert!(c
        .receipt_event("!other:h", &vec![ReadReceipt {
            event_id: "1".to_string(),
            user_id: "@a:h".to_string(),
            timestamp: 5
        }])
        .is_empty());
    c.room_member_event("!other:h", member("@a:h", None));
    c.typing_event("!other:h", &vec!["@a:h".to_string()]);
    assert!(ids(&c).is_empty());
    assert_eq!(c.typing(), None);
}

#[test]
fn the_selection_skips_the_blank_line_between_messages() {
    let mut c = filled(3);
    c.set_size(80, 20);
    let heights: Vec<usize> = c.rows().iter().map(|r| r.height).collect();
    assert_eq!(heights, vec![3, 3, 3]);
    assert_eq!((c.selection().row, c.selection().offset), (0, 0));
    assert_eq!(selected(&c), Some("m002".to_string()));
    c.key_event(&key('k'));
    assert_eq!((c.selection().row, c.selection().offset), (0, 1));
    c.key_event(&key('k'));
    assert_eq!((c.selection().row, c.selection().offset), (1, 0));
    assert_eq!(selected(&c), Some("m001".to_string()));
    c.key_event(&code(KeyCode::Up));
    c.key_event(&code(KeyCode::Up));
    c.key_event(&code(KeyCode::Up));
    assert_eq!((c.selection().row, c.selection().offset), (2, 1));
    c.key_event(&code(KeyCode::Up));
    assert_eq!((c.selection().row, c.selection().offset), (2, 1));
    c.key_event(&key('j'));
    c.key_event(&code(KeyCode::Down));
    assert_eq!((c.selection().row, c.selection().offset), (1, 1));
    c.key_event(&key('G'));
    assert_eq!((c.selection().row, c.selection().offset), (0, 0));
    c.key_event(&key('j'));
    assert_eq!((c.selection().row, c.selection().offset), (0, 0));
}

#[test]
fn half_pages_move_by_half_the_window() {
    let mut c = filled(10);
    c.set_size(80, 8);
    c.key_event(&KeyEvent::new(KeyCode::Char('u'), Modifiers::Control));
    assert_eq!((c.selection().row, c.selection().offset), (2, 0));
    c.key_event(&KeyEvent::new(KeyCode::Char('d'), Modifiers::Control));
    assert_eq!((c.selection().row, c.selection().offset), (0, 0));
    let out = c.key_event(&KeyEvent::new(KeyCode::Char('x'), Modifiers::Control));
    assert!(!out.consumed);
}

#[test]
fn the_bookmark_holds_the_selection_when_events_come_in() {
    let mut c = filled(5);
    c.key_event(&key('k'));
    c.key_event(&key('k'));
    c.key_event(&key('k'));
    assert_eq!(selected(&c), Some("m003".to_string()));
    assert_eq!(c.bookmark().message_id, "m003");
    assert_eq!(c.bookmark().offset, 1);
    let older = (0..40).map(|i| message(&format!("a{:03}", i), i, "older")).collect();
    c.batch_event("!r:h", older, None);
    assert_eq!(selected(&c), Some("m003".to_string()));
    c.timeline_event(message("new", 999, "newer"));
    assert_eq!(selected(&c), Some("m003".to_string()));
    assert_eq!((c.selection().row, c.selection().offset), (2, 1));
    c.timeline_event(event(
        "r",
        1000,
        "@a:h",
        content(text("answer"), Relation::Reply { event_id: "m003".to_string() }),
    ));
    assert_eq!(selected(&c), Some("m003".to_string()));
    c.timeline_event(event("x", 1001, "@a:h", EventContent::Redaction { redacts: Some("m003".to_string()) }));
    assert!(selected(&c) != Some("m003".to_string()));
}

#[test]
fn the_window_is_centred_on_the_selection() {
    let mut c = filled(400);
    assert_eq!(c.window(), (0, 101));
    c.set_size(80, 600);
    c.key_event(&KeyEvent::new(KeyCode::Char('u'), Modifiers::Control));
    assert_eq!(c.selection().row, 150);
    assert_eq!(c.window(), (50, 251));
    c.key_event(&KeyEvent::new(KeyCode::Char('u'), Modifiers::Control));
    c.key_event(&KeyEvent::new(KeyCode::Char('u'), Modifiers::Control));
    assert_eq!(c.selection().row, 399);
    assert_eq!(c.window(), (299, 400));
    assert!(chat().window() == (0, 0));
}

#[test]
fn a_search_and_its_end_leave_the_chat_as_it_was() {
    let mut c = chat();
    c.room_member_event("!r:h", member("@a:h", None));
    let events = vec![
        message("1", 1, "Apple"),
        message("2", 2, "banana"),
        message("3", 3, "apple pie"),
        message("4", 4, "cherry"),
    ];
    c.batch_event("!r:h", events, Some("some".to_string()));
    assert!(c.fetching());
    assert!(c.batch_event("!r:h", vec![], Some("more".to_string())).is_empty());
    assert!(!c.fetching());
    c.key_event(&key('G'));
    c.key_event(&key('k'));
    c.key_event(&key('k'));
    let _ = c.batch_event("!r:h", vec![], Some("more".to_string()));
    let before = (ids(&c), selected(&c), c.selection(), c.rows().len());
    assert_eq!(before.1, Some("3".to_string()));

    let commands = c.search_event("banana");
    assert_eq!(c.search(), "banana");
    assert_eq!(ids(&c), vec!["2"]);
    assert_eq!(selected(&c), Some("2".to_string()));
    assert!(matches!(
        &commands[..],
        [Command::FetchMessages { cursor: Some(cursor), limit: 256 }] if cursor == "more"
    ));
    assert!(c.fetching());

    let commands = c.search_event("");
    assert!(commands.is_empty());
    assert!((ids(&c), selected(&c), c.selection(), c.rows().len()) == before);
}

#[test]
fn older_events_are_fetched_while_the_list_is_short() {
    let mut c = chat();
    c.room_member_event("!r:h", member("@a:h", None));
    let commands = c.batch_event("!r:h", vec![message("1", 1, "one")], Some("c1".to_string()));
    assert!(matches!(
        &commands[..],
        [Command::ReadTo { .. }, Command::FetchMessages { cursor: Some(cursor), limit: 32 }] if cursor == "c1"
    ));
    assert!(c.fetching());
    let commands = c.batch_event("!r:h", vec![message("1", 1, "one")], Some("c2".to_string()));
    assert!(commands.is_empty());
    assert!(!c.fetching());
    let out = c.key_event(&key('k'));
    assert!(matches!(
        &out.commands[..],
        [Command::FetchMessages { cursor: Some(cursor), limit: 32 }] if cursor == "c2"
    ));
    let commands = c.batch_event("!r:h", vec![message("0", 0, "zero")], None);
    assert!(commands.is_empty());
}

#[test]
fn no_events_are_fetched_above_the_limit_or_a_long_list() {
    let config = ChatConfig { max_events: 2, muted: false, reactions: vec![] };
    let (mut c, _) = Chat::try_new("!r:h".to_string(), "Room".to_string(), "@me:h".to_string(), config);
    c.room_member_event("!r:h", member("@a:h", None));
    let commands =
        c.batch_event("!r:h", vec![message("1", 1, "a"), message("2", 2, "b")], Some("c".to_string()));
    assert!(matches!(&commands[..], [Command::ReadTo { .. }]));

    let mut c = chat();
    c.room_member_event("!r:h", member("@a:h", None));
    let events = (0..40).map(|i| message(&format!("m{:03}", i), 100 + i, "text")).collect();
    let commands = c.batch_event("!r:h", events, Some("c".to_string()));
    assert!(matches!(&commands[..], [Command::ReadTo { .. }]));
}

#[test]
fn the_room_is_marked_as_read_only_with_the_focus() {
    let mut c = chat();
    c.room_member_event("!r:h", member("@a:h", None));
    c.blur_event();
    assert!(c.timeline_event(message("1", 1, "one")).is_empty());
    let commands = c.focus_event();
    assert!(matches!(&commands[..], [Command::ReadTo { event_id }] if event_id == "1"));
    assert!(c.focus_event().is_empty());
}

#[test]
fn a_receipt_of_the_user_counts_as_a_visit() {
    let mut c = chat();
    c.room_member_event("!r:h", member("@a:h", None));
    c.timeline_event(message("1", 10, "one"));
    let commands = c.receipt_event(
        "!r:h",
        &vec![
            ReadReceipt { event_id: "1".to_string(), user_id: "@b:h".to_string(), timestamp: 11 },
            ReadReceipt { event_id: "1".to_string(), user_id: "@me:h".to_string(), timestamp: 12 },
        ],
    );
    assert!(matches!(
        &commands[..],
        [Command::FetchMember { user_id: b }, Command::FetchMember { user_id: me }, Command::RoomVisit]
            if b == "@b:h" && me == "@me:h"
    ));
    let readers: Vec<&str> = c.messages()[0].receipts.iter().map(|u| u.id.as_str()).collect();
    assert_eq!(readers, vec!["@b:h"]);
    assert_eq!(c.rows()[0].height, 4);
}

#[test]
fn the_header_says_who_is_typing() {
    let mut c = chat();
    for (id, name) in [("@a:h", Some("Alice")), ("@b:h", None), ("@c:h", Some("Carol")), ("@d:h", Some("Dan"))] {
        c.room_member_event("!r:h", member(id, name));
    }
    c.typing_event("!r:h", &vec!["@a:h".to_string()]);
    assert_eq!(c.typing(), Some("Alice is typing."));
    c.typing_event("!r:h", &vec!["@b:h".to_string(), "@a:h".to_string(), "@x:h".to_string()]);
    assert_eq!(c.typing(), Some("Alice and @b:h are typing."));
    c.typing_event(
        "!r:h",
        &vec!["@a:h".to_string(), "@b:h".to_string(), "@c:h".to_string(), "@d:h".to_string()],
    );
    assert_eq!(c.typing(), Some("Alice, @b:h, Carol and 1 other are typing."));
    c.typing_event("!r:h", &vec![]);
    assert_eq!(c.typing(), None);
}

#[test]
fn the_header_names_the_members() {
    let mut c = chat();
    c.room_member_event("!r:h", member("@alice:h", Some("Alice Smith")));
    c.room_member_event("!r:h", member("@bob:h", None));
    c.room_member_event("!r:h", member("@carol:h", Some("Carol")));
    assert_eq!(c.pretty_members(), "at least 3 others");
    c.timeline_event(event("1", 1, "@bob:h", content(text("hi"), Relation::Plain)));
    c.timeline_event(event("2", 2, "@alice:h", content(text("ho"), Relation::Plain)));
    assert_eq!(c.pretty_members(), "Alice, bob and at least 1 other");
    c.receipt_event(
        "!r:h",
        &vec![ReadReceipt { event_id: "2".to_string(), user_id: "@carol:h".to_string(), timestamp: 3 }],
    );
    assert_eq!(c.pretty_members(), "Carol, Alice and bob");
    assert_eq!(
        c.display_full(),
        "Room (!r:h)\n\n# Members\n\n* Alice Smith (@alice:h)\n* @bob:h (@bob:h)\n* Carol (@carol:h)\n"
    );
    assert_eq!(c.header(), "Room");
    c.key_event(&key('m'));
    assert_eq!(c.header(), "Room (muted)");
}

#[test]
fn keys_ask_for_what_they_stand_for() {
    let mut c = filled(1);
    assert_eq!((c.room(), c.room_name()), ("!r:h", "Room"));
    let out = c.key_event(&key('i'));
    assert!(out.consumed);
    assert!(matches!(
        &out.commands[..],
        [Command::Compose { note }] if note == "<!-- Type a new message above to send to Room. -->"
    ));
    let out = c.key_event(&key('c'));
    assert!(matches!(
        &out.commands[..],
        [Command::EditMessage { event_id, text, note, in_reply_to: None }]
            if event_id == "m000" && text == "text"
                && note == "<!-- Edit your message above to change it in Room. -->"
    ));
    let out = c.key_event(&key('R'));
    assert!(matches!(
        &out.commands[..],
        [Command::Reply { event_id, note }]
            if event_id == "m000" && note == "<!--\n  Replying to:\n\n  text\n-->"
    ));
    let out = c.key_event(&code(KeyCode::Enter));
    assert!(matches!(&out.commands[..], [Command::OpenLinks { text }] if text == "text"));
    let out = c.key_event(&key('s'));
    assert!(out.consumed && out.commands.is_empty());
    let out = c.key_event(&key('u'));
    assert!(matches!(&out.commands[..], [Command::Upload]));
    let out = c.key_event(&key('V'));
    assert!(matches!(&out.commands[..], [Command::ViewText { text }] if text.starts_with("Room (!r:h)")));
    let out = c.key_event(&key('v'));
    assert!(matches!(
        &out.commands[..],
        [Command::ViewText { text }] if text.starts_with("Sent ") && text.contains(" by Alice (@a:h)\n\ntext\n\n")
    ));
    let out = c.key_event(&key('m'));
    assert!(matches!(&out.commands[..], [Command::SetMuted { muted: true }]));
    assert!(c.muted());
    let out = c.key_event(&key('m'));
    assert!(matches!(&out.commands[..], [Command::SetMuted { muted: false }]));
    let out = c.key_event(&key('z'));
    assert!(!out.consumed && out.commands.is_empty());
}

#[test]
fn keys_on_an_empty_chat_find_no_message() {
    let mut c = chat();
    for k in ['c', 'v'] {
        let out = c.key_event(&key(k));
        assert!(!out.consumed && out.commands.is_empty());
    }
    for k in ['R', 's'] {
        let out = c.key_event(&key(k));
        assert!(out.consumed && out.commands.is_empty());
    }
    c.key_event(&key('d'));
    let out = c.key_event(&key('d'));
    assert!(!out.consumed && out.commands.is_empty());
    assert_eq!(selected(&c), None);
}

#[test]
fn attachments_are_opened_and_saved() {
    let mut c = chat();
    c.room_member_event("!r:h", member("@a:h", None));
    let info = Some(MediaInfo { size: None, mimetype: Some("image/png".to_string()) });
    c.timeline_event(event(
        "1",
        1,
        "@a:h",
        content(MessageBody::Image { body: "cat.png".to_string(), info, source: "mxc://h/media".to_string() }, Relation::Plain),
    ));
    let out = c.key_event(&code(KeyCode::Enter));
    assert!(matches!(
        &out.commands[..],
        [Command::Download { body: MessageBody::Image { body, .. }, after: AfterDownload::View }] if body == "cat.png"
    ));
    let out = c.key_event(&key('s'));
    assert!(matches!(&out.commands[..], [Command::Download { after: AfterDownload::Save, .. }]));
    let out = c.key_event(&key('c'));
    assert!(out.consumed && out.commands.is_empty());
    c.timeline_event(event(
        "2",
        2,
        "@a:h",
        content(MessageBody::File { body: "a.pdf".to_string(), info: None, source: "mxc://h/media".to_string() }, Relation::Plain),
    ));
    c.key_event(&key('G'));
    let out = c.key_event(&code(KeyCode::Enter));
    assert!(matches!(&out.commands[..], [Command::Download { after: AfterDownload::Save, .. }]));
}

#[test]
fn key_combo_delete() {
    let mut c = filled(2);
    let out = c.key_event(&key('d'));
    assert!(!out.consumed && out.commands.is_empty());
    let out = c.key_event(&key('d'));
    assert!(out.consumed);
    assert!(matches!(
        &out.commands[..],
        [Command::ConfirmDelete { question, event_id }]
            if event_id == "m001" && question == "Are you sure you want to delete \"text\""
    ));
    c.key_event(&key('d'));
    let start = Instant::now();
    while start.elapsed() < Duration::from_millis(520) {}
    let out = c.key_event(&key('d'));
    assert!(out.commands.is_empty());
    c.key_event(&key('x'));
    let out = c.key_event(&key('d'));
    assert!(out.commands.is_empty());
    let out = c.key_event(&KeyEvent::new(KeyCode::Char('d'), Modifiers::Shift));
    assert!(matches!(&out.commands[..], [Command::ConfirmDelete { .. }]));
}

#[test]
fn a_long_message_is_cut_short_in_the_question() {
    let mut c = chat();
    c.room_member_event("!r:h", member("@a:h", None));
    c.timeline_event(message("1", 1, "a message that is rather long"));
    c.key_event(&key('d'));
    let out = c.key_event(&key('d'));
    assert!(matches!(
        &out.commands[..],
        [Command::ConfirmDelete { question, .. }]
            if question == "Are you sure you want to delete \"a message that …\""
    ));
}

#[test]
fn reactions_are_sent_and_taken_back() {
    let mut c = chat();
    c.room_member_event("!r:h", member("@a:h", None));
    c.room_member_event("!r:h", member("@me:h", None));
    c.timeline_event(message("1", 1, "one"));
    c.timeline_event(event(
        "r1",
        2,
        "@me:h",
        EventContent::Reaction { key: "🚀".to_string(), relates_to: "1".to_string() },
    ));
    c.timeline_event(event(
        "r2",
        3,
        "@a:h",
        EventContent::Reaction { key: "🎉".to_string(), relates_to: "1".to_string() },
    ));
    assert!(c.react().is_none());
    let out = c.key_event(&key('r'));
    assert!(out.consumed && out.commands.is_empty());
    let react = c.react().unwrap();
    assert_eq!(react.descriptions(), vec!["  🚀   rocket", "  🎉   tada", "  👍   +1"]);
    assert_eq!(react.title(), "Remove Reaction");
    let out = c.key_event(&code(KeyCode::Enter));
    assert!(matches!(&out.commands[..], [Command::RedactEvent { event_id }] if event_id == "r1"));
    assert!(c.react().is_none());

    c.key_event(&key('r'));
    c.key_event(&key('j'));
    assert_eq!(c.react().unwrap().selected(), 1);
    assert_eq!((c.selection().row, c.selection().offset), (0, 0));
    let out = c.key_event(&code(KeyCode::Enter));
    assert!(matches!(
        &out.commands[..],
        [Command::SendReaction { event_id, key }] if event_id == "1" && key == "🎉"
    ));

    c.key_event(&key('r'));
    let out = c.key_event(&code(KeyCode::Esc));
    assert!(out.consumed && out.commands.is_empty() && c.react().is_none());
    c.key_event(&key('r'));
    let out = c.key_event(&key('i'));
    assert!(matches!(&out.commands[..], [Command::Compose { .. }]));
    assert!(c.react().is_some());
}

fn walk(messages: &[matui::message::Message], depth: usize, seen: &mut Vec<(String, usize)>) {
    for m in messages {
        seen.push((m.id.clone(), depth));
        assert!(m.reactions.iter().all(|r| !r.events.is_empty()));
        walk(&m.replies, depth + 1, seen);
    }
}

#[test]
fn the_list_keeps_to_the_rules_of_a_tree() {
    let reply = |id: &str, ts: u64, to: &str| {
        event(id, ts, "@b:h", content(text("re"), Relation::Reply { event_id: to.to_string() }))
    };
    let reaction = |id: &str, ts: u64, to: &str| {
        event(
            id,
            ts,
            "@b:h",
            EventContent::Reaction { key: "👍".to_string(), relates_to: to.to_string() },
        )
    };
    let mut c = chat();
    c.batch_event(
        "!r:h",
        vec![
            message("m1", 1, "one"),
            message("m2", 2, "two"),
            reply("r1", 3, "m1"),
            reply("r2", 4, "r1"),
            reply("r3", 5, "r2"),
            reply("r4", 6, "r3"),
            reply("r5", 7, "r4"),
            reply("r6", 8, "r5"),
            reply("lost", 9, "nowhere"),
            reaction("x1", 10, "m2"),
            reaction("x2", 11, "r4"),
            reply("r1", 12, "m2"),
            message("m1", 13, "one again"),
            event("d1", 14, "@b:h", EventContent::Redaction { redacts: Some("x1".to_string()) }),
            event("d2", 15, "@a:h", EventContent::Redaction { redacts: Some("r6".to_string()) }),
        ],
        None,
    );
    let mut seen: Vec<(String, usize)> = Vec::new();
    walk(c.messages(), 0, &mut seen);
    let mut names: Vec<&String> = seen.iter().map(|(id, _)| id).collect();
    names.sort();
    assert_eq!(names, vec!["lost", "m1", "m2", "r1", "r2", "r3", "r4", "r5"]);
    assert!(seen.iter().all(|(_, depth)| *depth <= 4));
    assert!(seen.contains(&("r4".to_string(), 4)));
    assert!(seen.contains(&("r5".to_string(), 4)));
    assert!(c.messages().iter().find(|m| m.id == "m2").unwrap().reactions.is_empty());
}

#[test]
fn dd_asks_only_without_a_pause() {
    let mut c = filled(2);
    let out = c.key_event_with(&key('d'), false, "");
    assert!(!out.consumed && out.commands.is_empty());
    let out = c.key_event_with(&key('d'), false, "");
    assert!(out.consumed);
    assert!(matches!(
        &out.commands[..],
        [Command::ConfirmDelete { question, event_id }]
            if event_id == "m001" && question == "Are you sure you want to delete \"text\""
    ));
    c.key_event_with(&key('d'), false, "");
    let out = c.key_event_with(&key('d'), true, "");
    assert!(!out.consumed && out.commands.is_empty());
    let out = c.key_event_with(&key('d'), false, "");
    assert!(matches!(&out.commands[..], [Command::ConfirmDelete { .. }]));
}

#[test]
fn the_date_handed_in_is_the_date_shown() {
    let mut c = filled(1);
    let out = c.key_event_with(&key('v'), false, "the other day");
    assert!(matches!(
        &out.commands[..],
        [Command::ViewText { text }] if text.starts_with("Sent the other day by Alice (@a:h)")
    ));
}

#[test]
fn a_deleted_message_takes_the_selected_answer_along() {
    let answer = event(
        "b",
        10,
        "@a:h",
        content(text("answer"), Relation::Reply { event_id: "p".to_string() }),
    );
    let deletion = event("r", 11, "@a:h", EventContent::Redaction { redacts: Some("p".to_string()) });
    let mut c = chat();
    c.batch_event("!r:h", vec![answer, deletion], None);
    assert_eq!(selected(&c), Some("b".to_string()));
    c.batch_event("!r:h", vec![message("o", 3, "older")], None);
    assert_eq!(selected(&c), Some("b".to_string()));
    assert_eq!(ids(&c), vec!["b", "o"]);
    c.batch_event("!r:h", vec![message("p", 5, "asked")], None);
    assert_eq!(ids(&c), vec!["o"]);
    assert_eq!(selected(&c), Some("o".to_string()));
}

#[test]
fn half_a_second_is_the_time_frame_of_dd() {
    let mut c = filled(2);
    assert!(!c.pause_exceeds(500_000_000));
    assert!(c.pause_exceeds(500_000_001));
    c.key_event_with(&key('d'), false, "");
    let late = c.pause_exceeds(2_000_000_000);
    assert!(c.key_event_with(&key('d'), late, "").commands.is_empty());
    let late = c.pause_exceeds(100_000_000);
    assert_eq!(c.key_event_with(&key('d'), late, "").commands.len(), 1);
}
