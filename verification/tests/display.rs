use matui::event::{EventContent, MessageBody, Relation, TimelineEvent};
use matui::display::{height_of, MessageAction, AfterDownload};
use matui::layout::{
    capture, find_row, layout, move_down, move_up, resolve, select_line, short_above, window_of,
    Bookmark, Row, Selection,
};
use matui::listing::take_in;
use matui::message::Message;
use matui::reaction::{Reaction, ReactionEvent};
use matui::render::Tone;
use matui::username::{Member, Username};

fn event(id: &str, ts: u64, body: &str, relation: Relation) -> TimelineEvent {
    TimelineEvent {
        id: id.to_string(),
        room_id: "!r:h".to_string(),
        sender: "@a:h".to_string(),
        ts,
        content: EventContent::Message {
            body: MessageBody::Text { body: body.to_string() },
            relation,
        },
    }
}

fn message(body: &str) -> Message {
    Message::try_from(&event("$1", 60_000, body, Relation::Plain), false).unwrap()
}

fn rows(heights: &[usize]) -> Vec<Row> {
    heights
        .iter()
        .enumerate()
        .map(|(i, h)| Row { id: format!("m{}", i), height: *h, top: i })
        .collect()
}

fn texts(lines: &[Vec<matui::render::Span>]) -> Vec<String> {
    lines.iter().map(|l| l.iter().map(|s| s.text.as_str()).collect::<String>()).collect()
}

#[test]
fn heights_add_up() {
    assert_eq!(height_of(1, 0, 0), 3);
    assert_eq!(height_of(0, 0, 0), 2);
    assert_eq!(height_of(10, 0, 0), 12);
    assert_eq!(height_of(11, 0, 0), 13);
    assert_eq!(height_of(500, 1, 0), 14);
    assert_eq!(height_of(1, 3, 5), 9);
    assert_eq!(height_of(1, 0, 6), 9);
    assert_eq!(height_of(usize::MAX, usize::MAX, usize::MAX), 19);
}

#[test]
fn a_message_is_as_high_as_it_wraps() {
    let m = message("one two three four five six seven eight nine ten");
    assert_eq!(m.height(80, false), 3);
    assert_eq!(m.height(10, false), 8);
    let reply = message("> <@a:h> quoted text that is long\n\nshort");
    assert_eq!(reply.height(10, true), 3);
    assert_eq!(reply.height(10, false), 8);
}

#[test]
fn ages_are_written_in_words() {
    let m = message("x");
    assert_eq!(m.pretty_elapsed_at(60), "now");
    assert_eq!(m.pretty_elapsed_at(59), "now");
    assert_eq!(m.pretty_elapsed_at(60 + 5 * 60), "5 minutes ago");
    assert_eq!(m.pretty_elapsed_at(60 + 3 * 3600), "3 hours ago");
    assert!(!m.pretty_elapsed().is_empty());
}

#[test]
fn the_full_account_lists_reactions_and_history() {
    let mut m = message(" hello ");
    assert_eq!(m.display_full_with("2024-01-01"), "Sent 2024-01-01 by @a:h (@a:h)\n\nhello\n\n");
    m.edit(MessageBody::Text { body: "hi".to_string() });
    m.edit(MessageBody::Text { body: "hey".to_string() });
    m.reactions.push(Reaction {
        body: "👍".to_string(),
        events: vec![
            ReactionEvent::new("$2".to_string(), "@b:h".to_string()),
            ReactionEvent::new("$3".to_string(), "@c:h".to_string()),
        ],
    });
    m.update_senders(&vec![Member {
        user_id: "@b:h".to_string(),
        display_name: Some("Bob".to_string()),
    }]);
    assert_eq!(
        m.display_full_with("then"),
        "Sent then by @a:h (@a:h)\n\nhey\n\n### Reactions\n\n* 👍 (+1) by Bob (@b:h)\n* 👍 (+1) by @c:h (@c:h)\n\n### History\n\n* hi\n*  hello \n"
    );
    assert!(m.display_full().starts_with("Sent "));
}

#[test]
fn opening_and_saving_depend_on_the_content() {
    let m = message("x");
    assert!(m.open() == MessageAction::ViewText);
    assert!(m.save() == MessageAction::Nothing);
    let mut image = message("x");
    image.body = MessageBody::Image { body: "cat.png".to_string(), info: None, source: "mxc://h/media".to_string() };
    assert!(image.open() == MessageAction::Download(AfterDownload::View));
    assert!(image.save() == MessageAction::Download(AfterDownload::Save));
    image.body = MessageBody::Video { body: "v.mp4".to_string(), info: None, source: "mxc://h/media".to_string() };
    assert!(image.open() == MessageAction::Download(AfterDownload::View));
    image.body = MessageBody::File { body: "a.pdf".to_string(), info: None, source: "mxc://h/media".to_string() };
    assert!(image.open() == MessageAction::Download(AfterDownload::Save));
    image.body = MessageBody::Other;
    assert!(image.open() == MessageAction::Nothing && image.save() == MessageAction::Nothing);
}

#[test]
fn flattening_goes_message_first() {
    let mut messages = Vec::new();
    take_in(&mut messages, &event("1", 1, "root", Relation::Plain));
    take_in(&mut messages, &event("2", 2, "a", Relation::Reply { event_id: "1".to_string() }));
    take_in(&mut messages, &event("3", 3, "b", Relation::Reply { event_id: "2".to_string() }));
    take_in(&mut messages, &event("4", 4, "c", Relation::Reply { event_id: "1".to_string() }));
    let ids: Vec<&str> = messages[0].flatten().iter().map(|m| m.id.as_str()).collect();
    assert_eq!(ids, vec!["1", "2", "3", "4"]);
    let laid = layout(&messages, 80);
    let ids: Vec<&str> = laid.iter().map(|r| r.id.as_str()).collect();
    assert_eq!(ids, vec!["4", "3", "2", "1"]);
    assert!(laid.iter().all(|r| r.height == 3 && r.top == 0));
}

#[test]
fn names_are_brought_up_to_date() {
    let mut name = Username::new("@a:h".to_string());
    assert_eq!(name.as_str(), "@a:h");
    name.update(&Member { user_id: "@b:h".to_string(), display_name: Some("Bob".to_string()) });
    assert_eq!(name.as_str(), "@a:h");
    name.update(&Member { user_id: "@a:h".to_string(), display_name: Some("Alice".to_string()) });
    assert_eq!(name.as_str(), "Alice");
    assert!(name.same_user(&Username::new("@a:h".to_string())));
    name.update(&Member { user_id: "@a:h".to_string(), display_name: None });
    assert_eq!(name.as_str(), "@a:h");
}

#[test]
fn the_selection_moves_over_rows() {
    let r = rows(&[3, 2, 4]);
    let s = Selection { row: 0, offset: 0 };
    let s = move_up(&r, s);
    assert!(s == Selection { row: 0, offset: 1 });
    let s = move_up(&r, s);
    assert!(s == Selection { row: 1, offset: 0 });
    let s = move_up(&r, s);
    assert!(s == Selection { row: 2, offset: 0 });
    let s = move_down(&r, s);
    assert!(s == Selection { row: 1, offset: 0 });
    let s = move_down(&r, s);
    assert!(s == Selection { row: 0, offset: 1 });
    let none: Vec<Row> = vec![];
    assert!(move_up(&none, Selection { row: 0, offset: 0 }) == Selection { row: 0, offset: 0 });
}

#[test]
fn lines_are_found_in_rows() {
    let r = rows(&[3, 2, 4]);
    assert!(select_line(&r, 0) == Selection { row: 0, offset: 0 });
    assert!(select_line(&r, 1) == Selection { row: 0, offset: 1 });
    assert!(select_line(&r, 2) == Selection { row: 0, offset: 1 });
    assert!(select_line(&r, 3) == Selection { row: 1, offset: 0 });
    assert!(select_line(&r, 4) == Selection { row: 1, offset: 0 });
    assert!(select_line(&r, 7) == Selection { row: 2, offset: 2 });
    assert!(select_line(&r, 8) == Selection { row: 2, offset: 2 });
    assert!(select_line(&r, 1000) == Selection { row: 2, offset: 2 });
    assert!(select_line(&vec![], 5) == Selection { row: 0, offset: 0 });
}

#[test]
fn bookmarks_are_captured_and_resolved() {
    let r = rows(&[3, 2, 4]);
    let b = capture(&r, Selection { row: 2, offset: 1 }, 3);
    assert_eq!((b.message_id.as_str(), b.offset, b.window_offset), ("m2", 1, 6));
    assert!(resolve(&r, &b) == Selection { row: 2, offset: 1 });
    let grown = rows(&[5, 5, 3, 2, 4]);
    let mut renamed = grown;
    for (i, id) in ["n0", "n1", "m0", "m1", "m2"].iter().enumerate() {
        renamed[i].id = id.to_string();
    }
    assert!(resolve(&renamed, &b) == Selection { row: 4, offset: 1 });
    assert_eq!(find_row(&renamed, "m1"), Some(3));
    assert_eq!(find_row(&renamed, "zz"), None);
    let gone = Bookmark { message_id: "zz".to_string(), offset: 1, window_offset: 6 };
    assert!(resolve(&r, &gone) == Selection { row: 2, offset: 1 });
    let tall = Bookmark { message_id: "m1".to_string(), offset: 7, window_offset: 0 };
    assert!(resolve(&r, &tall) == Selection { row: 1, offset: 0 });
    let empty = capture(&vec![], Selection { row: 0, offset: 0 }, 0);
    assert_eq!((empty.message_id.as_str(), empty.offset, empty.window_offset), ("", 0, 0));
}

#[test]
fn the_window_and_the_lines_above_are_counted() {
    let r = rows(&vec![3; 300]);
    assert!(short_above(&r, Selection { row: 299, offset: 0 }));
    assert!(short_above(&r, Selection { row: 267, offset: 1 }));
    assert!(!short_above(&r, Selection { row: 266, offset: 1 }));
    assert!(!short_above(&r, Selection { row: 0, offset: 0 }));
    assert_eq!(window_of(&r, Selection { row: 150, offset: 0 }, 300), (50, 251));
    assert_eq!(window_of(&r, Selection { row: 10, offset: 0 }, 300), (0, 111));
    assert_eq!(window_of(&r, Selection { row: 290, offset: 0 }, 300), (190, 300));
    let b = capture(&r, Selection { row: 150, offset: 1 }, 300);
    assert_eq!(b.window_offset, 301);
}

#[test]
fn a_message_is_drawn_line_by_line() {
    let mut messages = Vec::new();
    take_in(&mut messages, &event("1", 60_000, "hello there", Relation::Plain));
    take_in(
        &mut messages,
        &event("2", 120_000, "> <@a:h> hello there\n\nan answer", Relation::Reply { event_id: "1".to_string() }),
    );
    let root = &mut messages[0];
    root.edit(MessageBody::Text { body: "hello again".to_string() });
    root.receipts.push(Username::new("@b:h".to_string()));
    root.reactions.push(Reaction {
        body: "👍".to_string(),
        events: vec![ReactionEvent::new("$r".to_string(), "@c:h".to_string())],
    });
    let lines = root.to_lines("hello again", 40, 60 + 300);
    assert_eq!(
        texts(&lines),
        vec![
            " ",
            "@a:h 5 minutes ago (edited)",
            "hello again",
            "Seen by @b:h.",
            "👍 (+1) @c:h",
            "╷ ",
            "│ @a:h 4 minutes ago",
            "│ an answer",
        ]
    );
    assert!(lines[1][0].tone == Tone::Author && lines[1][3].tone == Tone::Alert);
    assert!(lines[5][0].tone == Tone::Pipe && lines[2][0].tone == Tone::Plain);
    let items = root.to_list_items(40, 60 + 300);
    let mut reversed = texts(&items);
    reversed.reverse();
    assert_eq!(reversed, texts(&lines));
    let heights: usize = layout(&messages, 40).iter().map(|r| r.height).sum();
    assert_eq!(heights, lines.len());
}

#[test]
fn long_messages_and_many_reactions_overflow() {
    let mut m = message(&vec!["word"; 12].join("\n"));
    for n in 0..6 {
        m.reactions.push(Reaction {
            body: format!("r{}", n),
            events: vec![ReactionEvent::new(n.to_string(), "@c:h".to_string())],
        });
    }
    m.body = MessageBody::File { body: "f".to_string(), info: None, source: "mxc://h/media".to_string() };
    let body = vec!["word"; 12].join("\n");
    let lines = m.to_lines(&body, 20, 60);
    assert_eq!(lines.len(), 2 + 10 + 1 + 5);
    assert_eq!(texts(&lines)[12], "* overflow: type \"v\" to view entire message");
    assert!(lines[2][0].tone == Tone::Attachment);
    assert!(m.style() == Tone::Attachment);
    assert_eq!(texts(&lines)[17], "r4 @c:h");
}
