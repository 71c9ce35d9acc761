use matui::event::{EventContent, MediaInfo, MessageBody, Relation, TimelineEvent};
use matui::listing::{make_message_list, merge_reactions, search, take_in};
use matui::message::{find, MergeResult, Message};
use matui::receipts::{ReadReceipt, Receipts};
use matui::timeline::Timeline;
use matui::username::Member;

fn text(body: &str) -> MessageBody {
    MessageBody::Text { body: body.to_string() }
}

fn event(id: &str, ts: u64, content: EventContent) -> TimelineEvent {
    TimelineEvent {
        id: id.to_string(),
        room_id: "!r:h".to_string(),
        sender: "@a:h".to_string(),
        ts,
        content,
    }
}

fn message(id: &str, ts: u64, body: &str) -> TimelineEvent {
    event(id, ts, EventContent::Message { body: text(body), relation: Relation::Plain })
}

fn reply(id: &str, ts: u64, body: &str, to: &str) -> TimelineEvent {
    event(
        id,
        ts,
        EventContent::Message {
            body: text(body),
            relation: Relation::Reply { event_id: to.to_string() },
        },
    )
}

fn edit(id: &str, ts: u64, of: &str, body: &str) -> TimelineEvent {
    event(
        id,
        ts,
        EventContent::Message {
            body: text("* edit"),
            relation: Relation::Replacement { event_id: of.to_string(), new_body: text(body) },
        },
    )
}

fn reaction(id: &str, ts: u64, to: &str, key: &str, sender: &str) -> TimelineEvent {
    let mut e = event(
        id,
        ts,
        EventContent::Reaction { key: key.to_string(), relates_to: to.to_string() },
    );
    e.sender = sender.to_string();
    e
}

fn redaction(id: &str, ts: u64, of: &str) -> TimelineEvent {
    event(id, ts, EventContent::Redaction { redacts: Some(of.to_string()) })
}

fn grow(events: &[TimelineEvent]) -> Vec<Message> {
    let mut messages = Vec::new();
    for e in events {
        take_in(&mut messages, e);
    }
    messages
}

fn body_of(m: &Message) -> String {
    m.body.display()
}

#[test]
fn remove_matrix_headers() {
    let msg = Message::remove_reply_header("> this is a header\n\nAnd this is a message.");
    assert_eq!(msg, "And this is a message.");

    let msg = Message::remove_reply_header("> this is a header\n\n");
    assert_eq!(msg, "");

    let msg = Message::remove_reply_header("> this is a header\n");
    assert_eq!(msg, "");

    let msg = Message::remove_reply_header("> this is a header");
    assert_eq!(msg, "");

    let msg = Message::remove_reply_header("message");
    assert_eq!(msg, "message");
}

#[test]
fn reply_headers_of_several_lines_go() {
    assert_eq!(
        Message::remove_reply_header("> <@a:h> first\n> second\n \t\n\nanswer\n> not a header"),
        "answer\n> not a header"
    );
    assert_eq!(Message::remove_reply_header(">no space"), ">no space");
    assert_eq!(Message::remove_reply_header(""), "");
}

#[test]
fn a_message_starts_from_a_plain_event() {
    let m = Message::try_from(&message("$1", 7, "hello"), false).unwrap();
    assert_eq!(m.id, "$1");
    assert_eq!(m.sent, 7);
    assert_eq!(m.room_id, "!r:h");
    assert_eq!(m.sender.id, "@a:h");
    assert_eq!(m.in_reply_to, None);
    assert_eq!(body_of(&m), "hello");
    assert!(m.history.is_empty() && m.reactions.is_empty() && m.replies.is_empty());
}

#[test]
fn replies_start_a_message_only_when_forced() {
    let r = reply("$2", 8, "answer", "$1");
    assert!(Message::try_from(&r, false).is_none());
    let m = Message::try_from(&r, true).unwrap();
    assert_eq!(m.in_reply_to, Some("$1".to_string()));
}

#[test]
fn edits_reactions_and_the_rest_start_no_message() {
    assert!(Message::try_from(&edit("$2", 8, "$1", "hi"), true).is_none());
    assert!(Message::try_from(&reaction("$3", 9, "$1", "👍", "@b:h"), true).is_none());
    assert!(Message::try_from(&redaction("$4", 9, "$1"), true).is_none());
    assert!(Message::try_from(&event("$5", 9, EventContent::Other), true).is_none());
    let other = event(
        "$6",
        9,
        EventContent::Message { body: MessageBody::Other, relation: Relation::Plain },
    );
    assert!(Message::try_from(&other, true).is_none());
}

#[test]
fn edit_then_redact() {
    let mut messages = grow(&[message("1", 1, "hello")]);
    let result = Message::apply_timeline_event(&mut messages, &edit("2", 2, "1", "hi"), 0);
    assert!(result == MergeResult::Consumed);
    assert_eq!(body_of(&messages[0]), "hi");
    assert_eq!(messages[0].history.len(), 1);
    assert_eq!(messages[0].history[0].display(), "hello");

    let result = Message::apply_timeline_event(&mut messages, &redaction("3", 3, "1"), 0);
    assert!(result == MergeResult::Ignored);
    assert!(find(&messages, &"1".to_string()).is_none());
    assert!(messages.is_empty());
}

#[test]
fn edits_add_up_in_the_history() {
    let mut messages = grow(&[message("a", 1, "zero"), message("m", 2, "first")]);
    for (n, body) in ["second", "third", "fourth"].iter().enumerate() {
        let e = edit(&format!("e{}", n), 3 + n as u64, "m", body);
        assert!(Message::apply_timeline_event(&mut messages, &e, 0) == MergeResult::Consumed);
    }
    let m = &messages[1];
    assert_eq!(m.history.len(), 3);
    assert_eq!(body_of(m), "fourth");
    let history: Vec<String> = m.history.iter().map(|b| b.display()).collect();
    assert_eq!(history, vec!["first", "second", "third"]);
    assert_eq!(body_of(&messages[0]), "zero");
}

#[test]
fn an_edit_reaches_a_reply() {
    let mut messages = grow(&[message("1", 1, "root"), reply("2", 2, "answer", "1")]);
    Message::apply_timeline_event(&mut messages, &edit("3", 3, "2", "better"), 0);
    assert_eq!(body_of(&messages[0].replies[0]), "better");
    assert_eq!(messages[0].replies[0].history.len(), 1);
    assert_eq!(body_of(&messages[0]), "root");
}

#[test]
fn a_reply_goes_under_its_message_and_moves_it_to_the_end() {
    let messages = grow(&[
        message("1", 1, "one"),
        message("2", 2, "two"),
        reply("3", 3, "to one", "1"),
    ]);
    let ids: Vec<&str> = messages.iter().map(|m| m.id.as_str()).collect();
    assert_eq!(ids, vec!["2", "1"]);
    assert_eq!(messages[1].replies.len(), 1);
    assert_eq!(messages[1].replies[0].id, "3");
    assert_eq!(messages[1].sort_order(), 3);
    assert_eq!(messages[0].sort_order(), 2);
}

#[test]
fn a_reply_without_its_message_stands_alone() {
    let mut messages = grow(&[message("1", 1, "one")]);
    let orphan = reply("3", 3, "to nobody", "nothing");
    assert!(
        Message::apply_timeline_event(&mut messages, &orphan, 0) == MergeResult::Missed
    );
    assert_eq!(messages.len(), 1);
    take_in(&mut messages, &orphan);
    assert_eq!(messages.len(), 2);
    assert_eq!(messages[1].in_reply_to, Some("nothing".to_string()));
}

#[test]
fn replies_nest_four_levels_and_no_deeper() {
    let mut events = vec![message("m", 1, "root")];
    events.push(reply("r1", 2, "one", "m"));
    events.push(reply("r2", 3, "two", "r1"));
    events.push(reply("r3", 4, "three", "r2"));
    events.push(reply("r4", 5, "four", "r3"));
    events.push(reply("r5", 6, "five", "r4"));
    events.push(reply("r6", 7, "six", "r5"));
    let messages = grow(&events);
    assert_eq!(messages.len(), 1);
    let r1 = &messages[0].replies[0];
    let r2 = &r1.replies[0];
    let r3 = &r2.replies[0];
    assert_eq!(r3.id, "r3");
    let deepest: Vec<&str> = r3.replies.iter().map(|m| m.id.as_str()).collect();
    assert_eq!(deepest, vec!["r4", "r5", "r6"]);
    assert!(r3.replies.iter().all(|m| m.replies.is_empty()));
}

#[test]
fn reply_pagination() {
    let mut timeline = Timeline::new();
    for n in 0..200u64 {
        timeline.insert(message(&format!("m{:03}", n), 1000 + n, "text"));
    }
    timeline.insert(reply("r1", 2001, "one", "m199"));
    timeline.insert(reply("r2", 2002, "two", "r1"));
    timeline.insert(reply("r3", 2003, "three", "r2"));
    timeline.insert(reply("r4", 2004, "four", "r3"));
    timeline.insert(reply("r5", 2005, "five", "r4"));
    let members: Vec<Member> = vec![];
    let queue = Receipts::new("@me:h".to_string()).get_all();
    let messages = make_message_list(&timeline, &members, &queue, "");
    assert_eq!(messages.len(), 200);
    assert_eq!(messages[0].id, "m199");
    assert_eq!(messages[199].id, "m000");
    let r3 = &messages[0].replies[0].replies[0].replies[0];
    assert_eq!(r3.id, "r3");
    let siblings: Vec<&str> = r3.replies.iter().map(|m| m.id.as_str()).collect();
    assert_eq!(siblings, vec!["r4", "r5"]);
}

#[test]
fn a_reaction_is_added_to_its_message() {
    let mut messages = grow(&[message("1", 1, "one")]);
    let r = reaction("2", 2, "1", "👍", "@b:h");
    assert!(Message::apply_timeline_event(&mut messages, &r, 0) == MergeResult::Consumed);
    assert_eq!(messages[0].reactions.len(), 1);
    assert_eq!(messages[0].reactions[0].body, "👍");
    assert_eq!(messages[0].reactions[0].events[0].id, "2");
    assert_eq!(messages[0].reactions[0].events[0].sender.id, "@b:h");
    let stray = reaction("3", 3, "nothing", "👍", "@b:h");
    assert!(Message::apply_timeline_event(&mut messages, &stray, 0) == MergeResult::Ignored);
}

#[test]
fn redacting_a_message_takes_its_reactions_and_replies_along() {
    let mut messages = grow(&[
        message("1", 1, "one"),
        message("2", 2, "two"),
        reaction("3", 3, "1", "👍", "@b:h"),
        reply("4", 4, "answer", "1"),
    ]);
    Message::apply_timeline_event(&mut messages, &redaction("5", 5, "1"), 0);
    assert_eq!(messages.len(), 1);
    assert_eq!(messages[0].id, "2");
}

#[test]
fn redacting_a_reaction_takes_that_event_only() {
    let mut messages = grow(&[
        message("1", 1, "one"),
        reaction("a", 2, "1", "👍", "@b:h"),
        reaction("b", 3, "1", "👍", "@c:h"),
        reaction("c", 4, "1", "❤", "@c:h"),
    ]);
    merge_reactions(&mut messages);
    assert_eq!(messages[0].reactions.len(), 2);
    Message::apply_timeline_event(&mut messages, &redaction("x", 5, "a"), 0);
    assert_eq!(messages[0].reactions.len(), 2);
    assert_eq!(messages[0].reactions[0].events.len(), 1);
    assert_eq!(messages[0].reactions[0].events[0].id, "b");
    Message::apply_timeline_event(&mut messages, &redaction("y", 6, "c"), 0);
    assert_eq!(messages[0].reactions.len(), 1);
    assert_eq!(messages[0].reactions[0].body, "👍");
    Message::apply_timeline_event(&mut messages, &redaction("z", 7, "nothing"), 0);
    assert_eq!(messages.len(), 1);
    assert_eq!(messages[0].reactions.len(), 1);
}

#[test]
fn a_redaction_reaches_replies() {
    let mut messages = grow(&[
        message("1", 1, "one"),
        reply("2", 2, "answer", "1"),
        reply("3", 3, "more", "2"),
    ]);
    Message::apply_timeline_event(&mut messages, &redaction("4", 4, "2"), 0);
    assert_eq!(messages.len(), 1);
    assert!(messages[0].replies.is_empty());
}

#[test]
fn a_redaction_without_a_target_changes_nothing() {
    let mut messages = grow(&[message("1", 1, "one")]);
    let e = event("2", 2, EventContent::Redaction { redacts: None });
    assert!(Message::apply_timeline_event(&mut messages, &e, 0) == MergeResult::Ignored);
    assert_eq!(messages.len(), 1);
}

#[test]
fn the_search_keeps_what_matches() {
    let mut messages = grow(&[
        message("1", 1, "Apple pie"),
        message("2", 2, "banana"),
        message("3", 3, "cherry"),
        reply("4", 4, "more APPLE", "3"),
        reply("5", 5, "nothing", "3"),
    ]);
    search(&mut messages, "apple");
    let ids: Vec<&str> = messages.iter().map(|m| m.id.as_str()).collect();
    assert_eq!(ids, vec!["1", "3"]);
    let replies: Vec<&str> = messages[1].replies.iter().map(|m| m.id.as_str()).collect();
    assert_eq!(replies, vec!["4"]);
}

#[test]
fn the_empty_search_keeps_everything() {
    let mut messages = grow(&[message("1", 1, "one"), message("2", 2, "two")]);
    search(&mut messages, "");
    assert_eq!(messages.len(), 2);
}

#[test]
fn the_list_shows_the_newest_first() {
    let mut timeline = Timeline::new();
    timeline.insert(message("b", 2, "two"));
    timeline.insert(message("a", 1, "one"));
    timeline.insert(message("c", 3, "three"));
    timeline.insert(reaction("d", 4, "a", "👍", "@b:h"));
    timeline.insert(reaction("e", 5, "a", "👍", "@c:h"));
    let members = vec![Member {
        user_id: "@a:h".to_string(),
        display_name: Some("Alice".to_string()),
    }];
    let mut receipts = Receipts::new("@me:h".to_string());
    receipts.apply(&ReadReceipt { event_id: "b".to_string(), user_id: "@b:h".to_string(), timestamp: 2 });
    let messages = make_message_list(&timeline, &members, &receipts.get_all(), "");
    let ids: Vec<&str> = messages.iter().map(|m| m.id.as_str()).collect();
    assert_eq!(ids, vec!["c", "b", "a"]);
    assert_eq!(messages[2].reactions.len(), 1);
    assert_eq!(messages[2].reactions[0].events.len(), 2);
    assert_eq!(messages[0].sender.as_str(), "Alice");
    assert_eq!(messages[1].receipts.len(), 1);
    assert_eq!(messages[1].receipts[0].id, "@b:h");
    assert!(messages[0].receipts.is_empty() && messages[2].receipts.is_empty());
}

#[test]
fn attachments_are_shown_with_kind_and_size() {
    let info = |size: Option<&str>| {
        Some(MediaInfo { size: size.map(|s| s.to_string()), mimetype: None })
    };
    let image = MessageBody::Image { body: "cat.png".to_string(), info: info(Some("1.2 MiB")), source: "mxc://h/media".to_string() };
    assert_eq!(image.display(), "Image: cat.png (1.2 MiB)");
    let image = MessageBody::Image { body: "cat.png".to_string(), info: info(None), source: "mxc://h/media".to_string() };
    assert_eq!(image.display(), "cat.png");
    let image = MessageBody::Image { body: "cat.png".to_string(), info: None, source: "mxc://h/media".to_string() };
    assert_eq!(image.display(), "cat.png");
    let video = MessageBody::Video { body: "v.mp4".to_string(), info: info(Some("3 GiB")), source: "mxc://h/media".to_string() };
    assert_eq!(video.display(), "Video: v.mp4 (3 GiB)");
    let video = MessageBody::Video { body: "v.mp4".to_string(), info: info(None), source: "mxc://h/media".to_string() };
    assert_eq!(video.display(), "no size");
    let video = MessageBody::Video { body: "v.mp4".to_string(), info: None, source: "mxc://h/media".to_string() };
    assert_eq!(video.display(), "no info");
    let file = MessageBody::File { body: "a.pdf".to_string(), info: info(Some("9 B")), source: "mxc://h/media".to_string() };
    assert_eq!(file.display(), "File: a.pdf (9 B)");
    let file = MessageBody::File { body: "a.pdf".to_string(), info: None, source: "mxc://h/media".to_string() };
    assert_eq!(file.display(), "a.pdf");
    assert_eq!(MessageBody::Other.display(), "unknown");
    assert_eq!(text("  padded \n").display(), "  padded \n");
    let m = Message::try_from(&message("1", 1, "  padded \n"), false).unwrap();
    assert_eq!(m.display(), "padded");
}

#[test]
fn an_event_that_finds_its_message_is_consumed_wherever_it_stands() {
    let tree = || {
        grow(&[
            message("a", 1, "first"),
            message("b", 2, "second"),
            reply("m", 3, "under a", "a"),
            reply("x", 4, "under b", "b"),
        ])
    };
    let mut messages = tree();
    assert_eq!(messages.iter().map(|m| m.id.as_str()).collect::<Vec<_>>(), vec!["a", "b"]);
    let result = Message::apply_timeline_event(&mut messages, &edit("e", 5, "m", "better"), 0);
    assert!(result == MergeResult::Consumed);
    assert_eq!(body_of(&messages[0].replies[0]), "better");
    assert_eq!(messages[0].replies[0].history.last().unwrap().display(), "under a");

    let mut messages = tree();
    let result =
        Message::apply_timeline_event(&mut messages, &reaction("r", 5, "m", "👍", "@b:h"), 0);
    assert!(result == MergeResult::Consumed);
    assert_eq!(messages[0].replies[0].reactions.len(), 1);

    let mut messages = tree();
    let result = Message::apply_timeline_event(&mut messages, &reply("y", 5, "deeper", "m"), 0);
    assert!(result == MergeResult::Consumed);
    assert_eq!(messages[0].replies[0].replies[0].id, "y");

    let mut messages = tree();
    assert!(
        Message::apply_timeline_event(&mut messages, &edit("e", 5, "gone", "better"), 0)
            == MergeResult::Ignored
    );
    assert!(
        Message::apply_timeline_event(&mut messages, &reply("y", 5, "lost", "gone"), 0)
            == MergeResult::Missed
    );
    assert!(
        Message::apply_timeline_event(&mut messages, &redaction("d", 6, "m"), 0)
            == MergeResult::Ignored
    );
}
