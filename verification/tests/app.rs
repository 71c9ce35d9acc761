use matui::app::{App, Popup};
use matui::chat::Command;
use matui::delaytimer::DelayTimer;
use matui::event::{EventContent, MessageBody, Relation, TimelineEvent};
use matui::handler::{
    handle_app_event, handle_blur_event, handle_event, handle_event_with, handle_focus_event,
    handle_key_event, handle_key_event_with, passes_after_park, poll_timeout, tick_due, Action,
    Batch, Event, MatuiEvent,
};
use matui::key::{KeyCode, KeyEvent, Modifiers};
use matui::matrix::SyncType;
use matui::receipts::ReadReceipt;
use matui::roomcache::DecoratedRoom;
use matui::settings::default_settings;
use matui::username::Member;

fn key(c: char) -> KeyEvent {
    KeyEvent::new(KeyCode::Char(c), Modifiers::Plain)
}

fn code(code: KeyCode) -> KeyEvent {
    KeyEvent::new(code, Modifiers::Plain)
}

fn room(id: &str, name: &str, unread: u64) -> DecoratedRoom {
    DecoratedRoom {
        room_id: id.to_string(),
        name: name.to_string(),
        visited: false,
        last_message: None,
        last_sender: None,
        last_ts: None,
        notifications: unread,
        highlights: 0,
    }
}

fn message(room: &str, id: &str, ts: u64, sender: &str, body: &str) -> TimelineEvent {
    TimelineEvent {
        id: id.to_string(),
        room_id: room.to_string(),
        sender: sender.to_string(),
        ts,
        content: EventContent::Message {
            body: MessageBody::Text { body: body.to_string() },
            relation: Relation::Plain,
        },
    }
}

fn app() -> App {
    let mut app = App::new(default_settings());
    app.set_me("@me:h".to_string());
    app.rooms_populated(vec![room("!a:h", "Alpha", 0), room("!b:h", "Beta", 3)]);
    app
}

fn in_room() -> App {
    let mut app = app();
    handle_app_event(MatuiEvent::SyncComplete, &mut app);
    handle_app_event(
        MatuiEvent::RoomMember(
            "!b:h".to_string(),
            Member { user_id: "@x:h".to_string(), display_name: None },
        ),
        &mut app,
    );
    app
}

#[test]
fn the_first_tick_brings_the_session_up() {
    let mut app = App::new(default_settings());
    assert!(app.running);
    let out = handle_event(Event::Tick, &mut app);
    assert!(matches!(&out.actions[..], [Action::Init]));
    assert!(!out.clear);
    assert_eq!(app.timestamp, 1);
    let out = handle_event(Event::Tick, &mut app);
    assert!(out.actions.is_empty());
    assert_eq!(app.timestamp, 2);
    let out = handle_event(Event::Redraw, &mut app);
    assert!(out.clear && out.actions.is_empty());
}

#[test]
fn events_open_and_close_the_popup() {
    let mut app = app();
    handle_app_event(MatuiEvent::LoginRequired, &mut app);
    assert!(matches!(app.popup(), Some(Popup::Signin(_))));
    handle_app_event(MatuiEvent::LoginStarted, &mut app);
    assert!(matches!(app.popup(), Some(Popup::Progress(p)) if p.line() == " Logging in "));
    handle_app_event(MatuiEvent::LoginComplete, &mut app);
    assert!(app.popup().is_none());
    handle_app_event(MatuiEvent::SyncStarted(SyncType::Initial), &mut app);
    assert!(matches!(app.popup(), Some(Popup::Progress(p)) if p.line() == " Performing initial sync. "));
    handle_app_event(MatuiEvent::SyncStarted(SyncType::Latest), &mut app);
    assert!(matches!(app.popup(), Some(Popup::Progress(p)) if p.line() == " Syncing "));
    handle_event(Event::Tick, &mut app);
    handle_event(Event::Tick, &mut app);
    assert!(matches!(app.popup(), Some(Popup::Progress(p)) if p.line() == "⠂ Syncing ⠂"));
    handle_app_event(MatuiEvent::ProgressStarted("Sending message.".to_string(), 500), &mut app);
    assert!(matches!(app.popup(), Some(Popup::Progress(p)) if !p.visible_after(499)));
    handle_app_event(MatuiEvent::ProgressComplete, &mut app);
    assert!(app.popup().is_none());
    handle_app_event(MatuiEvent::Error("broken".to_string()), &mut app);
    assert!(matches!(app.popup(), Some(Popup::Error(e)) if e.heading() == "Error" && e.message() == "broken"));
    handle_app_event(MatuiEvent::Confirm("Download Complete".to_string(), "Saved".to_string()), &mut app);
    assert!(matches!(app.popup(), Some(Popup::Error(e)) if e.heading() == "Download Complete"));
    let actions = handle_key_event(code(KeyCode::Enter), &mut app);
    assert!(actions.is_empty());
    assert!(app.popup().is_none());
}

#[test]
fn a_complete_sync_enters_the_first_room() {
    let mut app = app();
    let actions = handle_app_event(MatuiEvent::SyncComplete, &mut app);
    assert!(matches!(
        &actions[..],
        [Action::Sync, Action::Chat { room_id, command: Command::FetchMessages { cursor: None, limit: 32 } }]
            if room_id == "!b:h"
    ));
    assert_eq!(app.chat().unwrap().room(), "!b:h");
    let rooms = app.fetch_rooms();
    assert!(rooms[1].visited && !rooms[0].visited);
    let actions = handle_app_event(MatuiEvent::RoomSelected("!b:h".to_string()), &mut app);
    assert!(actions.is_empty());
    let actions = handle_app_event(MatuiEvent::RoomSelected("!nowhere:h".to_string()), &mut app);
    assert!(actions.is_empty());
    assert_eq!(app.chat().unwrap().room(), "!b:h");
}

#[test]
fn a_new_chat_catches_up_on_receipts() {
    let mut app = app();
    let receipt = |user: &str| {
        vec![ReadReceipt { event_id: "$1".to_string(), user_id: user.to_string(), timestamp: 5 }]
    };
    handle_app_event(MatuiEvent::Receipt("!a:h".to_string(), receipt("@x:h")), &mut app);
    handle_app_event(MatuiEvent::Receipt("!b:h".to_string(), receipt("@y:h")), &mut app);
    let actions = handle_app_event(MatuiEvent::RoomSelected("!a:h".to_string()), &mut app);
    assert!(matches!(
        &actions[..],
        [
            Action::Chat { command: Command::FetchMessages { .. }, .. },
            Action::Chat { room_id, command: Command::FetchMember { user_id } }
        ] if room_id == "!a:h" && user_id == "@x:h"
    ));
}

#[test]
fn a_timeline_event_reaches_chat_cache_and_notifications() {
    let mut app = in_room();
    let actions = handle_app_event(
        MatuiEvent::Timeline(message("!b:h", "$1", 1, "@x:h", "hello")),
        &mut app,
    );
    assert!(matches!(
        &actions[..],
        [
            Action::Chat { command: Command::ReadTo { event_id }, .. },
            Action::RefreshRoom { room_id },
            Action::Notify(notice)
        ] if event_id == "$1" && room_id == "!b:h" && notice.body == "hello" && notice.replaces.is_none()
    ));
    app.notification_shown("!b:h".to_string(), 9);
    app.room_refreshed(room("!b:h", "Beta", 4));
    assert!(!app.fetch_rooms()[1].visited);

    let actions = handle_focus_event(&mut app);
    assert!(matches!(&actions[..], [Action::CloseNotification { handle: 9 }]));
    assert!(app.fetch_rooms()[1].visited);
    let actions = handle_app_event(
        MatuiEvent::Timeline(message("!b:h", "$2", 2, "@x:h", "again")),
        &mut app,
    );
    assert!(!actions.iter().any(|a| matches!(a, Action::Notify(_))));
    handle_blur_event(&mut app);
    let actions = handle_app_event(
        MatuiEvent::Timeline(message("!b:h", "$3", 3, "@x:h", "more")),
        &mut app,
    );
    assert!(actions.iter().any(|a| matches!(a, Action::Notify(_))));
    let actions = handle_app_event(
        MatuiEvent::Timeline(message("!b:h", "$4", 4, "@me:h", "mine")),
        &mut app,
    );
    assert!(!actions.iter().any(|a| matches!(a, Action::Notify(_))));
}

#[test]
fn the_focus_sets_the_blur_timer() {
    let mut settings = default_settings();
    settings.blur_delay = 30;
    let mut app = App::new(settings);
    let actions = handle_focus_event(&mut app);
    let first = match &actions[..] {
        [Action::SetBlurTimer { timer, seconds: 30 }] => *timer,
        _ => panic!("no timer"),
    };
    let actions = handle_event(Event::Focus, &mut app).actions;
    let second = match &actions[..] {
        [Action::SetBlurTimer { timer, seconds: 30 }] => *timer,
        _ => panic!("no timer"),
    };
    assert!(!app.blur_timer_fired(first));
    assert!(app.blur_timer_fired(second));
    handle_event(Event::Blur, &mut app);
    assert!(!app.blur_timer_fired(second));
    let actions = handle_focus_event(&mut app);
    let third = match &actions[..] {
        [Action::SetBlurTimer { timer, seconds: 30 }] => *timer,
        _ => panic!("no timer"),
    };
    assert!(third != first && third != second);
    assert!(!app.blur_timer_fired(first));
    assert!(!app.blur_timer_fired(second));
    assert!(app.blur_timer_fired(third));
    handle_blur_event(&mut app);
    assert!(!app.blur_timer_fired(third));
}

#[test]
fn global_keys_open_popups_and_quit() {
    let mut app = in_room();
    handle_key_event(key(' '), &mut app);
    assert!(matches!(app.popup(), Some(Popup::Rooms(r)) if r.filtered_rooms().len() == 2
        && r.filtered_rooms()[0].room_id == "!a:h"));
    handle_key_event(code(KeyCode::Esc), &mut app);
    handle_key_event(key('?'), &mut app);
    assert!(matches!(app.popup(), Some(Popup::Help(_))));
    handle_key_event(key('x'), &mut app);
    assert!(app.popup().is_none());
    handle_key_event(key('/'), &mut app);
    assert!(matches!(app.popup(), Some(Popup::Search(_))));
    handle_key_event(code(KeyCode::Enter), &mut app);
    assert!(app.popup().is_none() && app.running);
    handle_key_event(key('q'), &mut app);
    assert!(!app.running);

    let mut app = in_room();
    handle_key_event(key('/'), &mut app);
    handle_key_event(key('q'), &mut app);
    assert!(app.running);
    handle_key_event(KeyEvent::new(KeyCode::Char('c'), Modifiers::Control), &mut app);
    assert!(!app.running);
}

#[test]
fn the_list_of_rooms_enters_a_room() {
    let mut app = in_room();
    handle_key_event(key(' '), &mut app);
    let actions = handle_key_event(code(KeyCode::Enter), &mut app);
    assert!(matches!(
        &actions[..],
        [Action::Chat { room_id, command: Command::FetchMessages { .. } }] if room_id == "!a:h"
    ));
    assert!(app.popup().is_none());
    assert_eq!(app.chat().unwrap().room(), "!a:h");
}

#[test]
fn the_search_popup_searches_the_chat() {
    let mut app = in_room();
    handle_app_event(
        MatuiEvent::TimelineBatch(Batch {
            room_id: "!b:h".to_string(),
            events: vec![
                message("!b:h", "$1", 1, "@x:h", "apple"),
                message("!b:h", "$2", 2, "@x:h", "banana"),
            ],
            cursor: None,
        }),
        &mut app,
    );
    handle_key_event(key('/'), &mut app);
    handle_key_event(key('B'), &mut app);
    assert_eq!(app.chat().unwrap().search(), "b");
    assert_eq!(app.chat().unwrap().messages().len(), 1);
    handle_key_event(code(KeyCode::Esc), &mut app);
    assert_eq!(app.chat().unwrap().search(), "");
    assert_eq!(app.chat().unwrap().messages().len(), 2);
    assert!(app.popup().is_none());
    handle_app_event(MatuiEvent::Search("apple".to_string()), &mut app);
    assert_eq!(app.chat().unwrap().messages().len(), 1);
}

#[test]
fn key_combo_delete_asks_and_deletes() {
    let mut app = in_room();
    handle_app_event(MatuiEvent::Timeline(message("!b:h", "$1", 1, "@x:h", "hello")), &mut app);
    handle_key_event(key('d'), &mut app);
    let actions = handle_key_event(key('d'), &mut app);
    assert!(actions.is_empty());
    assert!(matches!(
        app.popup(),
        Some(Popup::Confirm(c)) if c.title() == "Delete Message"
            && c.message() == "Are you sure you want to delete \"hello\""
            && c.yes().label() == "Yes" && c.no().label() == "No"
    ));
    let actions = handle_key_event(code(KeyCode::Enter), &mut app);
    assert!(matches!(
        &actions[..],
        [Action::RedactEvent { room_id, event_id }] if room_id == "!b:h" && event_id == "$1"
    ));
    assert!(app.popup().is_none());

    handle_key_event(key('d'), &mut app);
    handle_key_event(key('d'), &mut app);
    handle_key_event(code(KeyCode::Tab), &mut app);
    let actions = handle_key_event(code(KeyCode::Enter), &mut app);
    assert!(actions.is_empty());
    assert!(app.popup().is_none());
}

#[test]
fn a_verification_is_confirmed_or_refused() {
    let mut app = app();
    handle_app_event(MatuiEvent::VerificationStarted(vec!["🐶".to_string(), "🔑".to_string()]), &mut app);
    assert!(matches!(
        app.popup(),
        Some(Popup::Confirm(c)) if c.title() == "Verify"
            && c.message() == "Do these emojis match your other session?\n\n  🐶    🔑  "
    ));
    let actions = handle_key_event(code(KeyCode::Enter), &mut app);
    assert!(matches!(&actions[..], [Action::ConfirmVerification]));
    assert!(app.popup().is_none());
    handle_app_event(MatuiEvent::VerificationStarted(vec![]), &mut app);
    handle_key_event(code(KeyCode::Right), &mut app);
    let actions = handle_key_event(code(KeyCode::Enter), &mut app);
    assert!(matches!(&actions[..], [Action::MismatchedVerification]));
    handle_app_event(MatuiEvent::VerificationStarted(vec![]), &mut app);
    handle_app_event(MatuiEvent::VerificationCompleted, &mut app);
    assert!(app.popup().is_none());
}

#[test]
fn signing_in_and_recovering_ask_the_client() {
    let mut app = App::new(default_settings());
    handle_app_event(MatuiEvent::LoginRequired, &mut app);
    for c in "@u:h".chars() {
        handle_key_event(key(c), &mut app);
    }
    handle_key_event(code(KeyCode::Tab), &mut app);
    for c in "pw".chars() {
        handle_key_event(key(c), &mut app);
    }
    handle_key_event(code(KeyCode::Tab), &mut app);
    let actions = handle_key_event(code(KeyCode::Enter), &mut app);
    assert!(matches!(
        &actions[..],
        [Action::Login { id, password }] if id == "@u:h" && password == "pw"
    ));
    let actions = handle_app_event(MatuiEvent::Recover("key".to_string()), &mut app);
    assert!(matches!(&actions[..], [Action::Recover { key }] if key == "key"));
}

#[test]
fn muting_from_the_chat_is_noted() {
    let mut app = in_room();
    handle_app_event(MatuiEvent::Timeline(message("!b:h", "$1", 1, "@x:h", "hello")), &mut app);
    handle_blur_event(&mut app);
    let actions = handle_key_event(key('m'), &mut app);
    assert!(!actions.iter().any(|a| matches!(a, Action::Chat { command: Command::SetMuted { .. }, .. })));
    handle_blur_event(&mut app);
    let actions =
        handle_app_event(MatuiEvent::Timeline(message("!b:h", "$2", 2, "@x:h", "more")), &mut app);
    assert!(!actions.iter().any(|a| matches!(a, Action::Notify(_))));
}

#[test]
fn the_terminal_thread_waits_and_ticks() {
    assert_eq!(poll_timeout(250, 100), 150);
    assert_eq!(poll_timeout(250, 250), 0);
    assert_eq!(poll_timeout(250, 300), 250);
    assert!(tick_due(250, 250) && tick_due(250, 251) && !tick_due(250, 249));
    assert!(passes_after_park(251) && !passes_after_park(250));
}

#[test]
fn only_the_last_setting_of_a_timer_is_due() {
    let mut timer = DelayTimer::new(10);
    let (a, delay) = timer.record();
    assert_eq!(delay, 10);
    let (b, _) = timer.record();
    let (c, _) = timer.record();
    assert!(!timer.due(a) && !timer.due(b) && timer.due(c));
    let (d, _) = timer.record();
    assert!(!timer.due(c) && timer.due(d));
}

#[test]
fn dd_opens_the_question_only_without_a_pause() {
    let mut app = in_room();
    handle_app_event(MatuiEvent::Timeline(message("!b:h", "$1", 1, "@x:h", "hello")), &mut app);
    handle_key_event_with(key('d'), &mut app, false, "");
    let actions = handle_key_event_with(key('d'), &mut app, true, "");
    assert!(actions.is_empty());
    assert!(app.popup().is_none());
    let actions = handle_key_event_with(key('d'), &mut app, false, "");
    assert!(actions.is_empty());
    assert!(matches!(
        app.popup(),
        Some(Popup::Confirm(c)) if c.yes().has_focus() && !c.no().has_focus()
            && c.yes().label() == "Yes" && c.no().label() == "No"
    ));
    let out = handle_event_with(Event::Key(code(KeyCode::Enter)), &mut app, false, "");
    assert!(!out.clear);
    assert!(matches!(
        &out.actions[..],
        [Action::RedactEvent { room_id, event_id }] if room_id == "!b:h" && event_id == "$1"
    ));
    assert!(app.popup().is_none());

    app.key_with(key('d'), false, "");
    app.key_with(key('d'), false, "");
    app.key_with(code(KeyCode::Tab), false, "");
    assert!(app.key_with(code(KeyCode::Enter), false, "").is_empty());
    assert!(app.popup().is_none());
}
