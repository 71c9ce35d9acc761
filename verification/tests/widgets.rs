use matui::key::{KeyCode, KeyEvent, Modifiers};
use matui::roomcache::DecoratedRoom;
use matui::widgets::button::Button;
use matui::widgets::confirm::{Confirm, ConfirmBehavior};
use matui::widgets::error::Error;
use matui::widgets::help::Help;
use matui::widgets::progress::Progress;
use matui::widgets::recover::Recover;
use matui::widgets::rooms::Rooms;
use matui::widgets::search::Search;
use matui::widgets::signin::Signin;
use matui::widgets::textinput::TextInput;
use matui::widgets::{focus_next, focus_prev, get_margin, Effect, EventResult, Focusable};
use ratatui::buffer::Buffer;
use ratatui::layout::{Constraint, Layout, Rect};
use ratatui::style::{Color, Style};
use ratatui::widgets::{Block, Borders, Paragraph, Widget};

fn key(code: KeyCode) -> KeyEvent {
    KeyEvent::new(code, Modifiers::Plain)
}

fn type_text(input: &mut TextInput, text: &str) {
    for c in text.chars() {
        input.key_event(&key(KeyCode::Char(c)));
    }
}

fn render(input: &mut TextInput, area: Rect, buf: &mut Buffer) {
    let color = if input.has_focus() { Color::LightGreen } else { Color::DarkGray };
    Block::default()
        .title(input.title())
        .borders(Borders::ALL)
        .style(Style::default().fg(color))
        .render(area, buf);
    let area = Layout::default()
        .horizontal_margin(1)
        .vertical_margin(1)
        .constraints([Constraint::Percentage(100)].as_ref())
        .split(area)[0];
    input.adjust_window(area.width as usize);
    Paragraph::new(input.adjusted_value()).style(Style::default().fg(color)).render(area, buf);
}

fn get_line(buf: &Buffer, line: usize) -> String {
    let width = buf.area.width as usize;
    buf.content()[(line * width)..((line + 1) * width)]
        .iter()
        .map(|c| c.symbol().to_string())
        .collect()
}

#[test]
fn it_accepts_input() {
    let mut input = TextInput::new("Test".to_string(), true, false);

    type_text(&mut input, "Hello World");

    assert_eq!(input.value(), "Hello World");

    for _ in 0..6 {
        input.key_event(&key(KeyCode::Left));
    }

    for _ in 0..5 {
        input.key_event(&key(KeyCode::Backspace));
    }

    type_text(&mut input, "Goodbye");

    assert_eq!(input.value(), "Goodbye World");
}

#[test]
fn it_renders_correctly() {
    let area = Rect::new(0, 0, 10, 3);
    let mut buf = Buffer::empty(area);

    let mut input = TextInput::new("Test".to_string(), true, false);

    render(&mut input, area, &mut buf);

    assert_eq!(get_line(&buf, 1), "│█       │");

    type_text(&mut input, "Hello, world, this is me typing some things.");

    render(&mut input, area, &mut buf);
    assert_eq!(get_line(&buf, 1), "│things.█│");

    for _ in 0..3 {
        input.key_event(&key(KeyCode::Left));
    }

    let mut buf = Buffer::empty(area);
    render(&mut input, area, &mut buf);
    assert_eq!(get_line(&buf, 1), "│thin█s. │");

    input.key_event(&key(KeyCode::Backspace));

    render(&mut input, area, &mut buf);
    assert_eq!(get_line(&buf, 1), "│ thi█s. │");

    let area = Rect::new(0, 0, 20, 3);
    let mut buf = Buffer::empty(area);

    render(&mut input, area, &mut buf);
    assert_eq!(get_line(&buf, 1), "│yping some thi█s. │");
}

#[test]
fn a_text_field_shows_stars_for_a_password() {
    let mut input = TextInput::new("Password".to_string(), true, true);
    type_text(&mut input, "secret");
    assert_eq!(input.display_value(), "******█");
    assert_eq!(input.value(), "secret");
    input.key_event(&key(KeyCode::Left));
    assert_eq!(input.display_value(), "*****█");
    input.set_focus(false);
    assert_eq!(input.display_value(), "******");
}

#[test]
fn a_text_field_listens_only_with_the_focus() {
    let mut input = TextInput::new("T".to_string(), false, false);
    assert!(matches!(input.key_event(&key(KeyCode::Char('a'))), EventResult::Ignored));
    assert_eq!(input.value(), "");
    input.focus();
    assert!(input.focused());
    assert!(matches!(
        input.key_event(&KeyEvent::new(KeyCode::Char('a'), Modifiers::Control)),
        EventResult::Ignored
    ));
    assert!(matches!(
        input.key_event(&KeyEvent::new(KeyCode::Char('A'), Modifiers::Shift)),
        EventResult::Consumed(Effect::Nothing)
    ));
    assert!(matches!(input.key_event(&key(KeyCode::Enter)), EventResult::Ignored));
    input.key_event(&key(KeyCode::Backspace));
    input.key_event(&key(KeyCode::Backspace));
    input.key_event(&key(KeyCode::Right));
    assert_eq!(input.value(), "");
    input.defocus();
    assert!(!input.has_focus());
}

#[test]
fn a_text_field_takes_any_character() {
    let mut input = TextInput::new("T".to_string(), true, false);
    type_text(&mut input, "grüße");
    input.key_event(&key(KeyCode::Left));
    input.key_event(&key(KeyCode::Left));
    input.key_event(&key(KeyCode::Backspace));
    assert_eq!(input.value(), "grße");
    assert_eq!(input.display_value(), "gr█e");
}

#[test]
fn a_button_takes_enter_with_the_focus() {
    let mut button = Button::new("OK".to_string(), true);
    assert_eq!(button.label(), "OK");
    assert_eq!(button.widget().label_width(), 2);
    assert!(matches!(button.key_event(&key(KeyCode::Enter)), EventResult::Consumed(Effect::Nothing)));
    assert!(matches!(button.key_event(&key(KeyCode::Char('x'))), EventResult::Ignored));
    button.defocus();
    assert!(!button.focused());
    assert!(matches!(button.key_event(&key(KeyCode::Enter)), EventResult::Ignored));
    button.focus();
    assert!(button.has_focus());
}

#[test]
fn the_focus_moves_round() {
    let mut flags = vec![true, false, false];
    focus_next(&mut flags);
    assert_eq!(flags, vec![false, true, false]);
    focus_next(&mut flags);
    assert_eq!(flags, vec![false, false, true]);
    focus_next(&mut flags);
    assert_eq!(flags, vec![true, false, false]);
    focus_prev(&mut flags);
    assert_eq!(flags, vec![false, false, true]);
    focus_prev(&mut flags);
    assert_eq!(flags, vec![false, true, false]);
    let mut none = vec![false, false];
    focus_next(&mut none);
    assert_eq!(none, vec![true, false]);
    let mut none = vec![false, false];
    focus_prev(&mut none);
    assert_eq!(none, vec![false, true]);
    let mut empty: Vec<bool> = vec![];
    focus_next(&mut empty);
    assert!(empty.is_empty());
}

#[test]
fn margins_centre() {
    assert_eq!(get_margin(100, 60), 20);
    assert_eq!(get_margin(61, 60), 0);
    assert_eq!(get_margin(60, 60), 0);
    assert_eq!(get_margin(10, 60), 0);
    assert_eq!(get_margin(u16::MAX, 0), 32767);
}

#[test]
fn a_confirmation_answers() {
    let delete = || {
        Confirm::new(
            "Delete Message".to_string(),
            "Sure?".to_string(),
            "Yes".to_string(),
            "No".to_string(),
            ConfirmBehavior::DeleteMessage { room_id: "!r:h".to_string(), event_id: "$1".to_string() },
        )
    };
    let mut c = delete();
    assert_eq!((c.title(), c.message()), ("Delete Message", "Sure?"));
    assert!(c.yes().has_focus() && !c.no().has_focus());
    assert!(matches!(
        c.key_event(&key(KeyCode::Enter)),
        EventResult::Consumed(Effect::RedactEvent { room_id, event_id }) if room_id == "!r:h" && event_id == "$1"
    ));
    let mut c = delete();
    assert!(matches!(c.key_event(&key(KeyCode::Tab)), EventResult::Consumed(Effect::Nothing)));
    assert!(!c.yes().has_focus() && c.no().has_focus());
    assert!(matches!(c.key_event(&key(KeyCode::Enter)), EventResult::Consumed(Effect::ClosePopup)));
    assert!(matches!(c.key_event(&key(KeyCode::Char('l'))), EventResult::Consumed(Effect::Nothing)));
    assert!(c.yes().has_focus());
    assert!(matches!(c.key_event(&key(KeyCode::Esc)), EventResult::Consumed(Effect::ClosePopup)));
    assert!(matches!(c.key_event(&key(KeyCode::Char('x'))), EventResult::Ignored));

    let mut v = Confirm::new(
        "Verify".to_string(),
        "?".to_string(),
        "Yes".to_string(),
        "No".to_string(),
        ConfirmBehavior::Verification,
    );
    assert!(matches!(v.key_event(&key(KeyCode::Enter)), EventResult::Consumed(Effect::ConfirmVerification)));
    v.key_event(&key(KeyCode::Right));
    assert!(matches!(v.key_event(&key(KeyCode::Enter)), EventResult::Consumed(Effect::MismatchedVerification)));
}

#[test]
fn the_sign_in_logs_in_from_the_button() {
    let mut s = Signin::new();
    for c in "@u:h".chars() {
        assert!(matches!(s.input(&key(KeyCode::Char(c))), EventResult::Consumed(Effect::Nothing)));
    }
    assert!(matches!(s.input(&key(KeyCode::Tab)), EventResult::Consumed(Effect::Nothing)));
    assert_eq!(s.focus_order(), vec![false, true, false]);
    for c in "pw".chars() {
        s.input(&key(KeyCode::Char(c)));
    }
    assert_eq!(s.password().display_value(), "**█");
    assert!(matches!(s.input(&key(KeyCode::Enter)), EventResult::Consumed(Effect::Nothing)));
    assert_eq!(s.focus_order(), vec![false, false, true]);
    assert!(s.submit().has_focus());
    assert!(matches!(
        s.input(&key(KeyCode::Enter)),
        EventResult::Consumed(Effect::Login { id, password }) if id == "@u:h" && password == "pw"
    ));
    assert!(matches!(s.input(&key(KeyCode::Up)), EventResult::Consumed(Effect::Nothing)));
    assert_eq!(s.focus_order(), vec![false, true, false]);
    assert!(matches!(s.input(&key(KeyCode::Esc)), EventResult::Ignored));
    assert_eq!(s.id().value(), "@u:h");
}

#[test]
fn the_search_sends_each_term_in_lower_case() {
    let mut s = Search::new();
    assert!(matches!(s.key_event(&key(KeyCode::Char('A'))), EventResult::Consumed(Effect::Search { term }) if term == "a"));
    assert!(matches!(s.key_event(&key(KeyCode::Char('b'))), EventResult::Consumed(Effect::Search { term }) if term == "ab"));
    assert!(matches!(s.key_event(&key(KeyCode::Backspace)), EventResult::Consumed(Effect::Search { term }) if term == "a"));
    assert_eq!(s.input().value(), "A");
    assert!(matches!(s.key_event(&key(KeyCode::Enter)), EventResult::Consumed(Effect::ClosePopup)));
    assert!(matches!(s.key_event(&key(KeyCode::Esc)), EventResult::Consumed(Effect::SearchAndClose { term }) if term.is_empty()));
    assert!(matches!(s.key_event(&key(KeyCode::Tab)), EventResult::Ignored));
}

#[test]
fn the_recovery_hands_in_the_key() {
    let mut r = Recover::new();
    for c in "key 1".chars() {
        assert!(matches!(r.key_event(&key(KeyCode::Char(c))), EventResult::Consumed(Effect::Nothing)));
    }
    assert!(matches!(r.key_event(&key(KeyCode::Enter)), EventResult::Consumed(Effect::Recover { key }) if key == "key 1"));
    assert!(matches!(r.key_event(&key(KeyCode::Esc)), EventResult::Consumed(Effect::ClosePopup)));
    assert!(matches!(r.key_event(&key(KeyCode::Tab)), EventResult::Ignored));
    assert_eq!(r.input().title(), "Recovery Key/Passphrase");
}

#[test]
fn help_and_errors_close_on_any_key() {
    let mut help = Help;
    assert!(matches!(help.key_event(&key(KeyCode::Char('x'))), EventResult::Consumed(Effect::ClosePopup)));
    let rows = help.widget();
    assert_eq!(rows.len(), 15);
    assert_eq!((rows.key(0), rows.description(0)), ("Space", "Show the room switcher"));
    assert_eq!((rows.key(14), rows.description(14)), ("", "* arrow keys are fine too."));
    let mut error = Error::new("broken".to_string());
    assert_eq!((error.heading(), error.message(), error.button().label()), ("Error", "broken", "OK"));
    assert!(matches!(error.key_event(&key(KeyCode::Enter)), EventResult::Consumed(Effect::ClosePopup)));
    let done = Error::with_heading("Download Complete".to_string(), "Saved".to_string());
    assert_eq!(done.heading(), "Download Complete");
}

#[test]
fn progress_waits_and_moves() {
    let mut p = Progress::new("Syncing", 500);
    assert_eq!(p.line(), " Syncing ");
    assert!(!p.visible_after(499));
    assert!(p.visible_after(500));
    assert!(!p.visible());
    p.tick(0);
    assert_eq!(p.line(), "⠁ Syncing ⠁");
    p.tick(34);
    assert_eq!(p.line(), "⢁ Syncing ⢁");
    p.tick(35);
    assert_eq!(p.line(), "⠁ Syncing ⠁");
    p.tick(19);
    assert_eq!(p.line(), "⣿ Syncing ⣿");
    assert!(Progress::new("now", 0).visible());
}

fn room(id: &str, name: &str, unread: u64, ts: Option<u64>) -> DecoratedRoom {
    DecoratedRoom {
        room_id: id.to_string(),
        name: name.to_string(),
        visited: false,
        last_message: None,
        last_sender: None,
        last_ts: ts,
        notifications: unread,
        highlights: 0,
    }
}

fn shown(rooms: &Rooms) -> Vec<String> {
    rooms.filtered_rooms().iter().map(|r| r.name.clone()).collect()
}

#[test]
fn the_list_of_rooms_filters_and_selects() {
    let all = vec![
        room("!a:h", "Alpha", 0, Some(5)),
        room("!b:h", "Beta", 2, Some(1)),
        room("!c:h", "Gamma ALPHA", 0, Some(9)),
    ];
    let mut rooms = Rooms::new(all, Some("!b:h"));
    assert_eq!(shown(&rooms), vec!["Gamma ALPHA", "Alpha", "Beta"]);
    assert!(matches!(rooms.key_event(&key(KeyCode::Down)), EventResult::Consumed(Effect::Nothing)));
    assert_eq!(rooms.selected(), 1);
    rooms.key_event(&key(KeyCode::Down));
    rooms.key_event(&key(KeyCode::Down));
    assert_eq!(rooms.selected(), 0);
    rooms.key_event(&key(KeyCode::Up));
    assert_eq!(rooms.selected(), 2);
    for c in "alp".chars() {
        assert!(matches!(rooms.key_event(&key(KeyCode::Char(c))), EventResult::Consumed(Effect::Nothing)));
    }
    assert_eq!(rooms.selected(), 0);
    assert_eq!(shown(&rooms), vec!["Gamma ALPHA", "Alpha"]);
    rooms.key_event(&key(KeyCode::Down));
    assert!(matches!(
        rooms.key_event(&key(KeyCode::Enter)),
        EventResult::Consumed(Effect::SelectRoom { room_id }) if room_id == "!a:h"
    ));
    rooms.key_event(&key(KeyCode::Char('x')));
    assert!(shown(&rooms).is_empty());
    assert!(matches!(rooms.key_event(&key(KeyCode::Enter)), EventResult::Consumed(Effect::Nothing)));
    rooms.key_event(&key(KeyCode::Up));
    rooms.key_event(&key(KeyCode::Down));
    assert_eq!(rooms.selected(), 0);
    assert!(matches!(rooms.key_event(&key(KeyCode::Esc)), EventResult::Consumed(Effect::ClosePopup)));
    assert!(matches!(rooms.key_event(&key(KeyCode::Tab)), EventResult::Ignored));
}
