use matui::KeyCombo;
use std::time::{Duration, Instant};

#[test]
fn it_finds_patterns() {
    let mut combo = KeyCombo::new(vec!['a', 'b', 'c']);

    assert_eq!(combo.record('a'), false);
    assert_eq!(combo.record('b'), false);
    assert_eq!(combo.record('c'), true);
    assert_eq!(combo.record('d'), false);
    assert_eq!(combo.record('x'), false);
    assert_eq!(combo.record('a'), false);
    assert_eq!(combo.record('b'), false);
    assert_eq!(combo.record('c'), true);
}

#[test]
fn it_ignores_after_delay() {
    let mut combo = KeyCombo::new(vec!['a', 'b', 'c']);

    assert_eq!(combo.record('a'), false);
    assert_eq!(combo.record('b'), false);

    combo.last = Instant::now() - Duration::from_secs(5);

    assert_eq!(combo.record('c'), false);

    assert_eq!(combo.record('a'), false);
    assert_eq!(combo.record('b'), false);
    assert_eq!(combo.record('c'), true);
}

#[test]
fn it_ignores_after_wront_key() {
    let mut combo = KeyCombo::new(vec!['a', 'b', 'c']);

    assert_eq!(combo.record('a'), false);
    assert_eq!(combo.record('b'), false);
    assert_eq!(combo.record('x'), false);
    assert_eq!(combo.record('c'), false);
}

#[test]
fn a_pause_rejects_the_second_key() {
    let mut combo = KeyCombo::new(vec!['a', 'b']);
    assert_eq!(combo.advance('a', false), false);
    assert_eq!(combo.advance('b', true), false);
    assert_eq!(combo.advance('a', false), false);
    assert_eq!(combo.advance('b', false), true);
}

#[test]
fn a_pause_on_the_clock_rejects_the_second_key() {
    let mut combo = KeyCombo::new(vec!['d', 'd']);
    assert_eq!(combo.record('d'), false);
    combo.last = Instant::now() - Duration::from_millis(501);
    assert_eq!(combo.record('d'), false);
    assert_eq!(combo.record('d'), true);
}

#[test]
fn a_single_key_completes_at_once() {
    let mut combo = KeyCombo::new(vec!['x']);
    assert_eq!(combo.record('x'), true);
    assert_eq!(combo.advance('x', true), true);
    assert_eq!(combo.record('y'), false);
}

#[test]
fn reset_forgets_what_was_typed() {
    let mut combo = KeyCombo::new(vec!['a', 'b']);
    assert_eq!(combo.record('a'), false);
    combo.reset();
    assert_eq!(combo.record('b'), false);
    assert_eq!(combo.record('a'), false);
    assert_eq!(combo.record('b'), true);
}

#[test]
fn a_pause_is_too_long_beyond_half_a_second() {
    let mut k = KeyCombo::new(vec!['d', 'd']);
    assert!(!k.pause_exceeds(0));
    assert!(!k.pause_exceeds(500_000_000));
    assert!(k.pause_exceeds(500_000_001));
    assert!(k.pause_exceeds(u128::MAX));
    assert!(!k.advance('d', k.pause_exceeds(0)));
    assert!(k.advance('d', k.pause_exceeds(499_999_999)));
    assert!(!k.advance('d', false));
    assert!(!k.advance('d', k.pause_exceeds(500_000_001)));
}
