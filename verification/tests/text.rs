use matui::text::{
    chars_of, contains_string, contains_text, decimal_string, first_word_of, is_blank,
    is_whitespace, same_text, string_of, trim,
};
use matui::{limit_list, pretty_list, truncate};

fn names(list: &[&str]) -> Vec<String> {
    list.iter().map(|s| s.to_string()).collect()
}

#[test]
fn limit_list_keeps_a_short_list() {
    assert_eq!(limit_list(names(&["a", "b"]), 5, 2, None), names(&["a", "b"]));
}

#[test]
fn limit_list_counts_one_other() {
    assert_eq!(limit_list(names(&["a", "b", "c"]), 2, 3, None), names(&["a", "b", "1 other"]));
}

#[test]
fn limit_list_counts_the_others() {
    assert_eq!(
        limit_list(names(&["a", "b", "c", "d"]), 1, 12, None),
        names(&["a", "11 others"])
    );
}

#[test]
fn limit_list_puts_the_prefix_first() {
    assert_eq!(
        limit_list(names(&["a"]), 5, 4, Some("at least")),
        names(&["a", "at least 3 others"])
    );
    assert_eq!(limit_list(names(&[]), 5, 1, Some("at least")), names(&["at least 1 other"]));
}

#[test]
fn pretty_list_writes_prose() {
    assert_eq!(pretty_list(names(&[])), "");
    assert_eq!(pretty_list(names(&["a"])), "a");
    assert_eq!(pretty_list(names(&["a", "b"])), "a and b");
    assert_eq!(pretty_list(names(&["a", "b", "c"])), "a, b and c");
    assert_eq!(pretty_list(names(&["a", "b", "c", "d"])), "a, b, c and d");
}

#[test]
fn truncate_cuts_with_an_ellipsis() {
    assert_eq!(truncate("hello".to_string(), 5), "hello");
    assert_eq!(truncate("hello world".to_string(), 5), "hell…");
    assert_eq!(truncate("hello".to_string(), 0), "…");
    assert_eq!(truncate("".to_string(), 0), "");
    assert_eq!(truncate("héllo wörld".to_string(), 4), "hél…");
}

#[test]
fn decimal_string_writes_numbers() {
    assert_eq!(decimal_string(0), "0");
    assert_eq!(decimal_string(7), "7");
    assert_eq!(decimal_string(10), "10");
    assert_eq!(decimal_string(376), "376");
    assert_eq!(decimal_string(usize::MAX), usize::MAX.to_string());
}

#[test]
fn chars_and_strings_convert() {
    let v = chars_of("grüße");
    assert_eq!(v, vec!['g', 'r', 'ü', 'ß', 'e']);
    assert_eq!(string_of(&v, 1, 4), "rüß");
    assert_eq!(string_of(&v, 2, 2), "");
}

#[test]
fn trim_takes_white_space_off() {
    assert_eq!(trim("  a b \n"), "a b");
    assert_eq!(trim("\u{2003}x\u{a0}"), "x");
    assert_eq!(trim("   "), "");
    assert_eq!(trim(""), "");
    assert!(is_blank(" \t\n"));
    assert!(is_blank(""));
    assert!(!is_blank(" x "));
}

#[test]
fn first_word_is_found() {
    assert_eq!(first_word_of("  Alice Smith"), "Alice");
    assert_eq!(first_word_of("Bob"), "Bob");
    assert_eq!(first_word_of("   "), "");
}

#[test]
fn texts_are_compared_and_searched() {
    assert!(same_text("abc", "abc"));
    assert!(!same_text("abc", "abd"));
    assert!(contains_text("hello world", "o w"));
    assert!(contains_text("hello", ""));
    assert!(contains_text("hello", "hello"));
    assert!(!contains_text("hello", "world"));
    assert!(!contains_text("he", "hello"));
    assert!(contains_string(&names(&["a", "b"]), "b"));
    assert!(!contains_string(&names(&["a", "b"]), "c"));
}

#[test]
fn white_space_is_what_unicode_says() {
    let mut text = String::new();
    for code in 0..=0x10ffff_u32 {
        if let Some(c) = char::from_u32(code) {
            assert_eq!(is_whitespace(c), c.is_whitespace(), "U+{:04X}", code);
            text.clear();
            text.push(c);
            assert_eq!(is_blank(&text), c.is_whitespace(), "U+{:04X}", code);
        }
    }
    assert!(is_whitespace('\u{85}') && is_whitespace('\u{3000}') && !is_whitespace('\u{200b}'));
    assert_eq!(trim("\u{a0}\u{2003}a\u{200b}\u{3000}"), "a\u{200b}");
}
