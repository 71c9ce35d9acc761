use matui::spawn::{
    editor_args, make_unique, next_file_name, remove_all, replacement_for, text_for_editor,
    text_from_editor, view_text, with_first_version,
};

#[test]
fn test_next_file_first() {
    assert_eq!(next_file_name("image.jpg"), "image-1.jpg");
}

#[test]
fn test_next_file_second() {
    assert_eq!(next_file_name("image-1.jpg"), "image-2.jpg");
}

#[test]
fn test_next_file_too_many() {
    assert_eq!(next_file_name("image-375.jpg"), "image-376.jpg");
}

#[test]
fn test_next_no_ext() {
    assert_eq!(next_file_name("image"), "image-1");
    assert_eq!(next_file_name("image-42"), "image-43");
}

#[test]
fn next_file_name_counts_past_nine() {
    assert_eq!(next_file_name("a-9.tar.gz"), "a-10.tar.gz");
    assert_eq!(next_file_name("a-b.txt"), "a-b-1.txt");
    assert_eq!(next_file_name("a-99999999999999999999999999.txt"), "a-99999999999999999999999999-1.txt");
}

#[test]
fn replacement_counts_on() {
    assert_eq!(replacement_for("1"), Some("-2$2".to_string()));
    assert_eq!(replacement_for("099"), Some("-100$2".to_string()));
    assert_eq!(replacement_for(""), None);
    assert_eq!(replacement_for("1x"), None);
    assert_eq!(replacement_for(&usize::MAX.to_string()), None);
    assert_eq!(replacement_for("340282366920938463463374607431768211456"), None);
}

#[test]
fn first_version_goes_before_the_extension() {
    assert_eq!(with_first_version("a.b.c"), "a.b-1.c");
    assert_eq!(with_first_version("abc"), "abc-1");
    assert_eq!(with_first_version(".profile"), "-1.profile");
    assert_eq!(with_first_version(""), "-1");
}

#[test]
fn remove_all_takes_every_part_out() {
    assert_eq!(remove_all("a<!-- x -->b<!-- x -->", "<!-- x -->"), "ab");
    assert_eq!(remove_all("aaa", "aa"), "a");
    assert_eq!(remove_all("abc", ""), "abc");
    assert_eq!(remove_all("abc", "abcd"), "abc");
    assert_eq!(remove_all("", "x"), "");
}

#[test]
fn the_editor_gets_text_and_note() {
    assert_eq!(text_for_editor(Some("hello"), Some("<!-- n -->")), Some("hello\n\n<!-- n -->\n".to_string()));
    assert_eq!(text_for_editor(None, Some("<!-- n -->")), Some("\n\n<!-- n -->\n".to_string()));
    assert_eq!(text_for_editor(Some("hello"), None), Some("hello".to_string()));
    assert_eq!(text_for_editor(None, None), None);
    assert_eq!(text_for_editor(Some("  "), None), None);
}

#[test]
fn the_editor_gives_the_text_back() {
    assert_eq!(text_from_editor("hi there\n\n<!-- n -->\n", Some("<!-- n -->")), Some("hi there".to_string()));
    assert_eq!(text_from_editor("\n\n<!-- n -->\n", Some("<!-- n -->")), None);
    assert_eq!(text_from_editor("  plain  ", None), Some("plain".to_string()));
    assert_eq!(text_from_editor("", None), None);
}

#[test]
fn vim_gets_its_arguments() {
    let none: Vec<String> = vec![];
    assert_eq!(editor_args("/usr/bin/nano", true, true), none);
    assert_eq!(editor_args("/usr/bin/vi", false, false), vec!["-c", "set wrap linebreak nolist spell"]);
    assert_eq!(
        editor_args("nvim", true, true),
        vec![
            "--clean",
            "+star",
            "-c",
            "imap <S-CR> <esc>o",
            "-c",
            "imap <C-M> <esc>:wq<enter>",
            "-c",
            "set wrap linebreak nolist spell"
        ]
    );
}

#[test]
fn links_are_found() {
    assert_eq!(
        view_text("see https://example.com/a and http://example.org."),
        vec!["https://example.com/a", "http://example.org"]
    );
    let none: Vec<String> = vec![];
    assert_eq!(view_text("no links here"), none);
}

#[test]
fn a_name_is_made_unique_step_by_step() {
    assert_eq!(make_unique("image.jpg", false), None);
    assert_eq!(make_unique("image.jpg", true), Some("image-1.jpg".to_string()));
    assert_eq!(make_unique("image-1.jpg", true), Some("image-2.jpg".to_string()));
    let taken = ["notes", "notes-1", "notes-2"];
    let mut name = "notes".to_string();
    while let Some(next) = make_unique(&name, taken.contains(&name.as_str())) {
        name = next;
    }
    assert_eq!(name, "notes-3");
}
