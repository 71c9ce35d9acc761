//! What is prepared for the programs that the application starts, and what
//! is made of their answers: names for files that are stored, the text that
//! goes to the editor and comes back from it, the links of a message.

use crate::text::{
    blank, chars_of, decimal, decimal_string, is_blank, push_char, string_of, trim, trimmed,
};
use crate::username::opt_text;
use crate::views::{group_views, views};
use vstd::prelude::*;

verus! {

broadcast use group_views;

/// What a group of the first match of a regular expression holds: `None`
/// where the pattern is no regular expression, `Some(None)` where the text
/// has no match or the group took no part in it. This is what
/// `regex::Regex::captures` finds.
pub uninterp spec fn first_capture(pattern: Seq<char>, text: Seq<char>, group: nat) -> Option<
    Option<Seq<char>>,
>;

/// The text with the first match of a regular expression replaced, `$2`
/// and the like in the replacement standing for the groups of the match:
/// what `regex::Regex::replace` returns. `None` where the pattern is no
/// regular expression.
pub uninterp spec fn first_replaced(pattern: Seq<char>, text: Seq<char>, replacement: Seq<char>) -> Option<
    Seq<char>,
>;

/// The view of what a group was found to hold.
pub open spec fn opt_opt_text(found: Option<Option<String>>) -> Option<Option<Seq<char>>> {
    match found {
        Some(g) => Some(opt_text(g)),
        None => None,
    }
}

/// `regex::Regex::new`, then `regex::Regex::captures` and
/// `regex::Captures::get`: the text of a group of the first match.
#[verifier::external_body]
fn capture(pattern: &str, text: &str, group: usize) -> (found: Option<Option<String>>)
    ensures
        opt_opt_text(found) == first_capture(pattern@, text@, group as nat),
{
    match regex::Regex::new(pattern) {
        Ok(re) => Some(
            match re.captures(text) {
                Some(c) => c.get(group).map(|m| String::from(m.as_str())),
                None => None,
            },
        ),
        Err(_) => None,
    }
}

/// `regex::Regex::new`, then `regex::Regex::replace`: the text with the
/// first match replaced.
#[verifier::external_body]
fn replace_first(pattern: &str, text: &str, replacement: &str) -> (out: Option<String>)
    ensures
        opt_text(out) == first_replaced(pattern@, text@, replacement@),
{
    match regex::Regex::new(pattern) {
        Ok(re) => Some(re.replace(text, replacement).into_owned()),
        Err(_) => None,
    }
}

/// The links that a text holds, in order: what `linkify::LinkFinder::links`
/// finds with the finder that `linkify::LinkFinder::new` makes.
pub uninterp spec fn links(text: Seq<char>) -> Seq<Seq<char>>;

/// `linkify::LinkFinder::new`, then `linkify::LinkFinder::links`.
#[verifier::external_body]
fn links_in(text: &str) -> (found: Vec<String>)
    ensures
        views(found@) == links(text@),
{
    linkify::LinkFinder::new().links(text).map(|link| String::from(link.as_str())).collect()
}

/// The links of a text, which are opened when the text is viewed.
pub fn view_text(text: &str) -> (found: Vec<String>)
    ensures
        views(found@) == links(text@),
{
    links_in(text)
}

/// The version in the name of a file: a hyphen and a number, before the
/// extension or at the end.
pub open spec fn version_pattern() -> Seq<char> {
    "-([0-9]+)(\\.|$)"@
}

/// The value of a decimal digit.
pub open spec fn digit_value(c: char) -> Option<nat> {
    if c == '0' {
        Some(0)
    } else if c == '1' {
        Some(1)
    } else if c == '2' {
        Some(2)
    } else if c == '3' {
        Some(3)
    } else if c == '4' {
        Some(4)
    } else if c == '5' {
        Some(5)
    } else if c == '6' {
        Some(6)
    } else if c == '7' {
        Some(7)
    } else if c == '8' {
        Some(8)
    } else if c == '9' {
        Some(9)
    } else {
        None
    }
}

/// The number that a text of decimal digits writes; `None` for the empty
/// text and for a text that holds anything else.
pub open spec fn number(digits: Seq<char>) -> Option<nat>
    decreases digits.len(),
{
    if digits.len() == 0 {
        None
    } else {
        match digit_value(digits.last()) {
            None => None,
            Some(d) => {
                if digits.len() == 1 {
                    Some(d)
                } else {
                    match number(digits.drop_last()) {
                        Some(n) => Some(n * 10 + d),
                        None => None,
                    }
                }
            },
        }
    }
}

/// What takes the place of a version: the next version, and whatever
/// followed the old one. There is none where the old version is no number
/// or too large to count on from.
pub open spec fn next_version(digits: Seq<char>) -> Option<Seq<char>> {
    match number(digits) {
        Some(n) => {
            if n < usize::MAX {
                Some("-"@ + decimal(n + 1) + "$2"@)
            } else {
                None
            }
        },
        None => None,
    }
}

/// The index of the last full stop among the first `n` characters; -1
/// where there is none.
pub open spec fn last_dot(s: Seq<char>, n: nat) -> int
    decreases n,
{
    if n == 0 || n > s.len() {
        -1
    } else if s[n - 1] == '.' {
        n - 1
    } else {
        last_dot(s, (n - 1) as nat)
    }
}

/// The name of a file with a first version: "-1" before the extension, or
/// at the end where the name has none.
pub open spec fn first_version(name: Seq<char>) -> Seq<char> {
    let dot = last_dot(name, name.len());
    if dot >= 0 {
        name.take(dot) + "-1"@ + name.skip(dot)
    } else {
        name + "-1"@
    }
}

/// The name that follows `name`: with the next version where it has one,
/// with a first version where it has none.
pub open spec fn next_name(name: Seq<char>) -> Seq<char> {
    match first_capture(version_pattern(), name, 1) {
        Some(Some(digits)) => match next_version(digits) {
            Some(replacement) => match first_replaced(version_pattern(), name, replacement) {
                Some(out) => out,
                None => first_version(name),
            },
            None => first_version(name),
        },
        _ => first_version(name),
    }
}

fn digit_of(c: char) -> (d: Option<usize>)
    ensures
        match d {
            Some(v) => digit_value(c) == Some(v as nat) && v < 10,
            None => digit_value(c) is None,
        },
{
    match c {
        '0' => Some(0),
        '1' => Some(1),
        '2' => Some(2),
        '3' => Some(3),
        '4' => Some(4),
        '5' => Some(5),
        '6' => Some(6),
        '7' => Some(7),
        '8' => Some(8),
        '9' => Some(9),
        _ => None,
    }
}

proof fn lemma_number_grows(digits: Seq<char>, n: int)
    requires
        1 <= n <= digits.len(),
        number(digits) is Some,
    ensures
        number(digits.take(n)) is Some,
        number(digits.take(n))->0 <= number(digits)->0,
    decreases digits.len() - n,
{
    if n < digits.len() {
        lemma_number_part(digits);
        lemma_number_grows(digits.drop_last(), n);
        assert(digits.drop_last().take(n) == digits.take(n));
    } else {
        assert(digits.take(n) == digits);
    }
}

proof fn lemma_number_part(digits: Seq<char>)
    requires
        digits.len() > 1,
        number(digits) is Some,
    ensures
        number(digits.drop_last()) is Some,
        number(digits)->0 == number(digits.drop_last())->0 * 10 + digit_value(digits.last())->0,
{
}

/// The replacement for a version: see `next_version`.
pub fn replacement_for(digits: &str) -> (replacement: Option<String>)
    ensures
        opt_text(replacement) == next_version(digits@),
{
    let v = chars_of(digits);
    if v.len() == 0 {
        return None;
    }
    let mut value: usize = 0;
    let mut i: usize = 0;
    while i < v.len()
        invariant
            i <= v.len(),
            v@ == digits@,
            v.len() > 0,
            i > 0 ==> number(v@.take(i as int)) == Some(value as nat),
            i == 0 ==> value == 0,
        decreases v.len() - i,
    {
        let ghost part = v@.take(i + 1);
        proof {
            assert(part.last() == v@[i as int]);
            assert(part.drop_last() == v@.take(i as int));
        }
        let d = match digit_of(v[i]) {
            Some(d) => d,
            None => {
                proof {
                    assert(number(part) is None);
                    if number(v@) is Some {
                        lemma_number_grows(v@, i + 1);
                    }
                }
                return None;
            },
        };
        if value > (usize::MAX - d) / 10 {
            proof {
                if number(v@) is Some {
                    lemma_number_grows(v@, i + 1);
                    assert(number(part)->0 == value * 10 + d);
                }
            }
            return None;
        }
        value = value * 10 + d;
        i += 1;
    }
    assert(v@.take(v.len() as int) == v@);
    if value == usize::MAX {
        return None;
    }
    let mut out = String::from_str("-");
    let next = decimal_string(value + 1);
    out.append(next.as_str());
    out.append("$2");
    Some(out)
}

/// The name of a file with a first version: see `first_version`.
pub fn with_first_version(name: &str) -> (out: String)
    ensures
        out@ == first_version(name@),
{
    let v = chars_of(name);
    let mut i: usize = v.len();
    while i > 0 && v[i - 1] != '.'
        invariant
            i <= v.len(),
            last_dot(v@, i as nat) == last_dot(v@, v@.len()),
        decreases i,
    {
        i -= 1;
    }
    if i > 0 {
        let mut out = string_of(&v, 0, i - 1);
        out.append("-1");
        let rest = string_of(&v, i - 1, v.len());
        out.append(rest.as_str());
        assert(v@.subrange(0, i - 1) == v@.take(i - 1));
        assert(v@.subrange(i - 1, v.len() as int) == v@.skip(i - 1));
        out
    } else {
        let mut out = String::from_str(name);
        out.append("-1");
        out
    }
}

/// The name that follows `name` when `name` is taken: see `next_name`.
pub fn next_file_name(name: &str) -> (out: String)
    ensures
        out@ == next_name(name@),
{
    let pattern = "-([0-9]+)(\\.|$)";
    if let Some(Some(digits)) = capture(pattern, name, 1) {
        if let Some(replacement) = replacement_for(digits.as_str()) {
            if let Some(out) = replace_first(pattern, name, replacement.as_str()) {
                return out;
            }
        }
    }
    with_first_version(name)
}

/// What the search for a name that no file has yet does with a name:
/// nothing where the name is free, which ends the search, and otherwise
/// the name that is tried next.
pub open spec fn unique_step(name: Seq<char>, taken: bool) -> Option<Seq<char>> {
    if taken {
        Some(next_name(name))
    } else {
        None
    }
}

/// One step of the search for a name under which a file can be stored.
/// `taken` says whether a file has the name `name` already; the caller
/// looks that up, and comes back with the name returned until none is.
pub fn make_unique(name: &str, taken: bool) -> (next: Option<String>)
    ensures
        opt_text(next) == unique_step(name@, taken),
{
    if taken {
        Some(next_file_name(name))
    } else {
        None
    }
}

/// A text without the parts that are `pattern`, taken from left to right.
pub open spec fn without(text: Seq<char>, pattern: Seq<char>) -> Seq<char>
    decreases text.len(),
{
    if pattern.len() == 0 || text.len() < pattern.len() {
        text
    } else if text.take(pattern.len() as int) == pattern {
        without(text.skip(pattern.len() as int), pattern)
    } else {
        seq![text[0]] + without(text.drop_first(), pattern)
    }
}

/// What is written into the file that the editor opens: the text to
/// start from, and the note below it. Nothing is written where that comes
/// to white space alone.
pub open spec fn editor_input(existing: Option<Seq<char>>, note: Option<Seq<char>>) -> Option<Seq<char>> {
    let start = match existing {
        Some(t) => t,
        None => Seq::empty(),
    };
    let all = match note {
        Some(n) => start + "\n\n"@ + n + "\n"@,
        None => start,
    };
    if blank(all) {
        None
    } else {
        Some(all)
    }
}

/// What the user wrote: the content of the file without the note and
/// without white space around it. Nothing, if nothing is left.
pub open spec fn editor_output(contents: Seq<char>, note: Option<Seq<char>>) -> Option<Seq<char>> {
    let text = match note {
        Some(n) => without(contents, n),
        None => contents,
    };
    if blank(text) {
        None
    } else {
        Some(trimmed(text))
    }
}

fn starts_at(v: &Vec<char>, i: usize, p: &Vec<char>) -> (found: bool)
    requires
        i + p.len() <= v.len(),
    ensures
        found == (v@.skip(i as int).take(p.len() as int) == p@),
{
    let mut k: usize = 0;
    while k < p.len()
        invariant
            k <= p.len(),
            i + p.len() <= v.len(),
            forall|j: int| 0 <= j < k ==> v@[i + j] == p@[j],
        decreases p.len() - k,
    {
        if v[i + k] != p[k] {
            assert(v@.skip(i as int).take(p.len() as int)[k as int] != p@[k as int]);
            return false;
        }
        k += 1;
    }
    assert(v@.skip(i as int).take(p.len() as int) =~= p@);
    true
}

/// Takes every `pattern` out of `text`: see `without`.
pub fn remove_all(text: &str, pattern: &str) -> (out: String)
    ensures
        out@ == without(text@, pattern@),
{
    let v = chars_of(text);
    let p = chars_of(pattern);
    if p.len() == 0 {
        return String::from_str(text);
    }
    let mut out = String::new();
    let mut i: usize = 0;
    assert(v@.skip(0) == v@);
    while i < v.len()
        invariant
            i <= v.len(),
            p.len() > 0,
            v@ == text@,
            p@ == pattern@,
            out@ + without(v@.skip(i as int), p@) == without(v@, p@),
        decreases v.len() - i,
    {
        let ghost rest = v@.skip(i as int);
        if v.len() - i >= p.len() && starts_at(&v, i, &p) {
            assert(rest.skip(p.len() as int) == v@.skip(i + p.len()));
            i += p.len();
        } else {
            assert(rest.drop_first() == v@.skip(i + 1));
            assert(rest.len() >= p.len() ==> rest.take(p.len() as int) != p@);
            assert(without(rest, p@) == if rest.len() < p.len() {
                rest
            } else {
                seq![rest[0]] + without(rest.drop_first(), p@)
            });
            if v.len() - i < p.len() {
                let tail = string_of(&v, i, v.len());
                out.append(tail.as_str());
                assert(v@.subrange(i as int, v.len() as int) == rest);
                assert(v@.skip(v.len() as int) == Seq::<char>::empty());
                proof {
                    assert(without(Seq::<char>::empty(), p@) == Seq::<char>::empty());
                }
                i = v.len();
            } else {
                push_char(&mut out, v[i]);
                i += 1;
            }
        }
    }
    assert(v@.skip(v.len() as int) == Seq::<char>::empty());
    out
}

/// What is written for the editor: see `editor_input`.
pub fn text_for_editor(existing: Option<&str>, note: Option<&str>) -> (text: Option<String>)
    ensures
        opt_text(text) == editor_input(
            match existing {
                Some(t) => Some(t@),
                None => None,
            },
            match note {
                Some(n) => Some(n@),
                None => None,
            },
        ),
{
    let mut all = match existing {
        Some(t) => String::from_str(t),
        None => String::new(),
    };
    if let Some(n) = note {
        all.append("\n\n");
        all.append(n);
        all.append("\n");
    }
    if is_blank(all.as_str()) {
        None
    } else {
        Some(all)
    }
}

/// What the user wrote in the editor: see `editor_output`.
pub fn text_from_editor(contents: &str, note: Option<&str>) -> (text: Option<String>)
    ensures
        opt_text(text) == editor_output(
            contents@,
            match note {
                Some(n) => Some(n@),
                None => None,
            },
        ),
{
    let cleaned = match note {
        Some(n) => remove_all(contents, n),
        None => String::from_str(contents),
    };
    if is_blank(cleaned.as_str()) {
        None
    } else {
        Some(trim(cleaned.as_str()))
    }
}

/// Whether `s` ends with `suffix`.
pub open spec fn ends_with(s: Seq<char>, suffix: Seq<char>) -> bool {
    s.len() >= suffix.len() && s.skip(s.len() - suffix.len()) == suffix
}

/// Whether the editor is vi or vim.
pub open spec fn is_vi(editor: Seq<char>) -> bool {
    ends_with(editor, "vim"@) || ends_with(editor, "vi"@)
}

/// The arguments with which the editor is started, before the name of the
/// file: vi and vim are told to wrap and to check the spelling and, for a
/// new text, to start in insert mode and to save and leave on Enter.
pub open spec fn editor_arguments(editor: Seq<char>, clean: bool, fresh: bool) -> Seq<Seq<char>> {
    if !is_vi(editor) {
        Seq::empty()
    } else {
        (if clean {
            seq!["--clean"@]
        } else {
            Seq::empty()
        }) + (if fresh {
            seq!["+star"@, "-c"@, "imap <S-CR> <esc>o"@, "-c"@, "imap <C-M> <esc>:wq<enter>"@]
        } else {
            Seq::empty()
        }) + seq!["-c"@, "set wrap linebreak nolist spell"@]
    }
}

fn has_suffix(v: &Vec<char>, suffix: &str) -> (b: bool)
    ensures
        b == ends_with(v@, suffix@),
{
    let s = chars_of(suffix);
    if v.len() < s.len() {
        return false;
    }
    let found = starts_at(v, v.len() - s.len(), &s);
    assert(v@.skip(v.len() - s.len()).take(s.len() as int) == v@.skip(v.len() - s.len()));
    found
}

/// The arguments for the editor: see `editor_arguments`.
pub fn editor_args(editor: &str, clean: bool, fresh: bool) -> (args: Vec<String>)
    ensures
        views(args@) == editor_arguments(editor@, clean, fresh),
{
    let v = chars_of(editor);
    let mut args: Vec<String> = Vec::new();
    if !(has_suffix(&v, "vim") || has_suffix(&v, "vi")) {
        return args;
    }
    if clean {
        args.push(String::from_str("--clean"));
    }
    if fresh {
        args.push(String::from_str("+star"));
        args.push(String::from_str("-c"));
        args.push(String::from_str("imap <S-CR> <esc>o"));
        args.push(String::from_str("-c"));
        args.push(String::from_str("imap <C-M> <esc>:wq<enter>"));
    }
    args.push(String::from_str("-c"));
    args.push(String::from_str("set wrap linebreak nolist spell"));
    assert(views(args@) =~= editor_arguments(editor@, clean, fresh));
    args
}

} // verus!
