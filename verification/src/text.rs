//! Text helpers shared by the whole crate. Strings are modelled by their
//! sequence of characters.

use crate::views::{group_views, views};
use vstd::prelude::*;

verus! {

broadcast use group_views;

/// `String::push` of the standard library: appends one character.
#[verifier::external_body]
pub(crate) fn push_char(s: &mut String, c: char)
    ensures
        final(s)@ == old(s)@.push(c),
{
    s.push(c);
}

/// The characters of a string, in order.
pub fn chars_of(s: &str) -> (v: Vec<char>)
    ensures
        v@ == s@,
{
    let mut v: Vec<char> = Vec::new();
    for c in it: s.chars()
        invariant
            it.seq() == s@,
            v@ == it.seq().take(it.index() as int),
    {
        v.push(c);
    }
    v
}

/// The string made of the characters `v[from..to]`.
pub fn string_of(v: &Vec<char>, from: usize, to: usize) -> (s: String)
    requires
        from <= to <= v.len(),
    ensures
        s@ == v@.subrange(from as int, to as int),
{
    let mut s = String::new();
    let mut i: usize = from;
    while i < to
        invariant
            from <= i <= to <= v.len(),
            s@ == v@.subrange(from as int, i as int),
        decreases to - i,
    {
        push_char(&mut s, v[i]);
        i += 1;
    }
    s
}

/// The decimal digit for a value below ten.
pub open spec fn digit(d: nat) -> char {
    if d == 0 {
        '0'
    } else if d == 1 {
        '1'
    } else if d == 2 {
        '2'
    } else if d == 3 {
        '3'
    } else if d == 4 {
        '4'
    } else if d == 5 {
        '5'
    } else if d == 6 {
        '6'
    } else if d == 7 {
        '7'
    } else if d == 8 {
        '8'
    } else {
        '9'
    }
}

/// The decimal numeral of `n`, without leading zeros.
pub open spec fn decimal(n: nat) -> Seq<char>
    decreases n,
{
    if n < 10 {
        seq![digit(n)]
    } else {
        decimal(n / 10).push(digit(n % 10))
    }
}

fn digit_char(d: usize) -> (c: char)
    requires
        d < 10,
    ensures
        c == digit(d as nat),
{
    match d {
        0 => '0',
        1 => '1',
        2 => '2',
        3 => '3',
        4 => '4',
        5 => '5',
        6 => '6',
        7 => '7',
        8 => '8',
        _ => '9',
    }
}

/// Writes `n` in decimal.
pub fn decimal_string(n: usize) -> (s: String)
    ensures
        s@ == decimal(n as nat),
    decreases n,
{
    if n < 10 {
        let mut s = String::new();
        push_char(&mut s, digit_char(n));
        s
    } else {
        let mut s = decimal_string(n / 10);
        push_char(&mut s, digit_char(n % 10));
        s
    }
}

/// `prefix` followed by one space, or nothing.
pub open spec fn spaced(prefix: Option<Seq<char>>) -> Seq<char> {
    match prefix {
        Some(p) => p + " "@,
        None => Seq::empty(),
    }
}

/// The closing entry of a shortened list that leaves `rest` names out.
pub open spec fn others(prefix: Option<Seq<char>>, rest: nat) -> Seq<char> {
    if rest == 1 {
        spaced(prefix) + "1 other"@
    } else {
        spaced(prefix) + decimal(rest) + " others"@
    }
}

/// What `limit_list` returns: the first `limit` names, and, where that is
/// fewer than `total`, an entry that counts the rest.
pub open spec fn limited(
    names: Seq<Seq<char>>,
    limit: nat,
    total: nat,
    prefix: Option<Seq<char>>,
) -> Seq<Seq<char>> {
    let kept = if names.len() <= limit {
        names
    } else {
        names.take(limit as int)
    };
    if kept.len() >= total {
        kept
    } else {
        kept.push(others(prefix, (total - kept.len()) as nat))
    }
}

/// Keeps at most `limit` of `names` and, if `total` is larger than what was
/// kept, adds "N others" ("1 other" for one), after `prefix` if there is one.
pub fn limit_list(names: Vec<String>, limit: usize, total: usize, prefix: Option<&str>) -> (out:
    Vec<String>)
    ensures
        views(out@) == limited(
            views(names@),
            limit as nat,
            total as nat,
            match prefix {
                Some(p) => Some(p@),
                None => None,
            },
        ),
{
    let mut out = names;
    if out.len() > limit {
        out.truncate(limit);
    }
    let ghost kept = views(out@);
    assert(kept == if names.len() <= limit {
        views(names@)
    } else {
        views(names@).take(limit as int)
    });
    if out.len() >= total {
        return out;
    }
    let mut entry = String::new();
    if let Some(p) = prefix {
        entry.append(p);
        entry.append(" ");
    }
    let rest: usize = total - out.len();
    if rest == 1 {
        entry.append("1 other");
    } else {
        let count = decimal_string(rest);
        entry.append(count.as_str());
        entry.append(" others");
    }
    out.push(entry);
    assert(views(out@) == kept.push(entry@));
    out
}

/// `names` joined by ", ".
pub open spec fn comma_joined(names: Seq<Seq<char>>) -> Seq<char>
    decreases names.len(),
{
    if names.len() == 0 {
        Seq::empty()
    } else if names.len() == 1 {
        names[0]
    } else {
        comma_joined(names.drop_last()) + ", "@ + names.last()
    }
}

/// What `pretty_list` returns.
pub open spec fn pretty(names: Seq<Seq<char>>) -> Seq<char> {
    if names.len() == 0 {
        Seq::empty()
    } else if names.len() == 1 {
        names[0]
    } else {
        comma_joined(names.drop_last()) + " and "@ + names.last()
    }
}

/// Writes a list of names as prose: "a", "a and b", "a, b and c".
pub fn pretty_list(names: Vec<String>) -> (out: String)
    ensures
        out@ == pretty(views(names@)),
{
    let n: usize = names.len();
    if n == 0 {
        return String::new();
    }
    if n == 1 {
        return names[0].clone();
    }
    let ghost all = views(names@);
    let mut out = names[0].clone();
    let mut i: usize = 1;
    assert(all.take(1) == seq![all[0]]);
    while i < n - 1
        invariant
            1 <= i <= n - 1,
            n == names.len(),
            all == views(names@),
            out@ == comma_joined(all.take(i as int)),
        decreases n - i,
    {
        out.append(", ");
        out.append(names[i].as_str());
        assert(all.take(i + 1).drop_last() == all.take(i as int));
        i += 1;
    }
    assert(all.take(n - 1) == all.drop_last());
    out.append(" and ");
    out.append(names[n - 1].as_str());
    out
}

/// What `truncate` returns for a text of more than `max_chars` characters:
/// one character short of the limit, then an ellipsis.
pub open spec fn shortened(s: Seq<char>, max_chars: nat) -> Seq<char> {
    if s.len() <= max_chars {
        s
    } else if max_chars == 0 {
        seq!['…']
    } else {
        s.take(max_chars - 1).push('…')
    }
}

/// Cuts `s` down to `max_chars` characters, the last of them an ellipsis.
/// A text that fits is returned as it is.
pub fn truncate(s: String, max_chars: usize) -> (out: String)
    ensures
        out@ == shortened(s@, max_chars as nat),
{
    let chars = chars_of(s.as_str());
    if chars.len() <= max_chars {
        return s;
    }
    let keep: usize = if max_chars == 0 {
        0
    } else {
        max_chars - 1
    };
    let mut out = string_of(&chars, 0, keep);
    push_char(&mut out, '…');
    assert(chars@.subrange(0, keep as int) == s@.take(keep as int));
    out
}

/// Whether a character has the Unicode property White_Space: the control
/// characters from the tabulator to the carriage return, the space, the
/// next line, the no-break space, and the spaces and line separators of
/// the general punctuation and beyond.
pub open spec fn white_space(c: char) -> bool {
    ||| ('\u{9}' <= c && c <= '\u{d}')
    ||| c == ' '
    ||| c == '\u{85}'
    ||| c == '\u{a0}'
    ||| c == '\u{1680}'
    ||| ('\u{2000}' <= c && c <= '\u{200a}')
    ||| c == '\u{2028}'
    ||| c == '\u{2029}'
    ||| c == '\u{202f}'
    ||| c == '\u{205f}'
    ||| c == '\u{3000}'
}

/// Whether a character is white space: see `white_space`.
pub fn is_whitespace(c: char) -> (b: bool)
    ensures
        b == white_space(c),
{
    ('\u{9}' <= c && c <= '\u{d}') || c == ' ' || c == '\u{85}' || c == '\u{a0}' || c == '\u{1680}'
        || ('\u{2000}' <= c && c <= '\u{200a}') || c == '\u{2028}' || c == '\u{2029}' || c
        == '\u{202f}' || c == '\u{205f}' || c == '\u{3000}'
}

/// The first index from `from` on that holds no white space, or the length.
pub open spec fn space_end(s: Seq<char>, from: int) -> int
    decreases s.len() - from,
{
    if 0 <= from < s.len() && white_space(s[from]) {
        space_end(s, from + 1)
    } else {
        from
    }
}

/// The first index from `from` on that holds white space, or the length.
pub open spec fn word_end(s: Seq<char>, from: int) -> int
    decreases s.len() - from,
{
    if 0 <= from < s.len() && !white_space(s[from]) {
        word_end(s, from + 1)
    } else {
        from
    }
}

/// The start of the white space that ends at `to`.
pub open spec fn space_start(s: Seq<char>, to: int) -> int
    decreases to,
{
    if 0 < to <= s.len() && white_space(s[to - 1]) {
        space_start(s, to - 1)
    } else {
        to
    }
}

/// The first word of a text: what stands between the leading white space
/// and the next white space. Empty where the text holds no word.
pub open spec fn first_word(s: Seq<char>) -> Seq<char> {
    let start = space_end(s, 0);
    s.subrange(start, word_end(s, start))
}

/// A text without its leading and trailing white space.
pub open spec fn trimmed(s: Seq<char>) -> Seq<char> {
    let start = space_end(s, 0);
    let end = space_start(s, s.len() as int);
    if start >= end {
        Seq::empty()
    } else {
        s.subrange(start, end)
    }
}

/// A text of white space only, or of nothing.
pub open spec fn blank(s: Seq<char>) -> bool {
    space_end(s, 0) >= s.len()
}

fn skip_space(v: &Vec<char>, from: usize) -> (end: usize)
    requires
        from <= v.len(),
    ensures
        end == space_end(v@, from as int),
        from <= end <= v.len(),
{
    let mut i: usize = from;
    while i < v.len() && is_whitespace(v[i])
        invariant
            from <= i <= v.len(),
            space_end(v@, i as int) == space_end(v@, from as int),
        decreases v.len() - i,
    {
        i += 1;
    }
    i
}

fn skip_word(v: &Vec<char>, from: usize) -> (end: usize)
    requires
        from <= v.len(),
    ensures
        end == word_end(v@, from as int),
        from <= end <= v.len(),
{
    let mut i: usize = from;
    while i < v.len() && !is_whitespace(v[i])
        invariant
            from <= i <= v.len(),
            word_end(v@, i as int) == word_end(v@, from as int),
        decreases v.len() - i,
    {
        i += 1;
    }
    i
}

fn skip_space_back(v: &Vec<char>, to: usize) -> (start: usize)
    requires
        to <= v.len(),
    ensures
        start == space_start(v@, to as int),
        start <= to,
{
    let mut i: usize = to;
    while i > 0 && is_whitespace(v[i - 1])
        invariant
            i <= to <= v.len(),
            space_start(v@, i as int) == space_start(v@, to as int),
        decreases i,
    {
        i -= 1;
    }
    i
}

/// The first word of `s`.
pub fn first_word_of(s: &str) -> (w: String)
    ensures
        w@ == first_word(s@),
{
    let v = chars_of(s);
    let start = skip_space(&v, 0);
    let end = skip_word(&v, start);
    string_of(&v, start, end)
}

/// `s` without its leading and trailing white space.
pub fn trim(s: &str) -> (t: String)
    ensures
        t@ == trimmed(s@),
{
    let v = chars_of(s);
    let start = skip_space(&v, 0);
    let end = skip_space_back(&v, v.len());
    if start >= end {
        String::new()
    } else {
        string_of(&v, start, end)
    }
}

/// Whether `s` holds nothing but white space.
pub fn is_blank(s: &str) -> (b: bool)
    ensures
        b == blank(s@),
{
    let v = chars_of(s);
    skip_space(&v, 0) >= v.len()
}

/// Copies of the strings of `v`.
pub fn copy_strings(v: &Vec<String>) -> (c: Vec<String>)
    ensures
        views(c@) == views(v@),
{
    let mut c: Vec<String> = Vec::new();
    let mut i: usize = 0;
    while i < v.len()
        invariant
            i <= v.len(),
            views(c@) == views(v@.take(i as int)),
        decreases v.len() - i,
    {
        c.push(v[i].clone());
        assert(v@.take(i + 1) == v@.take(i as int).push(v@[i as int]));
        i += 1;
    }
    assert(v@.take(v.len() as int) == v@);
    c
}

/// Whether `needle` is one of `v`.
pub fn contains_string(v: &Vec<String>, needle: &str) -> (found: bool)
    ensures
        found == views(v@).contains(needle@),
{
    let mut i: usize = 0;
    while i < v.len()
        invariant
            i <= v.len(),
            forall|j: int| 0 <= j < i ==> views(v@)[j] != needle@,
        decreases v.len() - i,
    {
        if same_text(v[i].as_str(), needle) {
            assert(views(v@)[i as int] == needle@);
            return true;
        }
        i += 1;
    }
    false
}

/// Whether two strings hold the same characters.
pub fn same_text(a: &str, b: &str) -> (same: bool)
    ensures
        same == (a@ == b@),
{
    let x = String::from_str(a);
    let y = String::from_str(b);
    x == y
}

/// A text in lower case: what `str::to_lowercase` of the standard library
/// returns.
pub uninterp spec fn lowercase(s: Seq<char>) -> Seq<char>;

/// `str::to_lowercase` of the standard library.
#[verifier::external_body]
pub(crate) fn to_lowercase(s: &str) -> (lower: String)
    ensures
        lower@ == lowercase(s@),
{
    s.to_lowercase()
}

/// Whether `needle` stands in `hay` at the index `i`.
pub open spec fn stands_at(hay: Seq<char>, needle: Seq<char>, i: int) -> bool {
    0 <= i && i + needle.len() <= hay.len() && hay.subrange(i, i + needle.len()) == needle
}

/// Whether `needle` is a part of `hay`. The empty text is a part of every
/// text.
pub open spec fn is_part(hay: Seq<char>, needle: Seq<char>) -> bool {
    exists|i: int| stands_at(hay, needle, i)
}

fn matches_at(hay: &Vec<char>, needle: &Vec<char>, i: usize) -> (found: bool)
    requires
        i + needle.len() <= hay.len(),
    ensures
        found == stands_at(hay@, needle@, i as int),
{
    let mut k: usize = 0;
    while k < needle.len()
        invariant
            k <= needle.len(),
            i + needle.len() <= hay.len(),
            forall|j: int| 0 <= j < k ==> hay@[i + j] == needle@[j],
        decreases needle.len() - k,
    {
        if hay[i + k] != needle[k] {
            assert(hay@.subrange(i as int, i + needle.len())[k as int] != needle@[k as int]);
            return false;
        }
        k += 1;
    }
    assert(hay@.subrange(i as int, i + needle.len()) =~= needle@);
    true
}

/// Whether `needle` is a part of `hay`.
pub fn contains_text(hay: &str, needle: &str) -> (found: bool)
    ensures
        found == is_part(hay@, needle@),
{
    let h = chars_of(hay);
    let n = chars_of(needle);
    if n.len() > h.len() {
        return false;
    }
    let last: usize = h.len() - n.len();
    let mut i: usize = 0;
    while i < last
        invariant
            i <= last,
            last == h.len() - n.len(),
            n.len() <= h.len(),
            h@ == hay@,
            n@ == needle@,
            forall|j: int| 0 <= j < i ==> !stands_at(h@, n@, j),
        decreases last - i,
    {
        if matches_at(&h, &n, i) {
            return true;
        }
        i += 1;
    }
    matches_at(&h, &n, last)
}

} // verus!
