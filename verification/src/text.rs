//! Working on texts character by character.

use vstd::prelude::*;

verus! {

/// The characters of `s`.
pub fn chars_of(s: &str) -> (chars: Vec<char>)
    ensures
        chars@ == s@,
{
    let mut chars: Vec<char> = Vec::new();
    for c in it: s.chars()
        invariant
            chars@ == it.seq().take(it.index() as int),
    {
        chars.push(c);
    }
    chars
}

/// Calls `String::push`, which puts one character behind the text.
#[verifier::external_body]
fn push_char(text: &mut String, c: char)
    ensures
        final(text)@ == old(text)@.push(c),
{
    text.push(c);
}

/// The text made of `chars`.
pub fn string_of(chars: &Vec<char>) -> (text: String)
    ensures
        text@ == chars@,
{
    let mut text = String::new();
    let mut i: usize = 0;
    while i < chars.len()
        invariant
            i <= chars.len(),
            text@ == chars@.take(i as int),
        decreases chars.len() - i,
    {
        push_char(&mut text, chars[i]);
        assert(chars@.take(i + 1) =~= chars@.take(i as int).push(chars[i as int]));
        i += 1;
    }
    assert(chars@.take(i as int) =~= chars@);
    text
}

/// Whether `chars` holds `c`.
pub fn holds_char(chars: &Vec<char>, c: char) -> (found: bool)
    ensures
        found == chars@.contains(c),
{
    let mut i: usize = 0;
    while i < chars.len()
        invariant
            i <= chars.len(),
            forall|k: int| 0 <= k < i ==> chars[k] != c,
        decreases chars.len() - i,
    {
        if chars[i] == c {
            return true;
        }
        i += 1;
    }
    false
}

/// Whether two lists hold the same characters.
pub fn same_chars(a: &Vec<char>, b: &Vec<char>) -> (same: bool)
    ensures
        same == (a@ == b@),
{
    if a.len() != b.len() {
        return false;
    }
    let mut i: usize = 0;
    while i < a.len()
        invariant
            i <= a.len(),
            a.len() == b.len(),
            forall|k: int| 0 <= k < i ==> a[k] == b[k],
        decreases a.len() - i,
    {
        if a[i] != b[i] {
            return false;
        }
        i += 1;
    }
    assert(a@ =~= b@);
    true
}

/// `text` begins with `prefix`.
pub open spec fn has_prefix(text: Seq<char>, prefix: Seq<char>) -> bool {
    prefix.len() <= text.len() && text.take(prefix.len() as int) == prefix
}

/// Whether `text` begins with `prefix`.
pub fn starts_with(text: &Vec<char>, prefix: &Vec<char>) -> (found: bool)
    ensures
        found == has_prefix(text@, prefix@),
{
    if prefix.len() > text.len() {
        return false;
    }
    let mut i: usize = 0;
    while i < prefix.len()
        invariant
            i <= prefix.len() <= text.len(),
            forall|k: int| 0 <= k < i ==> text[k] == prefix[k],
        decreases prefix.len() - i,
    {
        if text[i] != prefix[i] {
            assert(text@.take(prefix.len() as int)[i as int] != prefix[i as int]);
            return false;
        }
        i += 1;
    }
    assert(text@.take(prefix.len() as int) =~= prefix@);
    true
}

/// The characters of `text` from `from` up to `to`.
pub fn slice_of(text: &Vec<char>, from: usize, to: usize) -> (part: Vec<char>)
    requires
        from <= to <= text.len(),
    ensures
        part@ == text@.subrange(from as int, to as int),
{
    let mut part: Vec<char> = Vec::new();
    let mut i: usize = from;
    while i < to
        invariant
            from <= i <= to <= text.len(),
            part@ == text@.subrange(from as int, i as int),
        decreases to - i,
    {
        part.push(text[i]);
        assert(text@.subrange(from as int, i + 1) =~= text@.subrange(from as int, i as int).push(
            text[i as int],
        ));
        i += 1;
    }
    part
}

/// Puts the characters of `more` behind `text`.
pub fn append_chars(text: &mut Vec<char>, more: &Vec<char>)
    ensures
        final(text)@ == old(text)@ + more@,
{
    let ghost start = text@;
    let mut i: usize = 0;
    while i < more.len()
        invariant
            i <= more.len(),
            text@ == start + more@.take(i as int),
        decreases more.len() - i,
    {
        text.push(more[i]);
        assert(more@.take(i + 1) =~= more@.take(i as int).push(more[i as int]));
        assert(text@ =~= start + more@.take(i + 1));
        i += 1;
    }
    assert(more@.take(i as int) =~= more@);
}

/// The lowercase form of a text as `str::to_lowercase` gives it.
pub uninterp spec fn lowercase(text: Seq<char>) -> Seq<char>;

/// Calls `str::to_lowercase`. The contract claims that the result is the
/// lowercase form of the text, which depends on the text alone.
#[verifier::external_body]
pub(crate) fn to_lowercase(text: &str) -> (lowered: String)
    ensures
        lowered@ == lowercase(text@),
{
    text.to_lowercase()
}

/// `a` followed by `b`.
pub fn join2(a: &str, b: &str) -> (joined: String)
    ensures
        joined@ == a@ + b@,
{
    let mut joined = a.to_string();
    joined.append(b);
    joined
}

/// `a` followed by `b` and `c`.
pub fn join3(a: &str, b: &str, c: &str) -> (joined: String)
    ensures
        joined@ == a@ + b@ + c@,
{
    let mut joined = a.to_string();
    joined.append(b);
    joined.append(c);
    joined
}

/// The place of the first `c` in `s` at or after `from`, or the length of
/// `s` where there is none.
pub open spec fn find_from(s: Seq<char>, c: char, from: int) -> int
    decreases s.len() - from,
{
    if from < 0 || from >= s.len() {
        s.len() as int
    } else if s[from] == c {
        from
    } else {
        find_from(s, c, from + 1)
    }
}

/// What `find_from` finds lies at or after `from`, is a `c` unless it is
/// the end, and no `c` stands between `from` and it.
pub proof fn lemma_find_from(s: Seq<char>, c: char, from: int)
    requires
        0 <= from <= s.len(),
    ensures
        from <= find_from(s, c, from) <= s.len(),
        find_from(s, c, from) < s.len() ==> s[find_from(s, c, from)] == c,
        forall|k: int| from <= k < find_from(s, c, from) ==> s[k] != c,
    decreases s.len() - from,
{
    if from < s.len() && s[from] != c {
        lemma_find_from(s, c, from + 1);
    }
}

/// The place of the first `c` in `text` at or after `from`, or the length
/// of `text` where there is none.
pub fn find_char(text: &Vec<char>, c: char, from: usize) -> (at: usize)
    requires
        from <= text.len(),
    ensures
        at == find_from(text@, c, from as int),
        from <= at <= text.len(),
{
    let mut i: usize = from;
    while i < text.len()
        invariant
            from <= i <= text.len(),
            find_from(text@, c, from as int) == find_from(text@, c, i as int),
        decreases text.len() - i,
    {
        if text[i] == c {
            return i;
        }
        i += 1;
    }
    i
}

/// Whether `c` is white space: a blank, a character from tab to carriage
/// return, or one of the spaces and separators beyond the first 128
/// characters.
pub open spec fn is_space(c: char) -> bool {
    c == ' ' || ('\u{9}' <= c <= '\u{d}') || c == '\u{85}' || c == '\u{a0}' || c == '\u{1680}' || (
    '\u{2000}' <= c <= '\u{200a}') || c == '\u{2028}' || c == '\u{2029}' || c == '\u{202f}' || c
        == '\u{205f}' || c == '\u{3000}'
}

/// Whether `c` is white space.
pub fn is_whitespace(c: char) -> (space: bool)
    ensures
        space == is_space(c),
{
    c == ' ' || (c >= '\u{9}' && c <= '\u{d}') || c == '\u{85}' || c == '\u{a0}' || c == '\u{1680}'
        || (c >= '\u{2000}' && c <= '\u{200a}') || c == '\u{2028}' || c == '\u{2029}' || c
        == '\u{202f}' || c == '\u{205f}' || c == '\u{3000}'
}

/// The number of white-space characters of `s` at or after `from` before
/// the first other character.
pub open spec fn spaces_from(s: Seq<char>, from: int) -> int
    decreases s.len() - from,
{
    if from < 0 || from >= s.len() || !is_space(s[from]) {
        0
    } else {
        1 + spaces_from(s, from + 1)
    }
}

/// The number of white-space characters at the start of `text`.
pub fn leading_spaces(text: &Vec<char>) -> (count: usize)
    ensures
        count == spaces_from(text@, 0),
        count <= text.len(),
{
    let mut i: usize = 0;
    while i < text.len() && is_whitespace(text[i])
        invariant
            i <= text.len(),
            spaces_from(text@, 0) == i + spaces_from(text@, i as int),
        decreases text.len() - i,
    {
        i += 1;
    }
    i
}

/// The number of white-space characters of `s` before `end` behind the
/// last other character.
pub open spec fn spaces_before(s: Seq<char>, end: int) -> int
    decreases end,
{
    if end <= 0 || end > s.len() || !is_space(s[end - 1]) {
        0
    } else {
        1 + spaces_before(s, end - 1)
    }
}

/// `s` without the white space at its start and at its end.
pub open spec fn trimmed(s: Seq<char>) -> Seq<char> {
    let lead = spaces_from(s, 0);
    if lead >= s.len() {
        Seq::empty()
    } else {
        s.subrange(lead, s.len() - spaces_before(s, s.len() as int))
    }
}

/// `text` without the white space at its start and at its end.
pub fn trim(text: &Vec<char>) -> (part: Vec<char>)
    ensures
        part@ == trimmed(text@),
{
    let lead = leading_spaces(text);
    if lead >= text.len() {
        return Vec::new();
    }
    let mut end: usize = text.len();
    proof {
        lemma_spaces_end(text@, 0);
    }
    while is_whitespace(text[end - 1])
        invariant
            lead < end <= text.len(),
            !is_space(text[lead as int]),
            spaces_before(text@, text.len() as int) == text.len() - end + spaces_before(
                text@,
                end as int,
            ),
        decreases end,
    {
        end -= 1;
    }
    assert(spaces_before(text@, end as int) == 0);
    slice_of(text, lead, end)
}

/// Where the white space that begins at `from` ends, another character
/// stands, or the text ends.
pub proof fn lemma_spaces_end(s: Seq<char>, from: int)
    requires
        0 <= from <= s.len(),
    ensures
        from + spaces_from(s, from) <= s.len(),
        from + spaces_from(s, from) < s.len() ==> !is_space(s[from + spaces_from(s, from)]),
    decreases s.len() - from,
{
    if from < s.len() && is_space(s[from]) {
        lemma_spaces_end(s, from + 1);
    }
}

/// Whether `a` stands before `b`, or is `b`, in the order of texts:
/// character by character from place `i` on, a text before all that it
/// begins.
pub open spec fn le_from(a: Seq<char>, b: Seq<char>, i: int) -> bool
    decreases a.len() - i,
{
    if i < 0 || i >= a.len() {
        true
    } else if i >= b.len() {
        false
    } else if a[i] != b[i] {
        a[i] < b[i]
    } else {
        le_from(a, b, i + 1)
    }
}

/// Whether `a` stands before `b`, or is `b`, in the order of texts.
pub open spec fn text_le(a: Seq<char>, b: Seq<char>) -> bool {
    le_from(a, b, 0)
}

/// Whether `a` stands before `b`, or is `b`, in the order of texts.
pub fn text_not_after(a: &Vec<char>, b: &Vec<char>) -> (le: bool)
    ensures
        le == text_le(a@, b@),
{
    let mut i: usize = 0;
    while i < a.len()
        invariant
            i <= a.len(),
            text_le(a@, b@) == le_from(a@, b@, i as int),
        decreases a.len() - i,
    {
        if i >= b.len() {
            return false;
        }
        if a[i] != b[i] {
            return a[i] < b[i];
        }
        i += 1;
    }
    true
}

/// The end of the line that begins at `start`: the place of the next line
/// feed, or the end of the text.
pub open spec fn line_end(content: Seq<char>, start: int) -> int {
    find_from(content, '\n', start)
}

/// The line that begins at `start`, without its line feed, and without a
/// carriage return before that line feed.
pub open spec fn line_at(content: Seq<char>, start: int) -> Seq<char> {
    let end = line_end(content, start);
    if end < content.len() && start < end && content[end - 1] == '\r' {
        content.subrange(start, end - 1)
    } else {
        content.subrange(start, end)
    }
}

/// The line of `text` that begins at `start`, and where it ends.
pub fn read_line(text: &Vec<char>, start: usize) -> (r: (Vec<char>, usize))
    requires
        start <= text.len(),
    ensures
        r.0@ == line_at(text@, start as int),
        r.1 == line_end(text@, start as int),
        start <= r.1 <= text.len(),
{
    let end = find_char(text, '\n', start);
    let line = if end < text.len() && start < end && text[end - 1] == '\r' {
        slice_of(text, start, end - 1)
    } else {
        slice_of(text, start, end)
    };
    (line, end)
}

/// `needle` stands in `hay` at `at`.
pub open spec fn matches_at(hay: Seq<char>, needle: Seq<char>, at: int) -> bool {
    0 <= at && at + needle.len() <= hay.len() && hay.subrange(at, at + needle.len()) == needle
}

/// The first place at or after `from` where `needle` stands in `hay`, or
/// the length of `hay` plus one where there is none.
pub open spec fn first_match(hay: Seq<char>, needle: Seq<char>, from: int) -> int
    decreases hay.len() + 1 - from,
{
    if from < 0 || from + needle.len() > hay.len() {
        (hay.len() + 1) as int
    } else if matches_at(hay, needle, from) {
        from
    } else {
        first_match(hay, needle, from + 1)
    }
}

/// Whether `needle` stands in `hay` at `at`.
pub fn stands_at(hay: &Vec<char>, needle: &Vec<char>, at: usize) -> (found: bool)
    requires
        at <= hay.len(),
    ensures
        found == matches_at(hay@, needle@, at as int),
{
    if needle.len() > hay.len() - at {
        return false;
    }
    let mut i: usize = 0;
    while i < needle.len()
        invariant
            i <= needle.len(),
            at + needle.len() <= hay.len(),
            forall|k: int| 0 <= k < i ==> hay[at + k] == needle[k],
        decreases needle.len() - i,
    {
        if hay[at + i] != needle[i] {
            assert(hay@.subrange(at as int, at + needle.len())[i as int] != needle[i as int]);
            return false;
        }
        i += 1;
    }
    assert(hay@.subrange(at as int, at + needle.len()) =~= needle@);
    true
}

/// The first place where `needle` stands in `hay`.
pub fn find_text(hay: &Vec<char>, needle: &Vec<char>) -> (at: Option<usize>)
    ensures
        match at {
            Some(p) => p == first_match(hay@, needle@, 0) && p + needle.len() <= hay.len(),
            None => first_match(hay@, needle@, 0) > hay.len(),
        },
{
    if needle.len() > hay.len() {
        return None;
    }
    let last = hay.len() - needle.len();
    let mut i: usize = 0;
    while i <= last
        invariant
            i <= last + 1,
            last == hay.len() - needle.len(),
            first_match(hay@, needle@, 0) == first_match(hay@, needle@, i as int),
        decreases last + 1 - i,
    {
        if stands_at(hay, needle, i) {
            return Some(i);
        }
        if i == last {
            assert(first_match(hay@, needle@, i + 1) == hay.len() + 1);
            return None;
        }
        i += 1;
    }
    None
}

} // verus!
