//! Putting the traits of a `derive` attribute in order.

use vstd::prelude::*;
use crate::text::{
    append_chars,
    chars_of,
    find_char,
    find_from,
    has_prefix,
    lemma_find_from,
    line_at,
    line_end,
    lowercase,
    matches_at,
    read_line,
    same_chars,
    starts_with,
    slice_of,
    stands_at,
    string_of,
    text_le,
    text_not_after,
    to_lowercase,
    trim,
    trimmed,
};

verus! {

/// What the first group of a pattern holds in the leftmost match of the
/// pattern in a text; `None` where the pattern is no valid pattern, where
/// it matches nowhere, and where the group takes no part in the match.
pub uninterp spec fn first_group(pattern: Seq<char>, text: Seq<char>) -> Option<Seq<char>>;

/// Compiles `pattern` with `regex::Regex::new`, searches `text` with
/// `Regex::captures` and takes the text of group 1 with `Captures::get` and
/// `Match::as_str`. The contract claims that the result depends on the
/// pattern and the text alone.
#[verifier::external_body]
fn regex_first_group(pattern: &str, text: &str) -> (group: Option<String>)
    ensures
        match group {
            Some(found) => first_group(pattern@, text@) == Some(found@),
            None => first_group(pattern@, text@) is None,
        },
{
    let regex = regex::Regex::new(pattern).ok()?;
    regex.captures(text)?.get(1).map(|m| m.as_str().to_string())
}

/// The pattern of a `derive` attribute, with the list of traits as its
/// first group.
pub open spec fn derive_pattern() -> Seq<char> {
    "#\\[derive\\s*\\(([^)]+)\\)\\]"@
}

/// The traits of a list: what stands between its commas from `from` on,
/// without white space around it, where anything is left.
pub open spec fn derive_items(content: Seq<char>, from: int) -> Seq<Seq<char>>
    decreases content.len() - from,
{
    if from < 0 || from > content.len() {
        Seq::empty()
    } else {
        let end = find_from(content, ',', from);
        let piece = trimmed(content.subrange(from, end));
        let rest = if end < content.len() {
            proof {
                lemma_find_from(content, ',', from);
            }
            derive_items(content, end + 1)
        } else {
            Seq::empty()
        };
        if piece.len() > 0 {
            seq![piece] + rest
        } else {
            rest
        }
    }
}

/// `x` put into the sorted list `sorted`: behind every item whose
/// lowercase form is not after its own.
pub open spec fn insert_by_key(sorted: Seq<Seq<char>>, x: Seq<char>) -> Seq<Seq<char>>
    decreases sorted.len(),
{
    if sorted.len() == 0 {
        seq![x]
    } else if text_le(lowercase(sorted.last()), lowercase(x)) {
        sorted.push(x)
    } else {
        insert_by_key(sorted.drop_last(), x).push(sorted.last())
    }
}

/// `items` in the order of their lowercase forms; items with the same
/// lowercase form keep their order.
pub open spec fn sorted_by_key(items: Seq<Seq<char>>) -> Seq<Seq<char>>
    decreases items.len(),
{
    if items.len() == 0 {
        Seq::empty()
    } else {
        insert_by_key(sorted_by_key(items.drop_last()), items.last())
    }
}

/// `items` with `, ` between them.
pub open spec fn comma_list(items: Seq<Seq<char>>) -> Seq<char>
    decreases items.len(),
{
    if items.len() == 0 {
        Seq::empty()
    } else if items.len() == 1 {
        items[0]
    } else {
        comma_list(items.drop_last()) + ", "@ + items.last()
    }
}

/// `hay` from `from` on, with every `needle` in it replaced by `to`, from
/// left to right. An empty `needle` stands before every character and at
/// the end.
pub open spec fn replaced_all(hay: Seq<char>, needle: Seq<char>, to: Seq<char>, from: int) -> Seq<
    char,
>
    decreases hay.len() - from,
{
    if from < 0 || from >= hay.len() {
        if needle.len() == 0 {
            to
        } else {
            Seq::empty()
        }
    } else if needle.len() == 0 {
        to + seq![hay[from]] + replaced_all(hay, needle, to, from + 1)
    } else if matches_at(hay, needle, from) {
        to + replaced_all(hay, needle, to, from + needle.len())
    } else {
        seq![hay[from]] + replaced_all(hay, needle, to, from + 1)
    }
}

/// The line with its list of traits `content` put in order: the traits
/// sorted and joined replace `content` wherever it stands in the line.
pub open spec fn sorted_line(line: Seq<char>, content: Seq<char>) -> Seq<char> {
    replaced_all(line, content, comma_list(sorted_by_key(derive_items(content, 0))), 0)
}

/// The views of a list of texts, in order.
pub open spec fn char_texts(v: Seq<Vec<char>>) -> Seq<Seq<char>> {
    Seq::new(v.len(), |i: int| v[i]@)
}

/// The traits of the list `content`.
fn split_traits(content: &Vec<char>) -> (items: Vec<Vec<char>>)
    ensures
        char_texts(items@) == derive_items(content@, 0),
{
    let mut items: Vec<Vec<char>> = Vec::new();
    let mut from: usize = 0;
    assert(char_texts(items@) + derive_items(content@, 0) =~= derive_items(content@, 0));
    loop
        invariant
            from <= content.len(),
            derive_items(content@, 0) == char_texts(items@) + derive_items(content@, from as int),
        decreases content.len() - from,
    {
        let end = find_char(content, ',', from);
        let piece = trim(&slice_of(content, from, end));
        let ghost before = char_texts(items@);
        let ghost rest = if end < content.len() {
            derive_items(content@, end + 1)
        } else {
            Seq::empty()
        };
        if piece.len() > 0 {
            items.push(piece);
            assert(char_texts(items@) =~= before.push(piece@));
            assert(before + (seq![piece@] + rest) =~= char_texts(items@) + rest);
        }
        if end >= content.len() {
            assert(char_texts(items@) + rest =~= char_texts(items@));
            return items;
        }
        from = end + 1;
    }
}

/// The lowercase form of `text`.
fn key_of(text: &Vec<char>) -> (key: Vec<char>)
    ensures
        key@ == lowercase(text@),
{
    let lowered = to_lowercase(string_of(text).as_str());
    chars_of(lowered.as_str())
}

/// Reading a sorted list from its end, `x` goes behind the first item
/// whose lowercase form is not after its own.
proof fn lemma_insert_at(sorted: Seq<Seq<char>>, x: Seq<char>, at: int)
    requires
        0 <= at <= sorted.len(),
        forall|k: int| at <= k < sorted.len() ==> !text_le(lowercase(sorted[k]), lowercase(x)),
        at > 0 ==> text_le(lowercase(sorted[at - 1]), lowercase(x)),
    ensures
        insert_by_key(sorted, x) == sorted.insert(at, x),
    decreases sorted.len(),
{
    if sorted.len() == 0 {
        assert(sorted.insert(at, x) =~= seq![x]);
    } else if at == sorted.len() {
        assert(sorted.insert(at, x) =~= sorted.push(x));
    } else {
        lemma_insert_at(sorted.drop_last(), x, at);
        assert(sorted.insert(at, x) =~= sorted.drop_last().insert(at, x).push(sorted.last()));
    }
}

/// `items` in the order of their lowercase forms.
fn sort_traits(items: &Vec<Vec<char>>) -> (sorted: Vec<Vec<char>>)
    ensures
        char_texts(sorted@) == sorted_by_key(char_texts(items@)),
{
    let ghost texts = char_texts(items@);
    let mut sorted: Vec<Vec<char>> = Vec::new();
    let mut keys: Vec<Vec<char>> = Vec::new();
    let mut i: usize = 0;
    assert(texts.take(0) =~= Seq::empty());
    assert(char_texts(sorted@) =~= Seq::empty());
    while i < items.len()
        invariant
            i <= items.len(),
            texts == char_texts(items@),
            keys.len() == sorted.len(),
            forall|k: int| 0 <= k < keys.len() ==> (#[trigger] keys[k])@ == lowercase(sorted[k]@),
            char_texts(sorted@) == sorted_by_key(texts.take(i as int)),
        decreases items.len() - i,
    {
        let item = slice_of(&items[i], 0, items[i].len());
        assert(item@ =~= items[i as int]@);
        let key = key_of(&item);
        let mut at: usize = sorted.len();
        while at > 0 && !text_not_after(&keys[at - 1], &key)
            invariant
                at <= sorted.len(),
                keys.len() == sorted.len(),
                key@ == lowercase(item@),
                forall|k: int| 0 <= k < keys.len() ==> (#[trigger] keys[k])@ == lowercase(sorted[k]@),
                forall|k: int|
                    at <= k < sorted.len() ==> !text_le(
                        lowercase((#[trigger] sorted[k])@),
                        lowercase(item@),
                    ),
            decreases at,
        {
            at -= 1;
        }
        proof {
            let before = char_texts(sorted@);
            assert(at > 0 ==> text_le(lowercase(before[at - 1]), lowercase(item@))) by {
                if at > 0 {
                    assert(keys[at - 1]@ == lowercase(sorted[at - 1]@));
                }
            }
            assert forall|k: int| at <= k < before.len() implies !text_le(
                lowercase(before[k]),
                lowercase(item@),
            ) by {
                assert(before[k] == sorted[k]@);
            }
            lemma_insert_at(before, item@, at as int);
            assert(texts.take(i + 1).drop_last() =~= texts.take(i as int));
            assert(texts.take(i + 1).last() == item@);
        }
        let ghost before = char_texts(sorted@);
        let ghost keys_before = keys@;
        let ghost sorted_before = sorted@;
        sorted.insert(at, item);
        keys.insert(at, key);
        assert(char_texts(sorted@) =~= before.insert(at as int, item@));
        assert forall|k: int| 0 <= k < keys.len() implies (#[trigger] keys[k])@ == lowercase(
            sorted[k]@,
        ) by {
            if k < at {
                assert(keys[k] == keys_before[k]);
                assert(sorted[k] == sorted_before[k]);
            } else if k > at {
                assert(keys[k] == keys_before[k - 1]);
                assert(sorted[k] == sorted_before[k - 1]);
            }
        }
        i += 1;
    }
    assert(texts.take(i as int) =~= texts);
    sorted
}

/// `items` with `, ` between them.
fn join_traits(items: &Vec<Vec<char>>) -> (joined: Vec<char>)
    ensures
        joined@ == comma_list(char_texts(items@)),
{
    let ghost texts = char_texts(items@);
    let mut joined: Vec<char> = Vec::new();
    let mut i: usize = 0;
    assert(texts.take(0) =~= Seq::empty());
    while i < items.len()
        invariant
            i <= items.len(),
            texts == char_texts(items@),
            joined@ == comma_list(texts.take(i as int)),
        decreases items.len() - i,
    {
        assert(texts.take(i + 1).drop_last() =~= texts.take(i as int));
        assert(texts.take(i + 1).last() == items[i as int]@);
        if i > 0 {
            append_chars(&mut joined, &chars_of(", "));
        } else {
            assert(texts.take(1)[0] == items[0]@);
            assert(joined@ + items[0]@ =~= items[0]@);
        }
        append_chars(&mut joined, &items[i]);
        i += 1;
    }
    assert(texts.take(i as int) =~= texts);
    joined
}

/// `hay` with every `needle` in it replaced by `to`.
fn replace_all(hay: &Vec<char>, needle: &Vec<char>, to: &Vec<char>) -> (out: Vec<char>)
    ensures
        out@ == replaced_all(hay@, needle@, to@, 0),
{
    let mut out: Vec<char> = Vec::new();
    let mut from: usize = 0;
    assert(out@ + replaced_all(hay@, needle@, to@, 0) =~= replaced_all(hay@, needle@, to@, 0));
    while from < hay.len()
        invariant
            from <= hay.len(),
            replaced_all(hay@, needle@, to@, 0) == out@ + replaced_all(
                hay@,
                needle@,
                to@,
                from as int,
            ),
        decreases hay.len() - from,
    {
        let ghost done = out@;
        if needle.len() == 0 {
            append_chars(&mut out, to);
            out.push(hay[from]);
            assert(done + (to@ + seq![hay[from as int]] + replaced_all(
                hay@,
                needle@,
                to@,
                from + 1,
            )) =~= out@ + replaced_all(hay@, needle@, to@, from + 1));
            from += 1;
        } else if stands_at(hay, needle, from) {
            append_chars(&mut out, to);
            assert(done + (to@ + replaced_all(hay@, needle@, to@, from + needle.len())) =~= out@
                + replaced_all(hay@, needle@, to@, from + needle.len()));
            from += needle.len();
        } else {
            out.push(hay[from]);
            assert(done + (seq![hay[from as int]] + replaced_all(hay@, needle@, to@, from + 1))
                =~= out@ + replaced_all(hay@, needle@, to@, from + 1));
            from += 1;
        }
    }
    if needle.len() == 0 {
        append_chars(&mut out, to);
    } else {
        assert(out@ + Seq::<char>::empty() =~= out@);
    }
    out
}

/// The line `line` with the list of traits `derive_content` put in order,
/// wherever that list stands in the line.
pub fn sort_derive_content(line: &str, derive_content: &str) -> (sorted: String)
    ensures
        sorted@ == sorted_line(line@, derive_content@),
{
    let content = chars_of(derive_content);
    let traits = sort_traits(&split_traits(&content));
    let joined = join_traits(&traits);
    string_of(&replace_all(&chars_of(line), &content, &joined))
}

/// What sorting gave, as a view.
pub open spec fn line_view(line: Option<String>) -> Option<Seq<char>> {
    match line {
        Some(text) => Some(text@),
        None => None,
    }
}

/// The line with the traits of its first `derive` attribute put in order,
/// or `None` where it has no such attribute.
pub fn sort_derive_in_line(line: &str) -> (sorted: Option<String>)
    ensures
        line_view(sorted) == match first_group(derive_pattern(), line@) {
            Some(content) => Some(sorted_line(line@, content)),
            None => None,
        },
{
    match regex_first_group("#\\[derive\\s*\\(([^)]+)\\)\\]", line) {
        Some(content) => Some(sort_derive_content(line, content.as_str())),
        None => None,
    }
}

/// A line after formatting: a line that begins, after any white space,
/// with `#[derive(` and holds a `derive` attribute has the traits of its
/// first such attribute put in order; any other line stays.
pub open spec fn formatted_line(line: Seq<char>) -> Seq<char> {
    if has_prefix(trimmed(line), "#[derive("@) {
        match first_group(derive_pattern(), line) {
            Some(content) => sorted_line(line, content),
            None => line,
        }
    } else {
        line
    }
}

/// The lines of `content` from `start` on after formatting, each with a
/// line feed behind it.
pub open spec fn formatted_from(content: Seq<char>, start: int) -> Seq<char>
    decreases content.len() - start,
{
    if start < 0 || start >= content.len() {
        Seq::empty()
    } else {
        let rest = if line_end(content, start) < content.len() {
            proof {
                lemma_find_from(content, '\n', start);
            }
            formatted_from(content, line_end(content, start) + 1)
        } else {
            Seq::empty()
        };
        formatted_line(line_at(content, start)) + "\n"@ + rest
    }
}

/// Formatting changes a line of `content` at or after `start`.
pub open spec fn changes_from(content: Seq<char>, start: int) -> bool
    decreases content.len() - start,
{
    if start < 0 || start >= content.len() {
        false
    } else {
        formatted_line(line_at(content, start)) != line_at(content, start) || (line_end(
            content,
            start,
        ) < content.len() && ({
            proof {
                lemma_find_from(content, '\n', start);
            }
            changes_from(content, line_end(content, start) + 1)
        }))
    }
}

/// The text `content` with the `derive` attributes of its lines put in
/// order, where that changes a line; `None` where every line stays. In
/// the new text every line ends with a line feed.
pub fn format_derive_content(content: &str) -> (formatted: Option<String>)
    ensures
        line_view(formatted) == if changes_from(content@, 0) {
            Some(formatted_from(content@, 0))
        } else {
            None
        },
{
    let text = chars_of(content);
    let marker = chars_of("#[derive(");
    let mut out: Vec<char> = Vec::new();
    let mut modified = false;
    let mut start: usize = 0;
    assert(out@ + formatted_from(text@, 0) =~= formatted_from(text@, 0));
    while start < text.len()
        invariant
            start <= text.len(),
            text@ == content@,
            marker@ == "#[derive("@,
            formatted_from(text@, 0) == out@ + formatted_from(text@, start as int),
            changes_from(text@, 0) == (modified || changes_from(text@, start as int)),
        decreases text.len() - start,
    {
        let ghost done = out@;
        let (line, end) = read_line(&text, start);
        let mut changed = false;
        if starts_with(&trim(&line), &marker) {
            let line_text = string_of(&line);
            match sort_derive_in_line(line_text.as_str()) {
                Some(sorted) => {
                    let sorted_chars = chars_of(sorted.as_str());
                    changed = !same_chars(&sorted_chars, &line);
                    append_chars(&mut out, &sorted_chars);
                },
                None => {
                    append_chars(&mut out, &line);
                },
            }
        } else {
            append_chars(&mut out, &line);
        }
        out.push('\n');
        proof {
            reveal_strlit("\n");
            let rest = if end < text.len() {
                formatted_from(text@, end + 1)
            } else {
                Seq::empty()
            };
            assert("\n"@ =~= seq!['\n']);
            assert(done + (formatted_line(line@) + "\n"@ + rest) =~= out@ + rest);
        }
        if changed {
            modified = true;
        }
        if end >= text.len() {
            assert(out@ + Seq::<char>::empty() =~= out@);
            start = text.len();
        } else {
            start = end + 1;
        }
    }
    if modified {
        Some(string_of(&out))
    } else {
        None
    }
}

} // verus!
