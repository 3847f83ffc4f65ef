//! Bumping the version that a manifest states: the first line that gives
//! a version is found, and its version is replaced by the bumped one.
//!
//! Places in a line are counted in characters.

use vstd::prelude::*;
use crate::bump::{
    BumpVersionType,
    VersionView,
    bump_fits,
    bump_version,
    bumped,
    can_bump,
    parse_version,
    parsed_version,
    version_text,
    version_to_string,
};
use crate::text::{
    append_chars,
    chars_of,
    find_char,
    find_from,
    find_text,
    first_match,
    has_prefix,
    leading_spaces,
    lemma_find_from,
    line_at,
    line_end,
    read_line,
    slice_of,
    spaces_from,
    starts_with,
    string_of,
};

verus! {

/// Where the version of a line stands: between the first two `"` behind
/// its first `=`. A line gives a version only if it begins, after any
/// white space, with `version`.
pub open spec fn version_position(line: Seq<char>) -> Option<(int, int)> {
    let lead = spaces_from(line, 0);
    let equals = find_from(line, '=', 0);
    let open = find_from(line, '"', equals + 1);
    let close = find_from(line, '"', open + 1);
    if has_prefix(line.subrange(lead, line.len() as int), "version"@) && equals < line.len() && open
        < line.len() && close < line.len() {
        Some((open + 1, close))
    } else {
        None
    }
}

/// A position as whole numbers.
pub open spec fn position_view(position: Option<(usize, usize)>) -> Option<(int, int)> {
    match position {
        Some((from, to)) => Some((from as int, to as int)),
        None => None,
    }
}

/// Where the version of `line` stands, by characters.
fn version_position_of(line: &Vec<char>) -> (position: Option<(usize, usize)>)
    ensures
        position_view(position) == version_position(line@),
        position matches Some((from, to)) ==> from <= to <= line.len(),
{
    let lead = leading_spaces(line);
    let rest = slice_of(line, lead, line.len());
    if !starts_with(&rest, &chars_of("version")) {
        return None;
    }
    let equals = find_char(line, '=', 0);
    if equals >= line.len() {
        return None;
    }
    let open = find_char(line, '"', equals + 1);
    if open >= line.len() {
        return None;
    }
    let close = find_char(line, '"', open + 1);
    if close >= line.len() {
        return None;
    }
    Some((open + 1, close))
}

/// Where the version of `line` stands: the places of its first and of the
/// character behind its last character.
pub fn find_version_position(line: &str) -> (position: Option<(usize, usize)>)
    ensures
        position_view(position) == version_position(line@),
{
    version_position_of(&chars_of(line))
}

/// The line that gives the version to bump, with that version: the first
/// line at or after `start` with a version position whose text writes a
/// version.
pub open spec fn version_line(content: Seq<char>, start: int) -> Option<(Seq<char>, int, int, VersionView)>
    decreases content.len() - start,
{
    if start < 0 || start >= content.len() {
        None
    } else {
        let line = line_at(content, start);
        let found = match version_position(line) {
            Some((from, to)) => match parsed_version(line.subrange(from, to)) {
                Some(version) => Some((line, from, to, version)),
                None => None,
            },
            None => None,
        };
        if found is Some {
            found
        } else if line_end(content, start) < content.len() {
            proof {
                lemma_find_from(content, '\n', start);
            }
            version_line(content, line_end(content, start) + 1)
        } else {
            None
        }
    }
}

/// `content` with the first `old_text` in it replaced by `new_text`.
pub open spec fn replaced_first(content: Seq<char>, old_text: Seq<char>, new_text: Seq<char>) -> Seq<
    char,
> {
    let at = first_match(content, old_text, 0);
    if at <= content.len() {
        content.take(at) + new_text + content.subrange(at + old_text.len(), content.len() as int)
    } else {
        content
    }
}

/// Why a manifest was not bumped.
#[derive(Clone, Copy, Debug, PartialEq, Eq, Structural)]
pub enum BumpError {
    /// No line gives a version.
    VersionNotFound,
    /// The bumped version has a number beyond 64 bits.
    VersionTooLarge,
}

impl BumpError {
    /// The message of the error.
    pub open spec fn message(self) -> Seq<char> {
        match self {
            BumpError::VersionNotFound => "version field not found in Cargo.toml"@,
            BumpError::VersionTooLarge => "failed to bump version"@,
        }
    }

    /// The message of the error.
    pub fn to_string(&self) -> (text: String)
        ensures
            text@ == self.message(),
    {
        match self {
            BumpError::VersionNotFound => "version field not found in Cargo.toml".to_string(),
            BumpError::VersionTooLarge => "failed to bump version".to_string(),
        }
    }
}

/// A bumped manifest: its text and the version it now states.
#[derive(Clone, Debug, PartialEq, Eq)]
pub struct BumpedManifest {
    pub content: String,
    pub version: String,
}

/// A bumped manifest as texts.
pub struct BumpedManifestView {
    pub content: Seq<char>,
    pub version: Seq<char>,
}

impl View for BumpedManifest {
    type V = BumpedManifestView;

    open spec fn view(&self) -> BumpedManifestView {
        BumpedManifestView { content: self.content@, version: self.version@ }
    }
}

/// The manifest `content` after a bump. The line that gives the version
/// has that version replaced by the bumped one; the first place in the
/// text where the old line stands then takes the new line.
pub open spec fn bumped_manifest(content: Seq<char>, bump_type: BumpVersionType) -> Result<
    BumpedManifestView,
    BumpError,
> {
    match version_line(content, 0) {
        Some((line, from, to, version)) => if bump_fits(version, bump_type) {
            let text = version_text(bumped(version, bump_type));
            let new_line = line.take(from) + text + line.subrange(to, line.len() as int);
            Ok(
                BumpedManifestView {
                    content: replaced_first(content, line, new_line),
                    version: text,
                },
            )
        } else {
            Err(BumpError::VersionTooLarge)
        },
        None => Err(BumpError::VersionNotFound),
    }
}

/// What bumping gave, as a view.
pub open spec fn bump_view(r: Result<BumpedManifest, BumpError>) -> Result<
    BumpedManifestView,
    BumpError,
> {
    match r {
        Ok(manifest) => Ok(manifest@),
        Err(e) => Err(e),
    }
}

/// Bumps the version that the manifest `content` states.
///
/// Fails where no line gives a version, and where the bumped version would
/// have a number beyond 64 bits.
pub fn execute_bump(content: &str, bump_type: BumpVersionType) -> (r: Result<
    BumpedManifest,
    BumpError,
>)
    ensures
        bump_view(r) == bumped_manifest(content@, bump_type),
{
    let text = chars_of(content);
    let mut start: usize = 0;
    while start < text.len()
        invariant
            start <= text.len(),
            text@ == content@,
            version_line(text@, 0) == version_line(text@, start as int),
        decreases text.len() - start,
    {
        let (line, end) = read_line(&text, start);
        match version_position_of(&line) {
            Some((from, to)) => {
                let found = string_of(&slice_of(&line, from, to));
                match parse_version(found.as_str()) {
                    Some(version) => {
                        if !can_bump(&version, bump_type) {
                            return Err(BumpError::VersionTooLarge);
                        }
                        let next = version_to_string(&bump_version(&version, bump_type));
                        let mut new_line = slice_of(&line, 0, from);
                        append_chars(&mut new_line, &chars_of(next.as_str()));
                        append_chars(&mut new_line, &slice_of(&line, to, line.len()));
                        let updated = match find_text(&text, &line) {
                            Some(at) => {
                                let mut updated = slice_of(&text, 0, at);
                                append_chars(&mut updated, &new_line);
                                append_chars(
                                    &mut updated,
                                    &slice_of(&text, at + line.len(), text.len()),
                                );
                                updated
                            },
                            None => slice_of(&text, 0, text.len()),
                        };
                        assert(text@.subrange(0, text.len() as int) =~= text@);
                        return Ok(
                            BumpedManifest { content: string_of(&updated), version: next },
                        );
                    },
                    None => {},
                }
            },
            None => {},
        }
        if end >= text.len() {
            return Err(BumpError::VersionNotFound);
        }
        start = end + 1;
    }
    Err(BumpError::VersionNotFound)
}

} // verus!
