//! Versions of the form `major.minor.patch`, with an optional pre-release
//! behind a `-`, and how a bump changes one.

pub mod manifest;

use vstd::prelude::*;
use crate::decimal::{decimal, parse_u64, parsed_u64, push_decimal};
use crate::text::{append_chars, chars_of, find_char, find_from, same_chars, slice_of, string_of};

verus! {

/// The ways to bump a version.
#[derive(Clone, Copy, Debug, PartialEq, Eq, Structural)]
pub enum BumpVersionType {
    /// Next patch: `0.1.0` becomes `0.1.1`.
    Patch,
    /// Next minor version: `0.1.0` becomes `0.2.0`.
    Minor,
    /// Next major version: `0.1.0` becomes `1.0.0`.
    Major,
    /// Drop the pre-release: `0.1.0-alpha` becomes `0.1.0`.
    Release,
    /// First or next alpha.
    Alpha,
    /// First or next beta.
    Beta,
    /// First or next release candidate.
    Rc,
}

/// A version in its parts.
#[derive(Clone, Debug, PartialEq, Eq)]
pub struct Version {
    pub major: u64,
    pub minor: u64,
    pub patch: u64,
    /// What follows the `-`, such as `alpha` or `rc.1`.
    pub prerelease: Option<String>,
}

/// A version as mathematical values.
pub struct VersionView {
    pub major: u64,
    pub minor: u64,
    pub patch: u64,
    pub prerelease: Option<Seq<char>>,
}

impl View for Version {
    type V = VersionView;

    open spec fn view(&self) -> VersionView {
        VersionView {
            major: self.major,
            minor: self.minor,
            patch: self.patch,
            prerelease: match self.prerelease {
                Some(text) => Some(text@),
                None => None,
            },
        }
    }
}

/// What an optional version is, as a view.
pub open spec fn version_view(version: Option<Version>) -> Option<VersionView> {
    match version {
        Some(v) => Some(v@),
        None => None,
    }
}

/// The version that `s` writes. Its numbers are what stands before the
/// first `-`: exactly three, separated by `.`. Its pre-release is what
/// stands between the first `-` and the second, or the end.
pub open spec fn parsed_version(s: Seq<char>) -> Option<VersionView> {
    let dash = find_from(s, '-', 0);
    let numbers = s.take(dash);
    let prerelease = if dash < s.len() {
        Some(s.subrange(dash + 1, find_from(s, '-', dash + 1)))
    } else {
        None
    };
    let first = find_from(numbers, '.', 0);
    let second = find_from(numbers, '.', first + 1);
    if first < numbers.len() && second < numbers.len() && find_from(numbers, '.', second + 1)
        == numbers.len() {
        match (
            parsed_u64(numbers.take(first)),
            parsed_u64(numbers.subrange(first + 1, second)),
            parsed_u64(numbers.subrange(second + 1, numbers.len() as int)),
        ) {
            (Some(major), Some(minor), Some(patch)) => Some(
                VersionView { major, minor, patch, prerelease },
            ),
            _ => None,
        }
    } else {
        None
    }
}

/// The version that `version_str` writes, such as `0.1.2` or `0.1.2-alpha`.
pub fn parse_version(version_str: &str) -> (version: Option<Version>)
    ensures
        version_view(version) == parsed_version(version_str@),
{
    let text = chars_of(version_str);
    let dash = find_char(&text, '-', 0);
    let numbers = slice_of(&text, 0, dash);
    let prerelease = if dash < text.len() {
        let end = find_char(&text, '-', dash + 1);
        Some(string_of(&slice_of(&text, dash + 1, end)))
    } else {
        None
    };
    let first = find_char(&numbers, '.', 0);
    if first >= numbers.len() {
        return None;
    }
    let second = find_char(&numbers, '.', first + 1);
    if second >= numbers.len() {
        return None;
    }
    if find_char(&numbers, '.', second + 1) != numbers.len() {
        return None;
    }
    let major = parse_u64(&slice_of(&numbers, 0, first));
    let minor = parse_u64(&slice_of(&numbers, first + 1, second));
    let patch = parse_u64(&slice_of(&numbers, second + 1, numbers.len()));
    match (major, minor, patch) {
        (Some(major), Some(minor), Some(patch)) => Some(
            Version { major, minor, patch, prerelease },
        ),
        _ => None,
    }
}

/// The kind of a pre-release: what stands before its first `.`.
pub open spec fn prerelease_kind(pre: Seq<char>) -> Seq<char> {
    pre.take(find_from(pre, '.', 0))
}

/// The number of a pre-release: what stands between its first `.` and the
/// next, where that writes a number, else zero.
pub open spec fn prerelease_number(pre: Seq<char>) -> u64 {
    let dot = find_from(pre, '.', 0);
    if dot < pre.len() {
        match parsed_u64(pre.subrange(dot + 1, find_from(pre, '.', dot + 1))) {
            Some(n) => n,
            None => 0,
        }
    } else {
        0
    }
}

/// The kind and the number of a pre-release such as `alpha`, `alpha.1` or
/// `beta.2`. There always are both.
pub fn parse_prerelease(prerelease: &str) -> (parts: Option<(String, u64)>)
    ensures
        match parts {
            Some((kind, number)) => kind@ == prerelease_kind(prerelease@) && number
                == prerelease_number(prerelease@),
            None => false,
        },
{
    let text = chars_of(prerelease);
    let dot = find_char(&text, '.', 0);
    let kind = string_of(&slice_of(&text, 0, dot));
    let number = if dot < text.len() {
        let end = find_char(&text, '.', dot + 1);
        match parse_u64(&slice_of(&text, dot + 1, end)) {
            Some(n) => n,
            None => 0,
        }
    } else {
        0
    };
    Some((kind, number))
}

/// The pre-release that follows `current` for the kind `target`: the kind
/// alone where there was no pre-release; the next number where the kind is
/// the same and has a number; else the kind with the number 1.
pub open spec fn next_prerelease(current: Option<Seq<char>>, target: Seq<char>) -> Seq<char> {
    match current {
        Some(pre) => if prerelease_kind(pre) == target && prerelease_number(pre) > 0 {
            target + "."@ + decimal((prerelease_number(pre) + 1) as nat)
        } else {
            target + ".1"@
        },
        None => target,
    }
}

/// The pre-release that follows `current` can be told: its number is not
/// beyond 64 bits.
pub open spec fn next_prerelease_fits(current: Option<Seq<char>>, target: Seq<char>) -> bool {
    match current {
        Some(pre) => !(prerelease_kind(pre) == target && prerelease_number(pre) == u64::MAX),
        None => true,
    }
}

/// What an optional text is, as a view.
pub open spec fn text_view(text: Option<&String>) -> Option<Seq<char>> {
    match text {
        Some(t) => Some(t@),
        None => None,
    }
}

/// Whether the pre-release that follows `current` can be told.
pub fn prerelease_fits(current: Option<&String>, target_type: &str) -> (fits: bool)
    ensures
        fits == next_prerelease_fits(text_view(current), target_type@),
{
    match current {
        Some(pre) => {
            let (kind, number) = match parse_prerelease(pre.as_str()) {
                Some(parts) => parts,
                None => {
                    return true;
                },
            };
            !(same_chars(&chars_of(kind.as_str()), &chars_of(target_type)) && number == u64::MAX)
        },
        None => true,
    }
}

/// The pre-release that follows `current` for the kind `target_type`.
pub fn get_next_prerelease(current: Option<&String>, target_type: &str) -> (next: String)
    requires
        next_prerelease_fits(text_view(current), target_type@),
    ensures
        next@ == next_prerelease(text_view(current), target_type@),
{
    let mut next = chars_of(target_type);
    match current {
        Some(pre) => {
            let (kind, number) = match parse_prerelease(pre.as_str()) {
                Some(parts) => parts,
                None => {
                    return target_type.to_string();
                },
            };
            if same_chars(&chars_of(kind.as_str()), &next) && number > 0 {
                append_chars(&mut next, &chars_of("."));
                push_decimal(&mut next, number + 1);
            } else {
                append_chars(&mut next, &chars_of(".1"));
            }
        },
        None => {},
    }
    string_of(&next)
}

/// The text of a version: its three numbers with `.` between them, and
/// its pre-release behind a `-` where it has one.
pub open spec fn version_text(version: VersionView) -> Seq<char> {
    let numbers = decimal(version.major as nat) + "."@ + decimal(version.minor as nat) + "."@
        + decimal(version.patch as nat);
    match version.prerelease {
        Some(pre) => numbers + "-"@ + pre,
        None => numbers,
    }
}

/// The text of a version, such as `0.1.2` or `0.1.2-alpha`.
pub fn version_to_string(version: &Version) -> (text: String)
    ensures
        text@ == version_text(version@),
{
    let mut text: Vec<char> = Vec::new();
    push_decimal(&mut text, version.major);
    append_chars(&mut text, &chars_of("."));
    push_decimal(&mut text, version.minor);
    append_chars(&mut text, &chars_of("."));
    push_decimal(&mut text, version.patch);
    assert(text@ =~= decimal(version.major as nat) + "."@ + decimal(version.minor as nat) + "."@
        + decimal(version.patch as nat));
    match &version.prerelease {
        Some(pre) => {
            append_chars(&mut text, &chars_of("-"));
            append_chars(&mut text, &chars_of(pre.as_str()));
        },
        None => {},
    }
    string_of(&text)
}

/// The name of the pre-release kind that a bump asks for, if it asks for
/// one.
pub open spec fn prerelease_target(bump_type: BumpVersionType) -> Option<Seq<char>> {
    match bump_type {
        BumpVersionType::Alpha => Some("alpha"@),
        BumpVersionType::Beta => Some("beta"@),
        BumpVersionType::Rc => Some("rc"@),
        _ => None,
    }
}

/// The version after a bump. A bump of a number sets the numbers behind
/// it to zero and drops the pre-release; a release drops the pre-release;
/// a pre-release bump keeps the numbers.
pub open spec fn bumped(version: VersionView, bump_type: BumpVersionType) -> VersionView {
    match bump_type {
        BumpVersionType::Patch => VersionView {
            patch: (version.patch + 1) as u64,
            prerelease: None,
            ..version
        },
        BumpVersionType::Minor => VersionView {
            minor: (version.minor + 1) as u64,
            patch: 0,
            prerelease: None,
            ..version
        },
        BumpVersionType::Major => VersionView {
            major: (version.major + 1) as u64,
            minor: 0,
            patch: 0,
            prerelease: None,
        },
        BumpVersionType::Release => VersionView { prerelease: None, ..version },
        _ => VersionView {
            prerelease: Some(
                next_prerelease(version.prerelease, prerelease_target(bump_type).unwrap()),
            ),
            ..version
        },
    }
}

/// The bump stays within 64 bits: the number that it raises is not the
/// largest one.
pub open spec fn bump_fits(version: VersionView, bump_type: BumpVersionType) -> bool {
    match bump_type {
        BumpVersionType::Patch => version.patch < u64::MAX,
        BumpVersionType::Minor => version.minor < u64::MAX,
        BumpVersionType::Major => version.major < u64::MAX,
        BumpVersionType::Release => true,
        _ => next_prerelease_fits(version.prerelease, prerelease_target(bump_type).unwrap()),
    }
}

/// Whether the bump stays within 64 bits.
pub fn can_bump(version: &Version, bump_type: BumpVersionType) -> (fits: bool)
    ensures
        fits == bump_fits(version@, bump_type),
{
    match bump_type {
        BumpVersionType::Patch => version.patch < u64::MAX,
        BumpVersionType::Minor => version.minor < u64::MAX,
        BumpVersionType::Major => version.major < u64::MAX,
        BumpVersionType::Release => true,
        BumpVersionType::Alpha => prerelease_fits(version.prerelease.as_ref(), "alpha"),
        BumpVersionType::Beta => prerelease_fits(version.prerelease.as_ref(), "beta"),
        BumpVersionType::Rc => prerelease_fits(version.prerelease.as_ref(), "rc"),
    }
}

/// The version after a bump.
pub fn bump_version(version: &Version, bump_type: BumpVersionType) -> (next: Version)
    requires
        bump_fits(version@, bump_type),
    ensures
        next@ == bumped(version@, bump_type),
{
    match bump_type {
        BumpVersionType::Patch => Version {
            major: version.major,
            minor: version.minor,
            patch: version.patch + 1,
            prerelease: None,
        },
        BumpVersionType::Minor => Version {
            major: version.major,
            minor: version.minor + 1,
            patch: 0,
            prerelease: None,
        },
        BumpVersionType::Major => Version {
            major: version.major + 1,
            minor: 0,
            patch: 0,
            prerelease: None,
        },
        BumpVersionType::Release => Version {
            major: version.major,
            minor: version.minor,
            patch: version.patch,
            prerelease: None,
        },
        BumpVersionType::Alpha => Version {
            major: version.major,
            minor: version.minor,
            patch: version.patch,
            prerelease: Some(get_next_prerelease(version.prerelease.as_ref(), "alpha")),
        },
        BumpVersionType::Beta => Version {
            major: version.major,
            minor: version.minor,
            patch: version.patch,
            prerelease: Some(get_next_prerelease(version.prerelease.as_ref(), "beta")),
        },
        BumpVersionType::Rc => Version {
            major: version.major,
            minor: version.minor,
            patch: version.patch,
            prerelease: Some(get_next_prerelease(version.prerelease.as_ref(), "rc")),
        },
    }
}

} // verus!
