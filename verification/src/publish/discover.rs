//! Finding the packages of a workspace: which member patterns the root
//! manifest lists, where each pattern is to be looked up, and which of the
//! directories found hold a package.

use vstd::prelude::*;
use crate::publish::document::ManifestValue;
use crate::publish::manifest::{parent_of, path_parent};
use crate::publish::package::texts;
use crate::text::{chars_of, holds_char};

verus! {

/// `texts`, with the text of `item` behind it where `item` is a string.
pub open spec fn add_text(texts: Seq<Seq<char>>, item: ManifestValue) -> Seq<Seq<char>> {
    match item.text() {
        Some(text) => texts.push(text),
        None => texts,
    }
}

/// The texts of the strings among `items`, in order.
pub open spec fn string_items(items: Seq<ManifestValue>) -> Seq<Seq<char>>
    decreases items.len(),
{
    if items.len() == 0 {
        Seq::empty()
    } else {
        add_text(string_items(items.drop_last()), items.last())
    }
}

/// The member patterns of a root manifest: the strings of the array
/// `members` of its table `workspace`. `None` where there is no such
/// array, so that the manifest stands for a single package.
pub open spec fn members_of(doc: ManifestValue) -> Option<Seq<Seq<char>>> {
    match doc.lookup("workspace"@) {
        Some(workspace) => match workspace.lookup("members"@) {
            Some(ManifestValue::Array(items)) => Some(string_items(items@)),
            _ => None,
        },
        None => None,
    }
}

/// What `workspace_members` found, as texts.
pub open spec fn members_view(members: Option<Vec<String>>) -> Option<Seq<Seq<char>>> {
    match members {
        Some(patterns) => Some(texts(patterns@)),
        None => None,
    }
}

/// The member patterns of a root manifest, in the order of its list; `None`
/// where it has no member list.
pub fn workspace_members(doc: &ManifestValue) -> (members: Option<Vec<String>>)
    ensures
        members_view(members) == members_of(*doc),
{
    let workspace = match doc.get("workspace") {
        Some(workspace) => workspace,
        None => {
            return None;
        },
    };
    let list = match workspace.get("members") {
        Some(list) => list,
        None => {
            return None;
        },
    };
    let items = match list.as_array() {
        Some(items) => items,
        None => {
            return None;
        },
    };
    let mut patterns: Vec<String> = Vec::new();
    let mut i: usize = 0;
    assert(items@.take(0) =~= Seq::empty());
    assert(texts(patterns@) =~= Seq::empty());
    while i < items.len()
        invariant
            i <= items.len(),
            texts(patterns@) == string_items(items@.take(i as int)),
        decreases items.len() - i,
    {
        assert(items@.take(i + 1).drop_last() =~= items@.take(i as int));
        assert(items@.take(i + 1).last() == items[i as int]);
        match items[i].as_str() {
            Some(text) => {
                let ghost before = texts(patterns@);
                patterns.push(text.clone());
                assert(texts(patterns@) =~= before.push(text@));
            },
            None => {},
        }
        i += 1;
    }
    assert(items@.take(i as int) =~= items@);
    Some(patterns)
}

/// Where the packages of a member pattern are looked up, relative to the
/// directory of the root manifest.
#[derive(Debug)]
pub enum MemberSearch {
    /// Every directory directly under this one.
    Subdirectories(String),
    /// This directory alone.
    Directory(String),
}

/// A member search as texts.
pub enum MemberSearchView {
    Subdirectories(Seq<char>),
    Directory(Seq<char>),
}

impl View for MemberSearch {
    type V = MemberSearchView;

    open spec fn view(&self) -> MemberSearchView {
        match self {
            MemberSearch::Subdirectories(parent) => MemberSearchView::Subdirectories(parent@),
            MemberSearch::Directory(path) => MemberSearchView::Directory(path@),
        }
    }
}

/// The search for a member pattern. A pattern with a `*` stands for the
/// directories directly under its parent, or under `.` where it has no
/// parent; any other pattern names one directory.
pub open spec fn member_search(pattern: Seq<char>) -> MemberSearchView {
    if pattern.contains('*') {
        MemberSearchView::Subdirectories(
            match path_parent(pattern) {
                Some(parent) => parent,
                None => "."@,
            },
        )
    } else {
        MemberSearchView::Directory(pattern)
    }
}

/// The search for a member pattern.
pub fn expand_pattern(pattern: &str) -> (search: MemberSearch)
    ensures
        search@ == member_search(pattern@),
{
    let chars = chars_of(pattern);
    if holds_char(&chars, '*') {
        match parent_of(pattern) {
            Some(parent) => MemberSearch::Subdirectories(parent),
            None => MemberSearch::Subdirectories(".".to_string()),
        }
    } else {
        MemberSearch::Directory(pattern.to_string())
    }
}

/// What was found under the name `path` while a member search listed a
/// directory.
#[derive(Clone, Debug, PartialEq, Eq)]
pub struct DirectoryEntry {
    /// The path of the entry.
    pub path: String,
    /// Whether the entry is a directory.
    pub is_directory: bool,
    /// Whether a manifest lies directly in it.
    pub has_manifest: bool,
}

/// The entry is a directory with a manifest in it.
pub open spec fn bears_package(entry: DirectoryEntry) -> bool {
    entry.is_directory && entry.has_manifest
}

impl DirectoryEntry {
    /// Whether the entry is a directory with a manifest in it.
    pub fn holds_package(&self) -> (holds: bool)
        ensures
            holds == bears_package(*self),
    {
        self.is_directory && self.has_manifest
    }
}

/// The paths of the entries that bear a package, in the order of the
/// listing. The others are passed over.
pub open spec fn package_directories(entries: Seq<DirectoryEntry>) -> Seq<Seq<char>>
    decreases entries.len(),
{
    if entries.len() == 0 {
        Seq::empty()
    } else {
        let earlier = package_directories(entries.drop_last());
        if bears_package(entries.last()) {
            earlier.push(entries.last().path@)
        } else {
            earlier
        }
    }
}

/// The directories of a listing that hold a package. An entry that is no
/// directory, or has no manifest in it, is passed over without an error.
pub fn member_directories(entries: &Vec<DirectoryEntry>) -> (found: Vec<String>)
    ensures
        texts(found@) == package_directories(entries@),
{
    let mut found: Vec<String> = Vec::new();
    let mut i: usize = 0;
    assert(entries@.take(0) =~= Seq::empty());
    assert(texts(found@) =~= Seq::empty());
    while i < entries.len()
        invariant
            i <= entries.len(),
            texts(found@) == package_directories(entries@.take(i as int)),
        decreases entries.len() - i,
    {
        assert(entries@.take(i + 1).drop_last() =~= entries@.take(i as int));
        assert(entries@.take(i + 1).last() == entries[i as int]);
        if entries[i].holds_package() {
            let ghost before = texts(found@);
            found.push(entries[i].path.clone());
            assert(texts(found@) =~= before.push(entries[i as int].path@));
        }
        i += 1;
    }
    assert(entries@.take(i as int) =~= entries@);
    found
}

} // verus!
