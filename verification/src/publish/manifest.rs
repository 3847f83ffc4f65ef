//! Reading a package and the members of a workspace out of a manifest
//! document.

use vstd::prelude::*;
use crate::publish::document::{ManifestValue, parse_document, toml_document};
use crate::publish::package::{Package, PackageView, PublishError, texts};

verus! {

/// The parent of a path as `std::path::Path::parent` gives it: the path
/// without its last component, `None` where the path ends in a root or is
/// empty. The path is taken by its text and by the path rules of the
/// platform; no file system is looked at.
pub uninterp spec fn path_parent(path: Seq<char>) -> Option<Seq<char>>;

/// Calls `std::path::Path::parent`. The contract claims that the result is
/// that parent, which depends on the text of the path alone.
#[verifier::external_body]
pub(crate) fn parent_of(path: &str) -> (parent: Option<String>)
    ensures
        match parent {
            Some(text) => path_parent(path@) == Some(text@),
            None => path_parent(path@) is None,
        },
{
    std::path::Path::new(path).parent().and_then(|p| p.to_str()).map(|s| s.to_string())
}

/// The directory of the package whose manifest is at `manifest_path`: the
/// parent of the path, or `.` where that parent is empty or missing.
pub open spec fn package_directory(manifest_path: Seq<char>) -> Seq<char> {
    match path_parent(manifest_path) {
        Some(parent) => if parent.len() > 0 {
            parent
        } else {
            "."@
        },
        None => "."@,
    }
}

/// Whether a dependency entry is resolved inside the workspace: a table
/// that gives a path, or that sets `workspace` to true.
pub open spec fn is_local(value: ManifestValue) -> bool {
    value is Table && (value.lookup("path"@) is Some || value.lookup("workspace"@) == Some(
        ManifestValue::Boolean(true),
    ))
}

/// `names`, with the keys of the local entries of `entries` put behind it
/// in order, each only where it is not there yet.
pub open spec fn add_local_names(names: Seq<Seq<char>>, entries: Seq<(String, ManifestValue)>) -> Seq<
    Seq<char>,
>
    decreases entries.len(),
{
    if entries.len() == 0 {
        names
    } else {
        let earlier = add_local_names(names, entries.drop_last());
        let (key, value) = entries.last();
        if is_local(value) && !earlier.contains(key@) {
            earlier.push(key@)
        } else {
            earlier
        }
    }
}

/// The entries of the table that `doc` holds under `section`.
pub open spec fn section_entries(doc: ManifestValue, section: Seq<char>) -> Seq<
    (String, ManifestValue),
> {
    match doc.lookup(section) {
        Some(table) => table.entries(),
        None => Seq::empty(),
    }
}

/// The names of the local dependencies of a manifest: those of its
/// dependencies, then of its dev-dependencies, then of its
/// build-dependencies, each name once.
pub open spec fn local_dependencies_of(doc: ManifestValue) -> Seq<Seq<char>> {
    add_local_names(
        add_local_names(
            add_local_names(Seq::empty(), section_entries(doc, "dependencies"@)),
            section_entries(doc, "dev-dependencies"@),
        ),
        section_entries(doc, "build-dependencies"@),
    )
}

/// Some entry of `entries` is local and has the key `name`.
pub open spec fn names_local_entry(entries: Seq<(String, ManifestValue)>, name: Seq<char>) -> bool {
    exists|i: int| 0 <= i < entries.len() && #[trigger] entries[i].0@ == name && is_local(entries[i].1)
}

/// Adding the local names of a table keeps names distinct, and adds
/// exactly the keys of its local entries.
pub proof fn lemma_add_local_names(names: Seq<Seq<char>>, entries: Seq<(String, ManifestValue)>)
    requires
        names.no_duplicates(),
    ensures
        add_local_names(names, entries).no_duplicates(),
        forall|name: Seq<char>|
            add_local_names(names, entries).contains(name) <==> names.contains(name)
                || names_local_entry(entries, name),
    decreases entries.len(),
{
    let result = add_local_names(names, entries);
    if entries.len() == 0 {
        assert forall|name: Seq<char>| !names_local_entry(entries, name) by {}
    } else {
        let shorter = entries.drop_last();
        let earlier = add_local_names(names, shorter);
        lemma_add_local_names(names, shorter);
        let (key, value) = entries.last();
        assert forall|name: Seq<char>|
            result.contains(name) <==> names.contains(name) || names_local_entry(
                entries,
                name,
            ) by {
            if names_local_entry(shorter, name) {
                let i = choose|i: int|
                    0 <= i < shorter.len() && #[trigger] shorter[i].0@ == name && is_local(
                        shorter[i].1,
                    );
                assert(entries[i].0@ == name && is_local(entries[i].1));
            }
            if names_local_entry(entries, name) {
                let i = choose|i: int|
                    0 <= i < entries.len() && #[trigger] entries[i].0@ == name && is_local(
                        entries[i].1,
                    );
                if i < shorter.len() {
                    assert(shorter[i].0@ == name && is_local(shorter[i].1));
                }
            }
            if is_local(value) && !earlier.contains(key@) {
                assert(result == earlier.push(key@));
                if earlier.contains(name) {
                    let at = choose|i: int| 0 <= i < earlier.len() && earlier[i] == name;
                    assert(result[at] == name);
                }
                if name == key@ {
                    assert(result[result.len() - 1] == name);
                    assert(entries[entries.len() - 1].0@ == name);
                }
                if result.contains(name) {
                    let at = choose|i: int| 0 <= i < result.len() && result[i] == name;
                    if at < earlier.len() {
                        assert(earlier[at] == name);
                    }
                }
            } else {
                if name == key@ && is_local(value) {
                    assert(entries[entries.len() - 1].0@ == name);
                }
            }
        }
        if is_local(value) && !earlier.contains(key@) {
            assert forall|i: int, j: int|
                0 <= i < result.len() && 0 <= j < result.len() && i != j implies result[i]
                != result[j] by {
                if i < earlier.len() && j < earlier.len() {
                    assert(earlier[i] != earlier[j]);
                } else if i < earlier.len() {
                    assert(earlier.contains(earlier[i]));
                } else {
                    assert(earlier.contains(earlier[j]));
                }
            }
        }
    }
}

/// The local dependencies of a manifest are distinct names, and a name is
/// among them exactly when one of the three dependency tables has a local
/// entry under it.
pub proof fn lemma_local_dependencies(doc: ManifestValue)
    ensures
        local_dependencies_of(doc).no_duplicates(),
        forall|name: Seq<char>|
            local_dependencies_of(doc).contains(name) <==> names_local_entry(
                section_entries(doc, "dependencies"@),
                name,
            ) || names_local_entry(section_entries(doc, "dev-dependencies"@), name)
                || names_local_entry(section_entries(doc, "build-dependencies"@), name),
{
    let normal = section_entries(doc, "dependencies"@);
    let dev = section_entries(doc, "dev-dependencies"@);
    let build = section_entries(doc, "build-dependencies"@);
    let first = add_local_names(Seq::empty(), normal);
    let second = add_local_names(first, dev);
    lemma_add_local_names(Seq::empty(), normal);
    lemma_add_local_names(first, dev);
    lemma_add_local_names(second, build);
    assert forall|name: Seq<char>| !Seq::<Seq<char>>::empty().contains(name) by {}
}

/// The text that `table` holds under `key`, where it holds a string there.
pub open spec fn text_at(table: ManifestValue, key: Seq<char>) -> Option<Seq<char>> {
    match table.lookup(key) {
        Some(value) => value.text(),
        None => None,
    }
}

/// The package that a manifest describes, for the directory it lies in. A
/// manifest without a `package` table, or whose `package` table lacks a
/// string `name` or a string `version`, describes none.
pub open spec fn package_of(doc: ManifestValue, directory: Seq<char>) -> Result<
    PackageView,
    PublishError,
> {
    match doc.lookup("package"@) {
        Some(table) => match (text_at(table, "name"@), text_at(table, "version"@)) {
            (Some(name), Some(version)) => Ok(
                PackageView {
                    name,
                    version,
                    path: directory,
                    local_dependencies: local_dependencies_of(doc),
                },
            ),
            _ => Err(PublishError::ManifestParseError),
        },
        None => Err(PublishError::ManifestParseError),
    }
}

/// The package that the text of a manifest describes. A text that is no
/// valid document describes none.
pub open spec fn package_of_text(content: Seq<char>, manifest_path: Seq<char>) -> Result<
    PackageView,
    PublishError,
> {
    match toml_document(content) {
        Some(doc) => package_of(doc, package_directory(manifest_path)),
        None => Err(PublishError::ManifestParseError),
    }
}

/// What a package read from a manifest is, as a view.
pub open spec fn read_view(r: Result<Package, PublishError>) -> Result<PackageView, PublishError> {
    match r {
        Ok(package) => Ok(package@),
        Err(e) => Err(e),
    }
}

/// Whether `names` holds the text of `name`.
fn holds_name(names: &Vec<String>, name: &String) -> (found: bool)
    ensures
        found == texts(names@).contains(name@),
{
    let mut i: usize = 0;
    while i < names.len()
        invariant
            i <= names.len(),
            forall|k: int| 0 <= k < i ==> texts(names@)[k] != name@,
        decreases names.len() - i,
    {
        if names[i] == *name {
            assert(texts(names@)[i as int] == name@);
            return true;
        }
        i += 1;
    }
    false
}

/// Whether a dependency entry is resolved inside the workspace.
pub fn is_local_dependency(value: &ManifestValue) -> (local: bool)
    ensures
        local == is_local(*value),
{
    match value {
        ManifestValue::Table(_) => {
            if value.get("path").is_some() {
                return true;
            }
            match value.get("workspace") {
                Some(flag) => match flag.as_bool() {
                    Some(b) => b,
                    None => false,
                },
                None => false,
            }
        },
        _ => false,
    }
}

/// Puts the keys of the local entries of the table under `section` behind
/// `names`, each only where it is not there yet.
fn add_section(names: &mut Vec<String>, doc: &ManifestValue, section: &str)
    ensures
        texts(final(names)@) == add_local_names(texts(old(names)@), section_entries(*doc, section@)),
{
    let ghost start = texts(names@);
    let ghost all = section_entries(*doc, section@);
    let table = match doc.get(section) {
        Some(value) => value,
        None => {
            return ;
        },
    };
    let entries = match table.as_table() {
        Some(entries) => entries,
        None => {
            return ;
        },
    };
    assert(all == entries@);
    let mut i: usize = 0;
    assert(entries@.take(0) =~= Seq::empty());
    while i < entries.len()
        invariant
            i <= entries.len(),
            all == entries@,
            texts(names@) == add_local_names(start, all.take(i as int)),
        decreases entries.len() - i,
    {
        assert(all.take(i + 1).drop_last() =~= all.take(i as int));
        assert(all.take(i + 1).last() == entries[i as int]);
        if is_local_dependency(&entries[i].1) && !holds_name(names, &entries[i].0) {
            let ghost before = texts(names@);
            names.push(entries[i].0.clone());
            assert(texts(names@) =~= before.push(entries[i as int].0@));
        }
        i += 1;
    }
    assert(all.take(i as int) =~= all);
}

/// The names of the dependencies of a manifest that are resolved inside
/// the workspace: each name once, in the order of the dependencies, the
/// dev-dependencies and the build-dependencies. Never fails; the path of
/// the manifest plays no part.
pub fn extract_local_dependencies(doc: &ManifestValue, _manifest_path: &str) -> (r: Result<
    Vec<String>,
    PublishError,
>)
    ensures
        r matches Ok(names) && texts(names@) == local_dependencies_of(*doc),
{
    let mut names: Vec<String> = Vec::new();
    assert(texts(names@) =~= Seq::empty());
    add_section(&mut names, doc, "dependencies");
    add_section(&mut names, doc, "dev-dependencies");
    add_section(&mut names, doc, "build-dependencies");
    Ok(names)
}

/// The directory of the package whose manifest is at `manifest_path`.
pub fn directory_of(manifest_path: &str) -> (directory: String)
    ensures
        directory@ == package_directory(manifest_path@),
{
    match parent_of(manifest_path) {
        Some(parent) => {
            if parent.as_str().unicode_len() > 0 {
                parent
            } else {
                ".".to_string()
            }
        },
        None => ".".to_string(),
    }
}

/// The package that `doc` describes, lying in `directory`.
pub fn package_from_document(doc: &ManifestValue, directory: String) -> (r: Result<
    Package,
    PublishError,
>)
    ensures
        read_view(r) == package_of(*doc, directory@),
{
    let table = match doc.get("package") {
        Some(table) => table,
        None => {
            return Err(PublishError::ManifestParseError);
        },
    };
    let name = match table.get("name") {
        Some(value) => match value.as_str() {
            Some(text) => text.clone(),
            None => {
                return Err(PublishError::ManifestParseError);
            },
        },
        None => {
            return Err(PublishError::ManifestParseError);
        },
    };
    let version = match table.get("version") {
        Some(value) => match value.as_str() {
            Some(text) => text.clone(),
            None => {
                return Err(PublishError::ManifestParseError);
            },
        },
        None => {
            return Err(PublishError::ManifestParseError);
        },
    };
    let local_dependencies = match extract_local_dependencies(doc, directory.as_str()) {
        Ok(names) => names,
        Err(e) => {
            return Err(e);
        },
    };
    Ok(Package { name, version, path: directory, local_dependencies })
}

/// The package that the manifest text `content`, found at `manifest_path`,
/// describes.
///
/// Fails with `ManifestParseError` where the text is no valid document or
/// the document lacks the `package` table, its `name` or its `version`.
pub fn read_package_manifest(content: &str, manifest_path: &str) -> (r: Result<
    Package,
    PublishError,
>)
    ensures
        read_view(r) == package_of_text(content@, manifest_path@),
{
    match parse_document(content) {
        Some(doc) => package_from_document(&doc, directory_of(manifest_path)),
        None => Err(PublishError::ManifestParseError),
    }
}

/// The package of a manifest that stands alone, outside any workspace.
pub fn read_single_package(content: &str, manifest_path: &str) -> (r: Result<Package, PublishError>)
    ensures
        read_view(r) == package_of_text(content@, manifest_path@),
{
    read_package_manifest(content, manifest_path)
}

} // verus!
