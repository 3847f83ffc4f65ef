use hyperlane_cli::{
    DirectoryEntry, ManifestValue, MemberSearch, PublishError, directory_of, expand_pattern,
    extract_local_dependencies, is_local_dependency, member_directories, package_from_document,
    parse_document, read_package_manifest, read_single_package, topological_sort,
    workspace_members,
};

const FULL: &str = r#"
[package]
name = "app"
version = "1.2.3"

[dependencies]
serde = "1"
core = { path = "../core" }
shared = { workspace = true }
pinned = { version = "2", workspace = false }

[dev-dependencies]
helper = { path = "../helper" }
core = { path = "../core" }

[build-dependencies]
gen = { workspace = true }
"#;

#[test]
fn manifest_gives_name_version_and_directory() {
    let package = read_package_manifest(FULL, "crates/app/Cargo.toml").unwrap();
    assert_eq!(package.name, "app");
    assert_eq!(package.version, "1.2.3");
    assert_eq!(package.path, "crates/app");
}

#[test]
fn local_dependencies_are_those_with_path_or_workspace() {
    let package = read_package_manifest(FULL, "Cargo.toml").unwrap();
    assert_eq!(package.local_dependencies, vec!["core", "shared", "helper", "gen"]);
}

#[test]
fn dependency_in_two_tables_counts_once() {
    let package = read_package_manifest(FULL, "Cargo.toml").unwrap();
    let count = package.local_dependencies.iter().filter(|d| d.as_str() == "core").count();
    assert_eq!(count, 1);
}

#[test]
fn manifest_at_the_root_lies_in_the_current_directory() {
    let package = read_package_manifest(FULL, "Cargo.toml").unwrap();
    assert_eq!(package.path, ".");
    assert_eq!(directory_of("Cargo.toml"), ".");
    assert_eq!(directory_of("a/b/Cargo.toml"), "a/b");
    assert_eq!(directory_of("/Cargo.toml"), "/");
    assert_eq!(directory_of(""), ".");
}

#[test]
fn text_that_is_no_document_is_a_parse_error() {
    assert_eq!(
        read_package_manifest("[package\nname = ", "Cargo.toml"),
        Err(PublishError::ManifestParseError)
    );
    assert!(parse_document("= nothing").is_none());
}

#[test]
fn manifest_without_package_table_is_a_parse_error() {
    assert_eq!(
        read_package_manifest("[workspace]\nmembers = []\n", "Cargo.toml"),
        Err(PublishError::ManifestParseError)
    );
}

#[test]
fn manifest_without_name_or_version_is_a_parse_error() {
    assert_eq!(
        read_package_manifest("[package]\nversion = \"1.0.0\"\n", "Cargo.toml"),
        Err(PublishError::ManifestParseError)
    );
    assert_eq!(
        read_package_manifest("[package]\nname = \"x\"\n", "Cargo.toml"),
        Err(PublishError::ManifestParseError)
    );
}

#[test]
fn name_that_is_no_string_is_a_parse_error() {
    assert_eq!(
        read_package_manifest("[package]\nname = 3\nversion = \"1.0.0\"\n", "Cargo.toml"),
        Err(PublishError::ManifestParseError)
    );
}

#[test]
fn single_package_is_read_like_any_manifest() {
    let content = "[package]\nname = \"solo\"\nversion = \"0.1.0\"\n";
    let package = read_single_package(content, "Cargo.toml").unwrap();
    assert_eq!(package.name, "solo");
    assert!(package.local_dependencies.is_empty());
    assert_eq!(read_package_manifest(content, "Cargo.toml").unwrap(), package);
}

#[test]
fn workspace_without_member_list_is_one_package_and_its_own_order() {
    let content = "[package]\nname = \"solo\"\nversion = \"0.1.0\"\n";
    let document = parse_document(content).unwrap();
    assert_eq!(workspace_members(&document), None);
    let package = read_single_package(content, "Cargo.toml").unwrap();
    let order = topological_sort(&[package.clone()]).unwrap();
    assert_eq!(order, vec![package]);
}

#[test]
fn reading_twice_gives_the_same_package() {
    let first = read_package_manifest(FULL, "crates/app/Cargo.toml").unwrap();
    let second = read_package_manifest(FULL, "crates/app/Cargo.toml").unwrap();
    assert_eq!(first, second);
}

#[test]
fn members_are_the_strings_of_the_list() {
    let document =
        parse_document("[workspace]\nmembers = [\"crates/*\", \"tools/cli\"]\n").unwrap();
    assert_eq!(
        workspace_members(&document),
        Some(vec!["crates/*".to_string(), "tools/cli".to_string()])
    );
}

#[test]
fn members_that_are_no_strings_are_passed_over() {
    let document = ManifestValue::Table(vec![(
        "workspace".to_string(),
        ManifestValue::Table(vec![(
            "members".to_string(),
            ManifestValue::Array(vec![
                ManifestValue::Text("a".to_string()),
                ManifestValue::Integer(3),
                ManifestValue::Text("b".to_string()),
            ]),
        )]),
    )]);
    assert_eq!(workspace_members(&document), Some(vec!["a".to_string(), "b".to_string()]));
}

#[test]
fn workspace_with_empty_list_has_no_members() {
    let document = parse_document("[workspace]\nmembers = []\n").unwrap();
    assert_eq!(workspace_members(&document), Some(Vec::new()));
}

#[test]
fn workspace_table_without_members_has_no_list() {
    let document = parse_document("[workspace]\nresolver = \"2\"\n").unwrap();
    assert_eq!(workspace_members(&document), None);
    let document = parse_document("[workspace]\nmembers = \"crates\"\n").unwrap();
    assert_eq!(workspace_members(&document), None);
}

#[test]
fn wildcard_looks_under_the_parent() {
    match expand_pattern("crates/*") {
        MemberSearch::Subdirectories(parent) => assert_eq!(parent, "crates"),
        other => panic!("unexpected search {other:?}"),
    }
    match expand_pattern("*") {
        MemberSearch::Subdirectories(parent) => assert_eq!(parent, ""),
        other => panic!("unexpected search {other:?}"),
    }
}

#[test]
fn plain_pattern_names_one_directory() {
    match expand_pattern("tools/cli") {
        MemberSearch::Directory(path) => assert_eq!(path, "tools/cli"),
        other => panic!("unexpected search {other:?}"),
    }
}

#[test]
fn directories_without_manifest_are_passed_over() {
    let entries = vec![
        DirectoryEntry { path: "crates/a".to_string(), is_directory: true, has_manifest: true },
        DirectoryEntry { path: "crates/docs".to_string(), is_directory: true, has_manifest: false },
        DirectoryEntry { path: "crates/b".to_string(), is_directory: true, has_manifest: true },
    ];
    assert_eq!(member_directories(&entries), vec!["crates/a", "crates/b"]);
}

#[test]
fn files_are_no_member_directories() {
    let entries = vec![
        DirectoryEntry { path: "crates/README".to_string(), is_directory: false, has_manifest: false },
        DirectoryEntry { path: "crates/odd".to_string(), is_directory: false, has_manifest: true },
    ];
    assert!(member_directories(&entries).is_empty());
    assert!(member_directories(&Vec::new()).is_empty());
}

#[test]
fn bare_version_is_no_local_dependency() {
    assert!(!is_local_dependency(&ManifestValue::Text("1.0".to_string())));
    assert!(!is_local_dependency(&ManifestValue::Boolean(true)));
    assert!(!is_local_dependency(&ManifestValue::Table(Vec::new())));
}

#[test]
fn path_or_true_workspace_flag_makes_a_dependency_local() {
    let with_path =
        ManifestValue::Table(vec![("path".to_string(), ManifestValue::Text("../x".to_string()))]);
    let inherited =
        ManifestValue::Table(vec![("workspace".to_string(), ManifestValue::Boolean(true))]);
    let declined =
        ManifestValue::Table(vec![("workspace".to_string(), ManifestValue::Boolean(false))]);
    let odd =
        ManifestValue::Table(vec![("workspace".to_string(), ManifestValue::Text("yes".to_string()))]);
    assert!(is_local_dependency(&with_path));
    assert!(is_local_dependency(&inherited));
    assert!(!is_local_dependency(&declined));
    assert!(!is_local_dependency(&odd));
}

#[test]
fn document_is_copied_into_values() {
    let document = parse_document("name = \"x\"\ncount = 3\nflag = true\nlist = [1, 2]\n").unwrap();
    assert_eq!(document.get("name").and_then(|v| v.as_str()), Some(&"x".to_string()));
    assert!(matches!(document.get("count"), Some(ManifestValue::Integer(3))));
    assert_eq!(document.get("flag").and_then(|v| v.as_bool()), Some(true));
    assert_eq!(document.get("list").and_then(|v| v.as_array()).map(|a| a.len()), Some(2));
    assert!(document.get("missing").is_none());
    assert!(document.as_table().is_some());
}

#[test]
fn package_is_read_from_a_document_built_by_hand() {
    let document = ManifestValue::Table(vec![
        (
            "package".to_string(),
            ManifestValue::Table(vec![
                ("name".to_string(), ManifestValue::Text("made".to_string())),
                ("version".to_string(), ManifestValue::Text("0.0.1".to_string())),
            ]),
        ),
        (
            "dependencies".to_string(),
            ManifestValue::Table(vec![(
                "near".to_string(),
                ManifestValue::Table(vec![(
                    "path".to_string(),
                    ManifestValue::Text("../near".to_string()),
                )]),
            )]),
        ),
    ]);
    let package = package_from_document(&document, "somewhere".to_string()).unwrap();
    assert_eq!(package.name, "made");
    assert_eq!(package.path, "somewhere");
    assert_eq!(package.local_dependencies, vec!["near"]);
    assert_eq!(
        extract_local_dependencies(&document, "somewhere/Cargo.toml"),
        Ok(vec!["near".to_string()])
    );
}

#[test]
fn entry_holds_a_package_if_it_is_a_directory_with_a_manifest() {
    let entry = |is_directory, has_manifest| DirectoryEntry {
        path: "x".to_string(),
        is_directory,
        has_manifest,
    };
    assert!(entry(true, true).holds_package());
    assert!(!entry(true, false).holds_package());
    assert!(!entry(false, true).holds_package());
    assert!(!entry(false, false).holds_package());
}
