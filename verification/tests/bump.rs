use hyperlane_cli::{
    BumpError, BumpVersionType, Version, bump_version, can_bump, execute_bump,
    find_version_position, get_next_prerelease, parse_prerelease, parse_version, prerelease_fits,
    version_to_string,
};

fn manifest(version: &str) -> String {
    format!("[package]\nname = \"test-package\"\nversion = \"{version}\"\nedition = \"2024\"\n")
}

#[test]
fn test_execute_bump_integration() {
    let content = manifest("0.1.0");
    let result = execute_bump(&content, BumpVersionType::Patch);
    assert!(result.is_ok());
    let bumped = result.unwrap();
    assert_eq!(bumped.version, "0.1.1");
    assert!(bumped.content.contains("version = \"0.1.1\""));
}

#[test]
fn test_execute_bump_minor() {
    let result = execute_bump(&manifest("0.1.0"), BumpVersionType::Minor);
    assert!(result.is_ok());
    assert_eq!(result.unwrap().version, "0.2.0");
}

#[test]
fn test_execute_bump_major() {
    let result = execute_bump(&manifest("0.1.0"), BumpVersionType::Major);
    assert!(result.is_ok());
    assert_eq!(result.unwrap().version, "1.0.0");
}

#[test]
fn test_execute_bump_alpha() {
    let result = execute_bump(&manifest("0.1.0"), BumpVersionType::Alpha);
    assert!(result.is_ok());
    assert_eq!(result.unwrap().version, "0.1.0-alpha");
}

#[test]
fn test_execute_bump_beta() {
    let result = execute_bump(&manifest("0.1.0-alpha.2"), BumpVersionType::Beta);
    assert!(result.is_ok());
    assert_eq!(result.unwrap().version, "0.1.0-beta.1");
}

#[test]
fn test_execute_bump_rc() {
    let result = execute_bump(&manifest("0.1.0-beta.1"), BumpVersionType::Rc);
    assert!(result.is_ok());
    assert_eq!(result.unwrap().version, "0.1.0-rc.1");
}

#[test]
fn test_execute_bump_release() {
    let result = execute_bump(&manifest("0.1.0-alpha"), BumpVersionType::Release);
    assert!(result.is_ok());
    assert_eq!(result.unwrap().version, "0.1.0");
}

#[test]
fn test_execute_bump_no_version_field() {
    let content = "[package]\nname = \"test-package\"\nedition = \"2024\"\n";
    let result = execute_bump(content, BumpVersionType::Patch);
    assert!(result.is_err());
    assert_eq!(result, Err(BumpError::VersionNotFound));
}

#[test]
fn bump_rewrites_only_the_version() {
    let bumped = execute_bump(&manifest("0.9.9"), BumpVersionType::Minor).unwrap();
    assert_eq!(bumped.content, manifest("0.10.0"));
}

#[test]
fn bump_takes_the_first_line_that_writes_a_version() {
    let content = "version = \"not a version\"\nversion = \"1.0.0\"\nversion = \"2.0.0\"\n";
    let bumped = execute_bump(content, BumpVersionType::Patch).unwrap();
    assert_eq!(bumped.version, "1.0.1");
    assert_eq!(
        bumped.content,
        "version = \"not a version\"\nversion = \"1.0.1\"\nversion = \"2.0.0\"\n"
    );
}

#[test]
fn bump_replaces_the_first_place_where_the_line_stands() {
    let content = "# version = \"1.0.0\"\nversion = \"1.0.0\"\n";
    let bumped = execute_bump(content, BumpVersionType::Patch).unwrap();
    assert_eq!(bumped.content, "# version = \"1.0.1\"\nversion = \"1.0.0\"\n");
}

#[test]
fn bump_keeps_carriage_returns() {
    let content = "[package]\r\nversion = \"1.0.0\"\r\n";
    let bumped = execute_bump(content, BumpVersionType::Major).unwrap();
    assert_eq!(bumped.content, "[package]\r\nversion = \"2.0.0\"\r\n");
}

#[test]
fn bump_reads_a_last_line_without_line_feed() {
    let bumped = execute_bump("  version=\"0.0.9\"", BumpVersionType::Patch).unwrap();
    assert_eq!(bumped.content, "  version=\"0.0.10\"");
}

#[test]
fn bump_beyond_the_largest_number_is_refused() {
    let content = manifest("0.0.18446744073709551615");
    assert_eq!(execute_bump(&content, BumpVersionType::Patch), Err(BumpError::VersionTooLarge));
    assert!(execute_bump(&content, BumpVersionType::Minor).is_ok());
    assert_eq!(
        BumpError::VersionTooLarge.to_string(),
        "failed to bump version"
    );
    assert_eq!(
        BumpError::VersionNotFound.to_string(),
        "version field not found in Cargo.toml"
    );
}

#[test]
fn empty_manifest_has_no_version() {
    assert_eq!(execute_bump("", BumpVersionType::Patch), Err(BumpError::VersionNotFound));
    assert_eq!(execute_bump("\n\n", BumpVersionType::Patch), Err(BumpError::VersionNotFound));
}

#[test]
fn version_is_parsed_into_its_parts() {
    assert_eq!(
        parse_version("0.1.2"),
        Some(Version { major: 0, minor: 1, patch: 2, prerelease: None })
    );
    assert_eq!(
        parse_version("10.20.30-rc.1"),
        Some(Version { major: 10, minor: 20, patch: 30, prerelease: Some("rc.1".to_string()) })
    );
    assert_eq!(
        parse_version("1.2.3-alpha-extra"),
        Some(Version { major: 1, minor: 2, patch: 3, prerelease: Some("alpha".to_string()) })
    );
    assert_eq!(
        parse_version("1.2.3-"),
        Some(Version { major: 1, minor: 2, patch: 3, prerelease: Some(String::new()) })
    );
    assert_eq!(
        parse_version("+1.02.3"),
        Some(Version { major: 1, minor: 2, patch: 3, prerelease: None })
    );
}

#[test]
fn version_with_wrong_shape_is_none() {
    for text in ["", "1", "1.2", "1.2.3.4", "a.b.c", "1..3", "1.2.x", "-1.2.3", "1.2.3 ", "1.2.18446744073709551616"] {
        assert_eq!(parse_version(text), None, "{text}");
    }
}

#[test]
fn largest_number_is_parsed() {
    assert_eq!(
        parse_version("18446744073709551615.0.0").map(|v| v.major),
        Some(u64::MAX)
    );
}

#[test]
fn version_text_is_read_back() {
    for text in ["0.0.0", "1.2.3", "7.0.13-beta.2", "18446744073709551615.1.0"] {
        let version = parse_version(text).unwrap();
        assert_eq!(version_to_string(&version), text);
    }
}

#[test]
fn prerelease_has_kind_and_number() {
    assert_eq!(parse_prerelease("alpha"), Some(("alpha".to_string(), 0)));
    assert_eq!(parse_prerelease("alpha.1"), Some(("alpha".to_string(), 1)));
    assert_eq!(parse_prerelease("beta.22.9"), Some(("beta".to_string(), 22)));
    assert_eq!(parse_prerelease("rc.x"), Some(("rc".to_string(), 0)));
    assert_eq!(parse_prerelease(""), Some((String::new(), 0)));
}

#[test]
fn next_prerelease_counts_up_within_a_kind() {
    assert_eq!(get_next_prerelease(None, "alpha"), "alpha");
    assert_eq!(get_next_prerelease(Some(&"alpha".to_string()), "alpha"), "alpha.1");
    assert_eq!(get_next_prerelease(Some(&"alpha.1".to_string()), "alpha"), "alpha.2");
    assert_eq!(get_next_prerelease(Some(&"alpha.9".to_string()), "alpha"), "alpha.10");
    assert_eq!(get_next_prerelease(Some(&"alpha.2".to_string()), "beta"), "beta.1");
    assert_eq!(get_next_prerelease(Some(&"beta.1".to_string()), "rc"), "rc.1");
}

#[test]
fn prerelease_with_the_largest_number_does_not_fit() {
    let largest = "alpha.18446744073709551615".to_string();
    assert!(!prerelease_fits(Some(&largest), "alpha"));
    assert!(prerelease_fits(Some(&largest), "beta"));
    assert!(prerelease_fits(None, "alpha"));
}

#[test]
fn bump_of_a_number_resets_what_follows() {
    let version = Version { major: 1, minor: 2, patch: 3, prerelease: Some("rc.1".to_string()) };
    assert_eq!(
        bump_version(&version, BumpVersionType::Patch),
        Version { major: 1, minor: 2, patch: 4, prerelease: None }
    );
    assert_eq!(
        bump_version(&version, BumpVersionType::Minor),
        Version { major: 1, minor: 3, patch: 0, prerelease: None }
    );
    assert_eq!(
        bump_version(&version, BumpVersionType::Major),
        Version { major: 2, minor: 0, patch: 0, prerelease: None }
    );
    assert_eq!(
        bump_version(&version, BumpVersionType::Release),
        Version { major: 1, minor: 2, patch: 3, prerelease: None }
    );
    assert_eq!(
        bump_version(&version, BumpVersionType::Rc),
        Version { major: 1, minor: 2, patch: 3, prerelease: Some("rc.2".to_string()) }
    );
}

#[test]
fn can_bump_tells_the_largest_numbers() {
    let version = Version { major: u64::MAX, minor: 0, patch: 0, prerelease: None };
    assert!(!can_bump(&version, BumpVersionType::Major));
    assert!(can_bump(&version, BumpVersionType::Minor));
    assert!(can_bump(&version, BumpVersionType::Alpha));
}

#[test]
fn version_position_is_between_the_quotes() {
    assert_eq!(find_version_position("version = \"0.1.0\""), Some((11, 16)));
    assert_eq!(find_version_position("  version=\"1\" # \"x\""), Some((11, 12)));
    assert_eq!(find_version_position("version = \"\""), Some((11, 11)));
}

#[test]
fn line_without_version_has_no_position() {
    for line in ["", "name = \"x\"", "version", "version = 1", "version = \"1", "# version = \"1\"", "   "] {
        assert_eq!(find_version_position(line), None, "{line}");
    }
}
