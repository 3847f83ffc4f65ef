use hyperlane_cli::{NewError, PublishError, validate_project_name};

fn fault(name: &str) -> Option<String> {
    match validate_project_name(name) {
        Ok(()) => None,
        Err(NewError::InvalidName(text)) => Some(text),
        Err(other) => panic!("unexpected error {other:?}"),
    }
}

#[test]
fn plain_names_are_fine() {
    for name in ["app", "my-app", "my_app", "a.b", "x-", "2fast", "名前"] {
        assert_eq!(fault(name), None, "{name}");
    }
}

#[test]
fn empty_name_is_refused() {
    assert_eq!(fault(""), Some("Project name cannot be empty".to_string()));
}

#[test]
fn path_characters_are_refused() {
    for name in ["a/b", "a\\b", "c:", "/", ".:", "-/x"] {
        assert_eq!(fault(name), Some("Project name contains invalid characters".to_string()), "{name}");
    }
}

#[test]
fn leading_dot_or_dash_is_refused() {
    for name in [".hidden", "-flag", ".", "-"] {
        assert_eq!(fault(name), Some("Project name cannot start with '.' or '-'".to_string()), "{name}");
    }
}

#[test]
fn new_errors_have_their_messages() {
    assert_eq!(NewError::GitNotFound.to_string(), "Git is not installed or not found in PATH");
    assert_eq!(
        NewError::ProjectExists("app".to_string()).to_string(),
        "Project directory 'app' already exists"
    );
    assert_eq!(NewError::CloneFailed("denied".to_string()).to_string(), "Git clone failed: denied");
    assert_eq!(NewError::InvalidName("bad".to_string()).to_string(), "Invalid project name: bad");
    assert_eq!(NewError::IoError("gone".to_string()).to_string(), "IO error: gone");
}

#[test]
fn publish_errors_have_their_messages() {
    assert_eq!(PublishError::ManifestParseError.to_string(), "Failed to parse Cargo.toml");
    assert_eq!(PublishError::CircularDependency.to_string(), "Circular dependency detected");
    assert_eq!(PublishError::IoError("gone".to_string()).to_string(), "IO error: gone");
}

#[test]
fn io_failures_keep_their_text() {
    let failure = std::io::Error::new(std::io::ErrorKind::Other, "pipe broke");
    assert_eq!(NewError::from(failure), NewError::IoError("pipe broke".to_string()));
    let failure = std::io::Error::new(std::io::ErrorKind::Other, "pipe broke");
    assert_eq!(PublishError::from(failure), PublishError::IoError("pipe broke".to_string()));
}
