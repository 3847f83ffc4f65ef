//! Creating a project from the template repository: the name check and
//! the configuration.

use vstd::prelude::*;
use vstd::std_specs::convert::FromSpecImpl;
use crate::io_error::io_error_text;
use crate::text::{chars_of, join2, join3};

verus! {

/// Why a project could not be created.
#[derive(Clone, Debug, PartialEq, Eq)]
pub enum NewError {
    /// A file or directory could not be read or written; the text says why.
    IoError(String),
    /// No git was found to run.
    GitNotFound,
    /// The directory of the project is there already.
    ProjectExists(String),
    /// Cloning failed; the text is what git said.
    CloneFailed(String),
    /// The name cannot be the name of a project; the text says why.
    InvalidName(String),
}

impl NewError {
    /// The message of the error.
    pub open spec fn message(self) -> Seq<char> {
        match self {
            NewError::IoError(text) => "IO error: "@ + text@,
            NewError::GitNotFound => "Git is not installed or not found in PATH"@,
            NewError::ProjectExists(text) => "Project directory '"@ + text@ + "' already exists"@,
            NewError::CloneFailed(text) => "Git clone failed: "@ + text@,
            NewError::InvalidName(text) => "Invalid project name: "@ + text@,
        }
    }

    /// The message of the error.
    pub fn to_string(&self) -> (text: String)
        ensures
            text@ == self.message(),
    {
        match self {
            NewError::IoError(text) => join2("IO error: ", text.as_str()),
            NewError::GitNotFound => "Git is not installed or not found in PATH".to_string(),
            NewError::ProjectExists(text) => join3(
                "Project directory '",
                text.as_str(),
                "' already exists",
            ),
            NewError::CloneFailed(text) => join2("Git clone failed: ", text.as_str()),
            NewError::InvalidName(text) => join2("Invalid project name: ", text.as_str()),
        }
    }
}

impl From<std::io::Error> for NewError {
    /// An input or output failure as an error of this kind, with the text
    /// that the failure shows for itself.
    fn from(error: std::io::Error) -> (converted: NewError)
        ensures
            converted is IoError,
    {
        NewError::IoError(io_error_text(&error))
    }
}

impl FromSpecImpl<std::io::Error> for NewError {
    /// The converted error holds a text that only running tells.
    open spec fn obeys_from_spec() -> bool {
        false
    }

    open spec fn from_spec(error: std::io::Error) -> NewError {
        arbitrary()
    }
}

/// The name holds a character that separates parts of a path.
pub open spec fn has_path_character(name: Seq<char>) -> bool {
    name.contains('/') || name.contains('\\') || name.contains(':')
}

/// Why `name` cannot be the name of a project, if it cannot: it is empty,
/// or holds `/`, `\` or `:`, or begins with `.` or `-`.
pub open spec fn name_fault(name: Seq<char>) -> Option<Seq<char>> {
    if name.len() == 0 {
        Some("Project name cannot be empty"@)
    } else if has_path_character(name) {
        Some("Project name contains invalid characters"@)
    } else if name[0] == '.' || name[0] == '-' {
        Some("Project name cannot start with '.' or '-'"@)
    } else {
        None
    }
}

/// Checks that `name` can be the name of a project.
pub fn validate_project_name(name: &str) -> (r: Result<(), NewError>)
    ensures
        match r {
            Ok(_) => name_fault(name@) is None,
            Err(e) => e is InvalidName && name_fault(name@) == Some(e->InvalidName_0@),
        },
{
    let chars = chars_of(name);
    if chars.len() == 0 {
        return Err(NewError::InvalidName("Project name cannot be empty".to_string()));
    }
    let mut i: usize = 0;
    while i < chars.len()
        invariant
            i <= chars.len(),
            chars@ == name@,
            forall|k: int| 0 <= k < i ==> chars[k] != '/' && chars[k] != '\\' && chars[k] != ':',
        decreases chars.len() - i,
    {
        if chars[i] == '/' || chars[i] == '\\' || chars[i] == ':' {
            return Err(
                NewError::InvalidName("Project name contains invalid characters".to_string()),
            );
        }
        i += 1;
    }
    if chars[0] == '.' || chars[0] == '-' {
        return Err(NewError::InvalidName("Project name cannot start with '.' or '-'".to_string()));
    }
    Ok(())
}

/// What is to be created.
#[derive(Clone, Debug)]
pub struct NewProjectConfig {
    /// The name of the project.
    pub project_name: String,
    /// Where the template is cloned from.
    pub template_url: String,
}

impl NewProjectConfig {
    /// A configuration that clones the standard template.
    pub fn new(project_name: String) -> (config: NewProjectConfig)
        ensures
            config.project_name == project_name,
            config.template_url@ == "https://github.com/hyperlane-dev/hyperlane-quick-start"@,
    {
        NewProjectConfig {
            project_name,
            template_url: "https://github.com/hyperlane-dev/hyperlane-quick-start".to_string(),
        }
    }
}

} // verus!
