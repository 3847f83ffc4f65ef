//! The commands of the tool.

use vstd::prelude::*;

verus! {

/// What the tool is asked to do.
#[derive(Clone, Copy, Debug, PartialEq, Eq, Structural)]
pub enum CommandType {
    /// Format the code.
    Fmt,
    /// Watch the files and run on change.
    Watch,
    /// Bump the version in the manifest.
    Bump,
    /// Publish the packages of the workspace.
    Publish,
    /// Create a project from the template.
    New,
    /// Generate a component.
    Template,
    /// Show the help.
    Help,
    /// Show the version.
    Version,
}

} // verus!
