//! The records that the publish pipeline passes along.

use vstd::prelude::*;
use vstd::std_specs::convert::FromSpecImpl;
use crate::io_error::io_error_text;
use crate::text::join2;

verus! {

/// The texts held by a list of strings, in order.
pub open spec fn texts(v: Seq<String>) -> Seq<Seq<char>> {
    Seq::new(v.len(), |i: int| v[i]@)
}

/// One package of the workspace.
#[derive(Clone, Debug, Eq, PartialEq)]
pub struct Package {
    /// Name by which other packages refer to this one.
    pub name: String,
    /// Version, shown to the user and never compared.
    pub version: String,
    /// Directory that holds the package's manifest.
    pub path: String,
    /// Names of the dependencies that are resolved inside the workspace.
    pub local_dependencies: Vec<String>,
}

/// What a `Package` holds, as mathematical values.
pub struct PackageView {
    pub name: Seq<char>,
    pub version: Seq<char>,
    pub path: Seq<char>,
    pub local_dependencies: Seq<Seq<char>>,
}

impl View for Package {
    type V = PackageView;

    open spec fn view(&self) -> PackageView {
        PackageView {
            name: self.name@,
            version: self.version@,
            path: self.path@,
            local_dependencies: texts(self.local_dependencies@),
        }
    }
}

/// The views of a list of packages, in order.
pub open spec fn package_views(v: Seq<Package>) -> Seq<PackageView> {
    Seq::new(v.len(), |i: int| v[i]@)
}

impl Package {
    /// A copy that holds the same texts.
    pub fn duplicate(&self) -> (copy: Package)
        ensures
            copy@ == self@,
    {
        let mut deps: Vec<String> = Vec::new();
        let mut i: usize = 0;
        while i < self.local_dependencies.len()
            invariant
                i <= self.local_dependencies.len(),
                deps.len() == i,
                forall|k: int| 0 <= k < i ==> deps[k]@ == self.local_dependencies[k]@,
            decreases self.local_dependencies.len() - i,
        {
            deps.push(self.local_dependencies[i].clone());
            i += 1;
        }
        let copy = Package {
            name: self.name.clone(),
            version: self.version.clone(),
            path: self.path.clone(),
            local_dependencies: deps,
        };
        assert(texts(copy.local_dependencies@) =~= texts(self.local_dependencies@));
        copy
    }
}

/// Outcome of publishing one package.
#[derive(Clone, Debug)]
pub struct PublishResult {
    /// Name of the package.
    pub package_name: String,
    /// Whether an attempt succeeded.
    pub success: bool,
    /// Diagnostic text of the last failed attempt, when none succeeded.
    pub error: Option<String>,
    /// Number of retries that were made.
    pub retries: u32,
}

/// What a `PublishResult` holds, as mathematical values.
pub struct PublishResultView {
    pub package_name: Seq<char>,
    pub success: bool,
    pub error: Option<Seq<char>>,
    pub retries: u32,
}

impl View for PublishResult {
    type V = PublishResultView;

    open spec fn view(&self) -> PublishResultView {
        PublishResultView {
            package_name: self.package_name@,
            success: self.success,
            error: match self.error {
                Some(text) => Some(text@),
                None => None,
            },
            retries: self.retries,
        }
    }
}

/// Why a publish run could not start.
#[derive(Clone, Debug, PartialEq, Eq)]
pub enum PublishError {
    /// The manifest is not valid or lacks a required field.
    ManifestParseError,
    /// The local dependencies form a cycle.
    CircularDependency,
    /// A manifest could not be read; the text says why.
    IoError(String),
}

impl PublishError {
    /// The message of the error.
    pub open spec fn message(self) -> Seq<char> {
        match self {
            PublishError::ManifestParseError => "Failed to parse Cargo.toml"@,
            PublishError::CircularDependency => "Circular dependency detected"@,
            PublishError::IoError(text) => "IO error: "@ + text@,
        }
    }

    /// The message of the error.
    pub fn to_string(&self) -> (text: String)
        ensures
            text@ == self.message(),
    {
        match self {
            PublishError::ManifestParseError => "Failed to parse Cargo.toml".to_string(),
            PublishError::CircularDependency => "Circular dependency detected".to_string(),
            PublishError::IoError(text) => join2("IO error: ", text.as_str()),
        }
    }
}

impl From<std::io::Error> for PublishError {
    /// An input or output failure as an error of this kind, with the text
    /// that the failure shows for itself.
    fn from(error: std::io::Error) -> (converted: PublishError)
        ensures
            converted is IoError,
    {
        PublishError::IoError(io_error_text(&error))
    }
}

impl FromSpecImpl<std::io::Error> for PublishError {
    /// The converted error holds a text that only running tells.
    open spec fn obeys_from_spec() -> bool {
        false
    }

    open spec fn from_spec(error: std::io::Error) -> PublishError {
        arbitrary()
    }
}

} // verus!
