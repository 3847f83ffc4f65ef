//! Scaffolding of components: which kinds there are, how they are named,
//! and which files each kind is made of.

pub mod files;

use vstd::prelude::*;
use vstd::std_specs::convert::FromSpecImpl;
use crate::io_error::io_error_text;
use crate::text::{join2, join3, lowercase, to_lowercase};

verus! {

/// The kinds of component that can be generated.
#[derive(Clone, Copy, Debug, PartialEq, Eq, Structural)]
pub enum TemplateType {
    /// Handles requests.
    Controller,
    /// Holds business logic.
    Domain,
    /// Holds error handling.
    Exception,
    /// Transforms data.
    Mapper,
    /// Holds data structures.
    Model,
    /// Reaches stored data.
    Repository,
    /// Holds business services.
    Service,
    /// Holds helper functions.
    Utils,
    /// Presents data.
    View,
}

/// The kinds of model.
#[derive(Clone, Copy, Debug, PartialEq, Eq, Structural)]
pub enum ModelSubType {
    /// For inner use.
    Application,
    /// For what comes in.
    Request,
    /// For what goes out.
    Response,
}

/// Why a component could not be generated.
#[derive(Clone, Debug, PartialEq, Eq)]
pub enum TemplateError {
    /// A file or directory could not be read or written; the text says why.
    IoError(String),
    /// The text names no kind of component.
    InvalidTemplateType(String),
    /// The text names no kind of model, or none was given.
    InvalidModelSubType(String),
    /// The directory of the component is there already.
    DirectoryExists(String),
}

impl TemplateError {
    /// The message of the error.
    pub open spec fn message(self) -> Seq<char> {
        match self {
            TemplateError::IoError(text) => "IO error: "@ + text@,
            TemplateError::InvalidTemplateType(text) => "Invalid template type: "@ + text@,
            TemplateError::InvalidModelSubType(text) => "Invalid model subtype: "@ + text@,
            TemplateError::DirectoryExists(text) => "Directory '"@ + text@ + "' already exists"@,
        }
    }

    /// The message of the error.
    pub fn to_string(&self) -> (text: String)
        ensures
            text@ == self.message(),
    {
        match self {
            TemplateError::IoError(text) => join2("IO error: ", text.as_str()),
            TemplateError::InvalidTemplateType(text) => join2(
                "Invalid template type: ",
                text.as_str(),
            ),
            TemplateError::InvalidModelSubType(text) => join2(
                "Invalid model subtype: ",
                text.as_str(),
            ),
            TemplateError::DirectoryExists(text) => join3(
                "Directory '",
                text.as_str(),
                "' already exists",
            ),
        }
    }
}

impl From<std::io::Error> for TemplateError {
    /// An input or output failure as an error of this kind, with the text
    /// that the failure shows for itself.
    fn from(error: std::io::Error) -> (converted: TemplateError)
        ensures
            converted is IoError,
    {
        TemplateError::IoError(io_error_text(&error))
    }
}

impl FromSpecImpl<std::io::Error> for TemplateError {
    /// The converted error holds a text that only running tells.
    open spec fn obeys_from_spec() -> bool {
        false
    }

    open spec fn from_spec(error: std::io::Error) -> TemplateError {
        arbitrary()
    }
}

/// The name of the directory that holds the components of a kind.
pub open spec fn directory_name(template_type: TemplateType) -> Seq<char> {
    match template_type {
        TemplateType::Controller => "controller"@,
        TemplateType::Domain => "domain"@,
        TemplateType::Exception => "exception"@,
        TemplateType::Mapper => "mapper"@,
        TemplateType::Model => "model"@,
        TemplateType::Repository => "repository"@,
        TemplateType::Service => "service"@,
        TemplateType::Utils => "utils"@,
        TemplateType::View => "view"@,
    }
}

/// The name of the directory that holds the components of a kind.
pub fn get_directory_name(template_type: &TemplateType) -> (name: String)
    ensures
        name@ == directory_name(*template_type),
{
    match template_type {
        TemplateType::Controller => "controller".to_string(),
        TemplateType::Domain => "domain".to_string(),
        TemplateType::Exception => "exception".to_string(),
        TemplateType::Mapper => "mapper".to_string(),
        TemplateType::Model => "model".to_string(),
        TemplateType::Repository => "repository".to_string(),
        TemplateType::Service => "service".to_string(),
        TemplateType::Utils => "utils".to_string(),
        TemplateType::View => "view".to_string(),
    }
}

/// The name of the directory that holds the models of a kind.
pub open spec fn model_sub_type_name(sub_type: ModelSubType) -> Seq<char> {
    match sub_type {
        ModelSubType::Application => "application"@,
        ModelSubType::Request => "request"@,
        ModelSubType::Response => "response"@,
    }
}

/// The name of the directory that holds the models of a kind.
pub fn get_model_sub_type_name(sub_type: &ModelSubType) -> (name: String)
    ensures
        name@ == model_sub_type_name(*sub_type),
{
    match sub_type {
        ModelSubType::Application => "application".to_string(),
        ModelSubType::Request => "request".to_string(),
        ModelSubType::Response => "response".to_string(),
    }
}

/// The kind of component that a lowercase text names.
pub open spec fn template_type_named(lowered: Seq<char>) -> Option<TemplateType> {
    if lowered == "controller"@ {
        Some(TemplateType::Controller)
    } else if lowered == "domain"@ {
        Some(TemplateType::Domain)
    } else if lowered == "exception"@ {
        Some(TemplateType::Exception)
    } else if lowered == "mapper"@ {
        Some(TemplateType::Mapper)
    } else if lowered == "model"@ {
        Some(TemplateType::Model)
    } else if lowered == "repository"@ {
        Some(TemplateType::Repository)
    } else if lowered == "service"@ {
        Some(TemplateType::Service)
    } else if lowered == "utils"@ {
        Some(TemplateType::Utils)
    } else if lowered == "view"@ {
        Some(TemplateType::View)
    } else {
        None
    }
}

/// The kind of model that a lowercase text names.
pub open spec fn model_sub_type_named(lowered: Seq<char>) -> Option<ModelSubType> {
    if lowered == "application"@ {
        Some(ModelSubType::Application)
    } else if lowered == "request"@ {
        Some(ModelSubType::Request)
    } else if lowered == "response"@ {
        Some(ModelSubType::Response)
    } else {
        None
    }
}

/// Whether `text` is the text `wanted`.
fn is_text(text: &String, wanted: &str) -> (same: bool)
    ensures
        same == (text@ == wanted@),
{
    *text == wanted.to_string()
}

/// The kind of component that the lowercase text `lowered` names.
pub fn template_type_of(lowered: &String) -> (found: Option<TemplateType>)
    ensures
        found == template_type_named(lowered@),
{
    if is_text(lowered, "controller") {
        Some(TemplateType::Controller)
    } else if is_text(lowered, "domain") {
        Some(TemplateType::Domain)
    } else if is_text(lowered, "exception") {
        Some(TemplateType::Exception)
    } else if is_text(lowered, "mapper") {
        Some(TemplateType::Mapper)
    } else if is_text(lowered, "model") {
        Some(TemplateType::Model)
    } else if is_text(lowered, "repository") {
        Some(TemplateType::Repository)
    } else if is_text(lowered, "service") {
        Some(TemplateType::Service)
    } else if is_text(lowered, "utils") {
        Some(TemplateType::Utils)
    } else if is_text(lowered, "view") {
        Some(TemplateType::View)
    } else {
        None
    }
}

/// The kind of model that the lowercase text `lowered` names.
pub fn model_sub_type_of(lowered: &String) -> (found: Option<ModelSubType>)
    ensures
        found == model_sub_type_named(lowered@),
{
    if is_text(lowered, "application") {
        Some(ModelSubType::Application)
    } else if is_text(lowered, "request") {
        Some(ModelSubType::Request)
    } else if is_text(lowered, "response") {
        Some(ModelSubType::Response)
    } else {
        None
    }
}

impl TemplateType {
    /// The kind of component that `s` names, whatever its case. A text
    /// that names none is handed back in the error.
    pub fn from_str(s: &str) -> (r: Result<TemplateType, TemplateError>)
        ensures
            match r {
                Ok(found) => template_type_named(lowercase(s@)) == Some(found),
                Err(e) => template_type_named(lowercase(s@)) is None && e is InvalidTemplateType
                    && e->InvalidTemplateType_0@ == s@,
            },
    {
        let lowered = to_lowercase(s);
        match template_type_of(&lowered) {
            Some(found) => Ok(found),
            None => Err(TemplateError::InvalidTemplateType(s.to_string())),
        }
    }
}

impl ModelSubType {
    /// The kind of model that `s` names, whatever its case. A text that
    /// names none is handed back in the error.
    pub fn from_str(s: &str) -> (r: Result<ModelSubType, TemplateError>)
        ensures
            match r {
                Ok(found) => model_sub_type_named(lowercase(s@)) == Some(found),
                Err(e) => model_sub_type_named(lowercase(s@)) is None && e is InvalidModelSubType
                    && e->InvalidModelSubType_0@ == s@,
            },
    {
        let lowered = to_lowercase(s);
        match model_sub_type_of(&lowered) {
            Some(found) => Ok(found),
            None => Err(TemplateError::InvalidModelSubType(s.to_string())),
        }
    }
}

/// What is to be generated.
#[derive(Clone, Debug)]
pub struct TemplateConfig {
    /// The kind of component.
    pub template_type: TemplateType,
    /// The name of the component.
    pub component_name: String,
    /// The kind of model, for a model.
    pub model_sub_type: Option<ModelSubType>,
    /// The directory under which components are generated.
    pub base_directory: String,
}

impl TemplateConfig {
    /// A configuration that generates under `./application`.
    pub fn new(
        template_type: TemplateType,
        component_name: String,
        model_sub_type: Option<ModelSubType>,
    ) -> (config: TemplateConfig)
        ensures
            config.template_type == template_type,
            config.component_name == component_name,
            config.model_sub_type == model_sub_type,
            config.base_directory@ == "./application"@,
    {
        TemplateConfig {
            template_type,
            component_name,
            model_sub_type,
            base_directory: "./application".to_string(),
        }
    }
}

} // verus!
