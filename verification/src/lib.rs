//! Tooling for a monorepo of interdependent packages: reading manifests,
//! ordering packages so that dependencies are published first, and driving
//! each publish attempt with bounded retries; beside it, the smaller
//! helpers of the command line.

pub mod bump;
pub mod command;
pub mod config;
pub mod decimal;
pub mod fmt;
pub mod io_error;
pub mod new;
pub mod publish;
pub mod template;
pub mod text;

pub use bump::manifest::{BumpError, BumpedManifest, execute_bump, find_version_position};
pub use bump::{
    BumpVersionType,
    Version,
    bump_version,
    can_bump,
    get_next_prerelease,
    parse_prerelease,
    parse_version,
    prerelease_fits,
    version_to_string,
};
pub use command::CommandType;
pub use config::{Args, parse_args};
pub use fmt::{format_derive_content, sort_derive_content, sort_derive_in_line};
pub use new::{NewError, NewProjectConfig, validate_project_name};
pub use publish::discover::{
    DirectoryEntry,
    MemberSearch,
    expand_pattern,
    member_directories,
    workspace_members,
};
pub use publish::document::{ManifestValue, parse_document};
pub use publish::executor::{PublishRun, all_succeeded, backoff_seconds, count_failures};
pub use publish::manifest::{
    directory_of,
    extract_local_dependencies,
    is_local_dependency,
    package_from_document,
    read_package_manifest,
    read_single_package,
};
pub use publish::order::{find_package, names_are_distinct, publish_order, topological_sort};
pub use publish::package::{Package, PublishError, PublishResult};
pub use template::files::{
    TemplateFile,
    TemplatePlan,
    create_controller_template,
    create_domain_template,
    create_exception_template,
    create_mapper_template,
    create_model_template,
    create_repository_template,
    create_service_template,
    create_utils_template,
    create_view_template,
    files_for,
    plan_template,
    write_empty_mod_rs,
    write_mod_rs,
};
pub use template::{
    ModelSubType,
    TemplateConfig,
    TemplateError,
    TemplateType,
    get_directory_name,
    get_model_sub_type_name,
};
