//! The files that a generated component is made of.

use vstd::prelude::*;
use crate::template::{
    ModelSubType,
    TemplateConfig,
    TemplateError,
    TemplateType,
    get_model_sub_type_name,
    model_sub_type_name,
};
use crate::text::{append_chars, chars_of, has_prefix, same_chars, slice_of, starts_with, string_of};

verus! {

/// The texts of a list of string slices, in order.
pub open spec fn slice_texts(v: Seq<&str>) -> Seq<Seq<char>> {
    Seq::new(v.len(), |i: int| v[i]@)
}

/// The name under which a module is declared: with `r#` before it, unless
/// it has that already.
pub open spec fn module_name(module: Seq<char>) -> Seq<char> {
    if has_prefix(module, "r#"@) {
        module
    } else {
        "r#"@ + module
    }
}

/// The name of a module without a leading `r#`.
pub open spec fn plain_name(module: Seq<char>) -> Seq<char> {
    if has_prefix(module, "r#"@) {
        module.subrange("r#"@.len() as int, module.len() as int)
    } else {
        module
    }
}

/// What a module contributes to the `pub use` line: itself for `const`,
/// `static` and `struct`, all its items for `enum` and `fn`, else nothing.
pub open spec fn use_part(module: Seq<char>) -> Option<Seq<char>> {
    let plain = plain_name(module);
    if plain == "const"@ || plain == "static"@ || plain == "struct"@ {
        Some(module_name(module))
    } else if plain == "enum"@ || plain == "fn"@ {
        Some(module_name(module) + "::*"@)
    } else {
        None
    }
}

/// One `mod` line for each module.
pub open spec fn declarations(modules: Seq<Seq<char>>) -> Seq<char>
    decreases modules.len(),
{
    if modules.len() == 0 {
        Seq::empty()
    } else {
        declarations(modules.drop_last()) + "mod "@ + module_name(modules.last()) + ";\n"@
    }
}

/// The parts of the `pub use` line, separated by `, `.
pub open spec fn use_list(modules: Seq<Seq<char>>) -> Seq<char>
    decreases modules.len(),
{
    if modules.len() == 0 {
        Seq::empty()
    } else {
        let earlier = use_list(modules.drop_last());
        match use_part(modules.last()) {
            Some(part) => if earlier.len() == 0 {
                part
            } else {
                earlier + ", "@ + part
            },
            None => earlier,
        }
    }
}

/// The text of a `mod.rs` that declares `modules`: the `mod` lines, an
/// empty line, the `pub use` line where any module contributes to it, an
/// empty line, and the import of the parent.
pub open spec fn mod_rs_text(modules: Seq<Seq<char>>) -> Seq<char> {
    declarations(modules) + "\n"@ + (if use_list(modules).len() > 0 {
        "pub use {"@ + use_list(modules) + "};\n"@
    } else {
        Seq::empty()
    }) + "\n"@ + "use super::*;\n"@
}

/// The name under which `module` is declared.
fn module_name_of(module: &Vec<char>) -> (name: Vec<char>)
    ensures
        name@ == module_name(module@),
{
    let marker = chars_of("r#");
    if starts_with(module, &marker) {
        slice_of(module, 0, module.len())
    } else {
        let mut name = marker;
        append_chars(&mut name, module);
        name
    }
}

/// What `module` contributes to the `pub use` line.
fn use_part_of(module: &Vec<char>) -> (part: Option<Vec<char>>)
    ensures
        match part {
            Some(text) => use_part(module@) == Some(text@),
            None => use_part(module@) is None,
        },
{
    let marker = chars_of("r#");
    let plain = if starts_with(module, &marker) {
        slice_of(module, marker.len(), module.len())
    } else {
        slice_of(module, 0, module.len())
    };
    assert(plain@ == plain_name(module@));
    if same_chars(&plain, &chars_of("const")) || same_chars(&plain, &chars_of("static"))
        || same_chars(&plain, &chars_of("struct")) {
        Some(module_name_of(module))
    } else if same_chars(&plain, &chars_of("enum")) || same_chars(&plain, &chars_of("fn")) {
        let mut part = module_name_of(module);
        append_chars(&mut part, &chars_of("::*"));
        Some(part)
    } else {
        None
    }
}

/// The text of a `mod.rs` that declares `modules`.
pub fn write_mod_rs(modules: &[&str]) -> (content: String)
    ensures
        content@ == mod_rs_text(slice_texts(modules@)),
{
    let ghost names = slice_texts(modules@);
    let mut lines: Vec<char> = Vec::new();
    let mut list: Vec<char> = Vec::new();
    let mut i: usize = 0;
    assert(names.take(0) =~= Seq::empty());
    while i < modules.len()
        invariant
            i <= modules.len(),
            names == slice_texts(modules@),
            lines@ == declarations(names.take(i as int)),
            list@ == use_list(names.take(i as int)),
        decreases modules.len() - i,
    {
        assert(names.take(i + 1).drop_last() =~= names.take(i as int));
        assert(names.take(i + 1).last() == modules[i as int]@);
        let module = chars_of(modules[i]);
        append_chars(&mut lines, &chars_of("mod "));
        append_chars(&mut lines, &module_name_of(&module));
        append_chars(&mut lines, &chars_of(";\n"));
        match use_part_of(&module) {
            Some(part) => {
                if list.len() == 0 {
                    list = part;
                } else {
                    append_chars(&mut list, &chars_of(", "));
                    append_chars(&mut list, &part);
                }
            },
            None => {},
        }
        i += 1;
    }
    assert(names.take(i as int) =~= names);
    let mut content = lines;
    append_chars(&mut content, &chars_of("\n"));
    if list.len() > 0 {
        append_chars(&mut content, &chars_of("pub use {"));
        append_chars(&mut content, &list);
        append_chars(&mut content, &chars_of("};\n"));
    } else {
        assert(content@ + Seq::<char>::empty() =~= content@);
    }
    append_chars(&mut content, &chars_of("\n"));
    append_chars(&mut content, &chars_of("use super::*;\n"));
    string_of(&content)
}

/// The text of a `mod.rs` that declares nothing.
pub fn write_empty_mod_rs() -> (content: String)
    ensures
        content@ == "\n"@,
{
    "\n".to_string()
}

/// One file of a component: its name in the directory of the component,
/// and its text.
#[derive(Clone, Debug, PartialEq, Eq)]
pub struct TemplateFile {
    pub name: String,
    pub content: String,
}

/// A file as texts.
pub struct TemplateFileView {
    pub name: Seq<char>,
    pub content: Seq<char>,
}

impl View for TemplateFile {
    type V = TemplateFileView;

    open spec fn view(&self) -> TemplateFileView {
        TemplateFileView { name: self.name@, content: self.content@ }
    }
}

/// The views of a list of files, in order.
pub open spec fn file_views(v: Seq<TemplateFile>) -> Seq<TemplateFileView> {
    Seq::new(v.len(), |i: int| v[i]@)
}

/// The file of a module: named after it, importing the parent.
pub open spec fn module_file(module: Seq<char>) -> TemplateFileView {
    TemplateFileView { name: module + ".rs"@, content: "use super::*;\n"@ }
}

/// The files of a component with the modules `modules`: a `mod.rs` that
/// declares them, then one file for each.
pub open spec fn module_files(modules: Seq<Seq<char>>) -> Seq<TemplateFileView> {
    seq![TemplateFileView { name: "mod.rs"@, content: mod_rs_text(modules) }] + Seq::new(
        modules.len(),
        |i: int| module_file(modules[i]),
    )
}

/// The files of a component with the modules `modules`.
pub fn files_for(modules: &[&str]) -> (files: Vec<TemplateFile>)
    ensures
        file_views(files@) == module_files(slice_texts(modules@)),
{
    let ghost names = slice_texts(modules@);
    let mut files: Vec<TemplateFile> = Vec::new();
    files.push(TemplateFile { name: "mod.rs".to_string(), content: write_mod_rs(modules) });
    let mut i: usize = 0;
    while i < modules.len()
        invariant
            i <= modules.len(),
            names == slice_texts(modules@),
            files.len() == i + 1,
            files[0]@ == module_files(names)[0],
            forall|k: int| 0 <= k < i ==> (#[trigger] files[k + 1])@ == module_file(names[k]),
        decreases modules.len() - i,
    {
        let mut name = chars_of(modules[i]);
        append_chars(&mut name, &chars_of(".rs"));
        files.push(TemplateFile { name: string_of(&name), content: "use super::*;\n".to_string() });
        i += 1;
    }
    assert(file_views(files@) =~= module_files(names)) by {
        assert forall|k: int| 0 <= k < files.len() implies file_views(files@)[k] == module_files(
            names,
        )[k] by {
            if k > 0 {
                assert(files[k - 1 + 1]@ == module_file(names[k - 1]));
            }
        }
    }
    files
}

/// The files of a controller.
pub open spec fn controller_files() -> Seq<TemplateFileView> {
    module_files(seq!["fn"@, "impl"@, "struct"@])
}

/// The files of a controller, whatever its name.
pub fn create_controller_template(_component_name: &str) -> (files: Vec<TemplateFile>)
    ensures
        file_views(files@) == controller_files(),
{
    let modules: [&str; 3] = ["fn", "impl", "struct"];
    assert(slice_texts(modules@) =~= seq!["fn"@, "impl"@, "struct"@]);
    files_for(modules.as_slice())
}

/// The files of a view.
pub open spec fn view_files() -> Seq<TemplateFileView> {
    module_files(seq!["fn"@, "impl"@, "struct"@])
}

/// The files of a view, whatever its name.
pub fn create_view_template(_component_name: &str) -> (files: Vec<TemplateFile>)
    ensures
        file_views(files@) == view_files(),
{
    let modules: [&str; 3] = ["fn", "impl", "struct"];
    assert(slice_texts(modules@) =~= seq!["fn"@, "impl"@, "struct"@]);
    files_for(modules.as_slice())
}

/// The files of a service.
pub open spec fn service_files() -> Seq<TemplateFileView> {
    module_files(seq!["impl"@, "struct"@])
}

/// The files of a service, whatever its name.
pub fn create_service_template(_component_name: &str) -> (files: Vec<TemplateFile>)
    ensures
        file_views(files@) == service_files(),
{
    let modules: [&str; 2] = ["impl", "struct"];
    assert(slice_texts(modules@) =~= seq!["impl"@, "struct"@]);
    files_for(modules.as_slice())
}

/// The files of a domain component.
pub open spec fn domain_files() -> Seq<TemplateFileView> {
    module_files(seq!["impl"@, "struct"@])
}

/// The files of a domain component, whatever its name.
pub fn create_domain_template(_component_name: &str) -> (files: Vec<TemplateFile>)
    ensures
        file_views(files@) == domain_files(),
{
    let modules: [&str; 2] = ["impl", "struct"];
    assert(slice_texts(modules@) =~= seq!["impl"@, "struct"@]);
    files_for(modules.as_slice())
}

/// The files of a mapper.
pub open spec fn mapper_files() -> Seq<TemplateFileView> {
    module_files(seq!["const"@, "enum"@, "fn"@, "impl"@, "static"@, "struct"@])
}

/// The files of a mapper, whatever its name.
pub fn create_mapper_template(_component_name: &str) -> (files: Vec<TemplateFile>)
    ensures
        file_views(files@) == mapper_files(),
{
    let modules: [&str; 6] = ["const", "enum", "fn", "impl", "static", "struct"];
    assert(slice_texts(modules@) =~= seq!["const"@, "enum"@, "fn"@, "impl"@, "static"@, "struct"@]);
    files_for(modules.as_slice())
}

/// The files of a utilities component.
pub open spec fn utils_files() -> Seq<TemplateFileView> {
    module_files(seq!["fn"@])
}

/// The files of a utilities component, whatever its name.
pub fn create_utils_template(_component_name: &str) -> (files: Vec<TemplateFile>)
    ensures
        file_views(files@) == utils_files(),
{
    let modules: [&str; 1] = ["fn"];
    assert(slice_texts(modules@) =~= seq!["fn"@]);
    files_for(modules.as_slice())
}

/// The files of a repository.
pub open spec fn repository_files() -> Seq<TemplateFileView> {
    module_files(seq!["impl"@, "struct"@])
}

/// The files of a repository, whatever its name.
pub fn create_repository_template(_component_name: &str) -> (files: Vec<TemplateFile>)
    ensures
        file_views(files@) == repository_files(),
{
    let modules: [&str; 2] = ["impl", "struct"];
    assert(slice_texts(modules@) =~= seq!["impl"@, "struct"@]);
    files_for(modules.as_slice())
}

/// The files of an exception component: a `mod.rs` that declares nothing.
pub open spec fn exception_files() -> Seq<TemplateFileView> {
    seq![TemplateFileView { name: "mod.rs"@, content: "\n"@ }]
}

/// The files of an exception component, whatever its name.
pub fn create_exception_template(_component_name: &str) -> (files: Vec<TemplateFile>)
    ensures
        file_views(files@) == exception_files(),
{
    let mut files: Vec<TemplateFile> = Vec::new();
    files.push(TemplateFile { name: "mod.rs".to_string(), content: write_empty_mod_rs() });
    assert(file_views(files@) =~= exception_files());
    files
}

/// The files of a model, which lie in a directory of their own.
pub open spec fn model_files() -> Seq<TemplateFileView> {
    module_files(seq!["struct"@])
}

/// The files of a model, whatever its name, with the directory under that
/// of the component in which they lie: the one named after the kind of
/// model.
pub fn create_model_template(_component_name: &str, sub_type: &ModelSubType) -> (r: (
    String,
    Vec<TemplateFile>,
))
    ensures
        r.0@ == model_sub_type_name(*sub_type),
        file_views(r.1@) == model_files(),
{
    let modules: [&str; 1] = ["struct"];
    assert(slice_texts(modules@) =~= seq!["struct"@]);
    (get_model_sub_type_name(sub_type), files_for(modules.as_slice()))
}

/// What generating a component comes to: the files, and the directory
/// under that of the component in which they lie, if it is not that of the
/// component itself.
#[derive(Debug)]
pub struct TemplatePlan {
    pub subdirectory: Option<String>,
    pub files: Vec<TemplateFile>,
}

/// A plan as texts.
pub struct TemplatePlanView {
    pub subdirectory: Option<Seq<char>>,
    pub files: Seq<TemplateFileView>,
}

impl View for TemplatePlan {
    type V = TemplatePlanView;

    open spec fn view(&self) -> TemplatePlanView {
        TemplatePlanView {
            subdirectory: match self.subdirectory {
                Some(name) => Some(name@),
                None => None,
            },
            files: file_views(self.files@),
        }
    }
}

/// The plan for a kind of component; none for a model whose kind of model
/// is missing.
pub open spec fn plan_for(template_type: TemplateType, model_sub_type: Option<ModelSubType>) -> Option<
    TemplatePlanView,
> {
    match template_type {
        TemplateType::Controller => Some(
            TemplatePlanView { subdirectory: None, files: controller_files() },
        ),
        TemplateType::View => Some(TemplatePlanView { subdirectory: None, files: view_files() }),
        TemplateType::Service => Some(
            TemplatePlanView { subdirectory: None, files: service_files() },
        ),
        TemplateType::Domain => Some(TemplatePlanView { subdirectory: None, files: domain_files() }),
        TemplateType::Mapper => Some(TemplatePlanView { subdirectory: None, files: mapper_files() }),
        TemplateType::Utils => Some(TemplatePlanView { subdirectory: None, files: utils_files() }),
        TemplateType::Exception => Some(
            TemplatePlanView { subdirectory: None, files: exception_files() },
        ),
        TemplateType::Repository => Some(
            TemplatePlanView { subdirectory: None, files: repository_files() },
        ),
        TemplateType::Model => match model_sub_type {
            Some(sub_type) => Some(
                TemplatePlanView {
                    subdirectory: Some(model_sub_type_name(sub_type)),
                    files: model_files(),
                },
            ),
            None => None,
        },
    }
}

/// The plan for the component that `config` describes. A model without a
/// kind of model is refused.
pub fn plan_template(config: &TemplateConfig) -> (r: Result<TemplatePlan, TemplateError>)
    ensures
        match r {
            Ok(plan) => plan_for(config.template_type, config.model_sub_type) == Some(plan@),
            Err(e) => plan_for(config.template_type, config.model_sub_type) is None
                && e is InvalidModelSubType && e->InvalidModelSubType_0@ == "Missing model subtype"@,
        },
{
    let name = config.component_name.as_str();
    let files = match config.template_type {
        TemplateType::Controller => create_controller_template(name),
        TemplateType::View => create_view_template(name),
        TemplateType::Service => create_service_template(name),
        TemplateType::Domain => create_domain_template(name),
        TemplateType::Mapper => create_mapper_template(name),
        TemplateType::Utils => create_utils_template(name),
        TemplateType::Exception => create_exception_template(name),
        TemplateType::Repository => create_repository_template(name),
        TemplateType::Model => {
            let sub_type = match config.model_sub_type {
                Some(sub_type) => sub_type,
                None => {
                    return Err(
                        TemplateError::InvalidModelSubType("Missing model subtype".to_string()),
                    );
                },
            };
            let (subdirectory, files) = create_model_template(name, &sub_type);
            return Ok(TemplatePlan { subdirectory: Some(subdirectory), files });
        },
    };
    Ok(TemplatePlan { subdirectory: None, files })
}

} // verus!
