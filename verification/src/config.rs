//! The arguments of the command line.

use vstd::prelude::*;
use crate::bump::BumpVersionType;
use crate::command::CommandType;
use crate::decimal::{parse_u64, parsed_u64};
use crate::template::{
    ModelSubType,
    TemplateType,
    model_sub_type_named,
    model_sub_type_of,
    template_type_named,
    template_type_of,
};
use crate::text::{chars_of, has_prefix, lowercase, starts_with, to_lowercase};

verus! {

/// What the command line asks for.
#[derive(Clone, Debug)]
pub struct Args {
    /// The command to run.
    pub command: CommandType,
    /// Whether formatting is only checked.
    pub check: bool,
    /// The manifest to work on.
    pub manifest_path: Option<String>,
    /// The way to bump the version.
    pub bump_type: Option<BumpVersionType>,
    /// How many times a failed publish is attempted again.
    pub max_retries: u32,
    /// The name of the project to create.
    pub project_name: Option<String>,
    /// The kind of component to generate.
    pub template_type: Option<TemplateType>,
    /// The kind of model to generate.
    pub model_sub_type: Option<ModelSubType>,
    /// The name of the component to generate.
    pub component_name: Option<String>,
}

/// The arguments as mathematical values.
pub struct ArgsView {
    pub command: CommandType,
    pub check: bool,
    pub manifest_path: Option<Seq<char>>,
    pub bump_type: Option<BumpVersionType>,
    pub max_retries: u32,
    pub project_name: Option<Seq<char>>,
    pub template_type: Option<TemplateType>,
    pub model_sub_type: Option<ModelSubType>,
    pub component_name: Option<Seq<char>>,
}

/// An optional text as a view.
pub open spec fn optional_text(text: Option<String>) -> Option<Seq<char>> {
    match text {
        Some(t) => Some(t@),
        None => None,
    }
}

impl View for Args {
    type V = ArgsView;

    open spec fn view(&self) -> ArgsView {
        ArgsView {
            command: self.command,
            check: self.check,
            manifest_path: optional_text(self.manifest_path),
            bump_type: self.bump_type,
            max_retries: self.max_retries,
            project_name: optional_text(self.project_name),
            template_type: self.template_type,
            model_sub_type: self.model_sub_type,
            component_name: optional_text(self.component_name),
        }
    }
}

/// The texts of a list of arguments, in order.
pub open spec fn argument_texts(v: Seq<String>) -> Seq<Seq<char>> {
    Seq::new(v.len(), |i: int| v[i]@)
}

/// What holds before any argument is read: the help is shown, and a failed
/// publish is attempted again three times.
pub open spec fn defaults() -> ArgsView {
    ArgsView {
        command: CommandType::Help,
        check: false,
        manifest_path: None,
        bump_type: None,
        max_retries: 3,
        project_name: None,
        template_type: None,
        model_sub_type: None,
        component_name: None,
    }
}

/// No command was chosen yet: showing the help or the version gives way to
/// any other command.
pub open spec fn is_undecided(command: CommandType) -> bool {
    command == CommandType::Help || command == CommandType::Version
}

/// There is an argument at `i`, and it is no option: it does not begin
/// with `-`.
pub open spec fn is_value_at(args: Seq<Seq<char>>, i: int) -> bool {
    0 <= i < args.len() && !has_prefix(args[i], "-"@)
}

/// The number below 2^32 that `s` writes, if it writes one.
pub open spec fn parsed_u32(s: Seq<char>) -> Option<u32> {
    match parsed_u64(s) {
        Some(n) => if n <= u32::MAX {
            Some(n as u32)
        } else {
            None
        },
        None => None,
    }
}

/// The command that the word `word` chooses, if it is the name of one.
pub open spec fn command_named(word: Seq<char>) -> Option<CommandType> {
    if word == "fmt"@ {
        Some(CommandType::Fmt)
    } else if word == "watch"@ {
        Some(CommandType::Watch)
    } else if word == "bump"@ {
        Some(CommandType::Bump)
    } else if word == "publish"@ {
        Some(CommandType::Publish)
    } else {
        None
    }
}

/// The way to bump that the option `word` chooses, if it chooses one.
pub open spec fn bump_named(word: Seq<char>) -> Option<BumpVersionType> {
    if word == "--patch"@ {
        Some(BumpVersionType::Patch)
    } else if word == "--minor"@ {
        Some(BumpVersionType::Minor)
    } else if word == "--major"@ {
        Some(BumpVersionType::Major)
    } else if word == "--release"@ {
        Some(BumpVersionType::Release)
    } else if word == "--alpha"@ {
        Some(BumpVersionType::Alpha)
    } else if word == "--beta"@ {
        Some(BumpVersionType::Beta)
    } else if word == "--rc"@ {
        Some(BumpVersionType::Rc)
    } else {
        None
    }
}

/// The arguments after `template` was read at `i` as the command, with the
/// place to go on from. The values behind it are, in turn, the kind of
/// component, for a model the kind of model, and the name. Where no value
/// follows, the argument behind `template` is passed over.
pub open spec fn after_template(state: ArgsView, args: Seq<Seq<char>>, i: int) -> (ArgsView, int) {
    let chosen = ArgsView { command: CommandType::Template, ..state };
    if is_value_at(args, i + 1) {
        let template_type = template_type_named(lowercase(args[i + 1]));
        let typed = ArgsView { template_type, ..chosen };
        let (with_kind, at) = if template_type == Some(TemplateType::Model) && is_value_at(
            args,
            i + 2,
        ) {
            (
                ArgsView { model_sub_type: model_sub_type_named(lowercase(args[i + 2])), ..typed },
                i + 3,
            )
        } else {
            (typed, i + 2)
        };
        if is_value_at(args, at) {
            (ArgsView { component_name: Some(args[at]), ..with_kind }, at + 1)
        } else {
            (with_kind, at)
        }
    } else {
        (chosen, i + 2)
    }
}

/// The arguments after the argument at `i` was read, with the place to go
/// on from.
pub open spec fn after_argument(state: ArgsView, args: Seq<Seq<char>>, i: int) -> (ArgsView, int) {
    let word = args[i];
    if word == "-h"@ || word == "--help"@ {
        (ArgsView { command: CommandType::Help, ..state }, i + 1)
    } else if word == "-v"@ || word == "--version"@ {
        (ArgsView { command: CommandType::Version, ..state }, i + 1)
    } else if command_named(word) is Some {
        if is_undecided(state.command) {
            (ArgsView { command: command_named(word).unwrap(), ..state }, i + 1)
        } else {
            (state, i + 1)
        }
    } else if word == "new"@ {
        if is_undecided(state.command) {
            let chosen = ArgsView { command: CommandType::New, ..state };
            if is_value_at(args, i + 1) {
                (ArgsView { project_name: Some(args[i + 1]), ..chosen }, i + 2)
            } else {
                (chosen, i + 1)
            }
        } else {
            (state, i + 1)
        }
    } else if word == "template"@ {
        if is_undecided(state.command) {
            after_template(state, args, i)
        } else {
            (state, i + 1)
        }
    } else if bump_named(word) is Some {
        (ArgsView { bump_type: bump_named(word), ..state }, i + 1)
    } else if word == "--check"@ {
        (ArgsView { check: true, ..state }, i + 1)
    } else if word == "--manifest-path"@ {
        if i + 1 < args.len() {
            (ArgsView { manifest_path: Some(args[i + 1]), ..state }, i + 2)
        } else {
            (state, i + 2)
        }
    } else if word == "--max-retries"@ {
        if i + 1 < args.len() {
            match parsed_u32(args[i + 1]) {
                Some(n) => (ArgsView { max_retries: n, ..state }, i + 2),
                None => (state, i + 2),
            }
        } else {
            (state, i + 2)
        }
    } else {
        (state, i + 1)
    }
}

/// The arguments after all of `args` from `i` on were read.
pub open spec fn read_from(state: ArgsView, args: Seq<Seq<char>>, i: int) -> ArgsView
    decreases
            if i < args.len() {
                args.len() - i
            } else {
                0
            },
{
    if i < 0 || i >= args.len() {
        state
    } else {
        let (next, at) = after_argument(state, args, i);
        if at > i {
            read_from(next, args, at)
        } else {
            next
        }
    }
}

/// What the command line `args` asks for. Its first entry, the name of
/// the program, is passed over.
pub open spec fn parsed_args(args: Seq<Seq<char>>) -> ArgsView {
    read_from(defaults(), args, 1)
}

/// The place `at`, or the end of the `count` arguments where `at` lies
/// beyond it.
pub open spec fn within(at: int, count: nat) -> int {
    if at <= count {
        at
    } else {
        count as int
    }
}

/// The place two behind `i`, or the end of the arguments.
fn two_behind(i: usize, count: usize) -> (at: usize)
    requires
        i < count,
    ensures
        at == within(i + 2, count as nat),
        i < at <= count,
{
    if count - i >= 2 {
        i + 2
    } else {
        count
    }
}

/// Whether `arg` is the word `word`.
fn is_word(arg: &String, word: &str) -> (same: bool)
    ensures
        same == (arg@ == word@),
{
    *arg == word.to_string()
}

/// Whether there is an argument at `i` that is no option.
fn value_at(raw_args: &Vec<String>, i: usize) -> (found: bool)
    ensures
        found == is_value_at(argument_texts(raw_args@), i as int),
{
    if i < raw_args.len() {
        !starts_with(&chars_of(raw_args[i].as_str()), &chars_of("-"))
    } else {
        false
    }
}

/// The command that `arg` chooses.
fn command_of(arg: &String) -> (found: Option<CommandType>)
    ensures
        found == command_named(arg@),
{
    if is_word(arg, "fmt") {
        Some(CommandType::Fmt)
    } else if is_word(arg, "watch") {
        Some(CommandType::Watch)
    } else if is_word(arg, "bump") {
        Some(CommandType::Bump)
    } else if is_word(arg, "publish") {
        Some(CommandType::Publish)
    } else {
        None
    }
}

/// The way to bump that `arg` chooses.
fn bump_of(arg: &String) -> (found: Option<BumpVersionType>)
    ensures
        found == bump_named(arg@),
{
    if is_word(arg, "--patch") {
        Some(BumpVersionType::Patch)
    } else if is_word(arg, "--minor") {
        Some(BumpVersionType::Minor)
    } else if is_word(arg, "--major") {
        Some(BumpVersionType::Major)
    } else if is_word(arg, "--release") {
        Some(BumpVersionType::Release)
    } else if is_word(arg, "--alpha") {
        Some(BumpVersionType::Alpha)
    } else if is_word(arg, "--beta") {
        Some(BumpVersionType::Beta)
    } else if is_word(arg, "--rc") {
        Some(BumpVersionType::Rc)
    } else {
        None
    }
}

/// The number below 2^32 that `arg` writes.
fn parse_u32(arg: &String) -> (r: Option<u32>)
    ensures
        r == parsed_u32(arg@),
{
    match parse_u64(&chars_of(arg.as_str())) {
        Some(n) => if n <= 0xffff_ffff {
            Some(n as u32)
        } else {
            None
        },
        None => None,
    }
}

/// Whether no command was chosen yet.
fn undecided(command: CommandType) -> (r: bool)
    ensures
        r == is_undecided(command),
{
    match command {
        CommandType::Help => true,
        CommandType::Version => true,
        _ => false,
    }
}

/// Reads the values behind `template` at `i`.
fn read_template(state: Args, raw_args: &Vec<String>, i: usize) -> (r: (Args, usize))
    requires
        i < raw_args.len(),
    ensures
        r.0@ == after_template(state@, argument_texts(raw_args@), i as int).0,
        r.1 == within(
            after_template(state@, argument_texts(raw_args@), i as int).1,
            raw_args.len() as nat,
        ),
        i < r.1 <= raw_args.len(),
{
    let ghost args = argument_texts(raw_args@);
    let mut state = state;
    state.command = CommandType::Template;
    if !value_at(raw_args, i + 1) {
        return (state, two_behind(i, raw_args.len()));
    }
    let kind = to_lowercase(raw_args[i + 1].as_str());
    state.template_type = template_type_of(&kind);
    let is_model = match state.template_type {
        Some(TemplateType::Model) => true,
        _ => false,
    };
    let mut at: usize = i + 2;
    if is_model && value_at(raw_args, i + 2) {
        let sub_kind = to_lowercase(raw_args[i + 2].as_str());
        state.model_sub_type = model_sub_type_of(&sub_kind);
        at = i + 3;
    }
    if value_at(raw_args, at) {
        state.component_name = Some(raw_args[at].clone());
        at = at + 1;
    }
    (state, at)
}

/// Reads the argument at `i`.
fn read_argument(state: Args, raw_args: &Vec<String>, i: usize) -> (r: (Args, usize))
    requires
        i < raw_args.len(),
    ensures
        r.0@ == after_argument(state@, argument_texts(raw_args@), i as int).0,
        r.1 == within(
            after_argument(state@, argument_texts(raw_args@), i as int).1,
            raw_args.len() as nat,
        ),
        i < r.1 <= raw_args.len(),
{
    let ghost args = argument_texts(raw_args@);
    let mut state = state;
    let arg = &raw_args[i];
    assert(args[i as int] == arg@);
    if is_word(arg, "-h") || is_word(arg, "--help") {
        state.command = CommandType::Help;
        return (state, i + 1);
    }
    if is_word(arg, "-v") || is_word(arg, "--version") {
        state.command = CommandType::Version;
        return (state, i + 1);
    }
    match command_of(arg) {
        Some(command) => {
            if undecided(state.command) {
                state.command = command;
            }
            return (state, i + 1);
        },
        None => {},
    }
    if is_word(arg, "new") {
        if undecided(state.command) {
            state.command = CommandType::New;
            if value_at(raw_args, i + 1) {
                state.project_name = Some(raw_args[i + 1].clone());
                return (state, two_behind(i, raw_args.len()));
            }
        }
        return (state, i + 1);
    }
    if is_word(arg, "template") {
        if undecided(state.command) {
            return read_template(state, raw_args, i);
        }
        return (state, i + 1);
    }
    match bump_of(arg) {
        Some(bump_type) => {
            state.bump_type = Some(bump_type);
            return (state, i + 1);
        },
        None => {},
    }
    if is_word(arg, "--check") {
        state.check = true;
        return (state, i + 1);
    }
    if is_word(arg, "--manifest-path") {
        if i + 1 < raw_args.len() {
            state.manifest_path = Some(raw_args[i + 1].clone());
        }
        return (state, two_behind(i, raw_args.len()));
    }
    if is_word(arg, "--max-retries") {
        if i + 1 < raw_args.len() {
            match parse_u32(&raw_args[i + 1]) {
                Some(n) => {
                    state.max_retries = n;
                },
                None => {},
            }
        }
        return (state, two_behind(i, raw_args.len()));
    }
    (state, i + 1)
}

/// What the command line `raw_args` asks for. Its first entry, the name
/// of the program, is passed over.
pub fn parse_args(raw_args: &Vec<String>) -> (args: Args)
    ensures
        args@ == parsed_args(argument_texts(raw_args@)),
{
    let mut state = Args {
        command: CommandType::Help,
        check: false,
        manifest_path: None,
        bump_type: None,
        max_retries: 3,
        project_name: None,
        template_type: None,
        model_sub_type: None,
        component_name: None,
    };
    let mut i: usize = 1;
    while i < raw_args.len()
        invariant
            1 <= i,
            parsed_args(argument_texts(raw_args@)) == read_from(
                state@,
                argument_texts(raw_args@),
                i as int,
            ),
        decreases raw_args.len() - i,
    {
        let ghost texts = argument_texts(raw_args@);
        let ghost after = after_argument(state@, texts, i as int);
        let (next, at) = read_argument(state, raw_args, i);
        assert(after.1 > i);
        assert(read_from(after.0, texts, after.1) == read_from(after.0, texts, at as int));
        state = next;
        i = at;
    }
    state
}

} // verus!
