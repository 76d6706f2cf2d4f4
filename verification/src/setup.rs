//! What is decided before a session starts.

use vstd::pervasive::unreached;
use vstd::prelude::*;
use vstd::string::*;

verus! {

/// What a Gleam project is compiled to.
#[derive(Clone, Copy, Debug, PartialEq, Eq, Structural)]
pub enum Target {
    Erlang,
    JavaScript,
}

/// What runs compiled JavaScript.
#[derive(Clone, Copy, Debug, PartialEq, Eq, Structural)]
pub enum Runtime {
    NodeJs,
    Deno,
    Bun,
}

/// What evaluates the code of a session.
#[derive(Clone, Copy, Debug, PartialEq, Eq, Structural)]
pub enum ReplRuntime {
    Erlang,
    JavaScript(Runtime),
}

/// Why a session cannot start.
#[derive(Debug)]
pub enum SetupError {
    /// The name is not that of a Gleam module.
    InvalidModuleName { module: String },
    /// The target takes no runtime.
    InvalidRuntime { target: Target, invalid_runtime: Runtime },
}

/// `regex::Regex::new` on the pattern of a module path, then
/// `regex::Regex::is_match` on `text`. By the crate's documented syntax the pattern
/// is accepted and, tied to the whole text by its anchors, matches exactly where
/// [`is_module_path`] holds.
#[verifier::external_body]
fn regex_is_match(pattern: &str, text: &str) -> (res: Option<bool>)
    requires
        pattern@ == module_path_pattern(),
    ensures
        res == Some(is_module_path(text@)),
{
    match regex::Regex::new(pattern) {
        Ok(re) => Some(re.is_match(text)),
        Err(_) => None,
    }
}

/// One part of a module path, as a pattern: a lower case letter, then lower case
/// letters, digits and underscores.
pub const MODULE: &'static str = "[a-z][_a-z0-9]*";

/// What separates the parts of a module path.
pub const SLASH: &'static str = "/";

/// The pattern of a module path: parts, with a slash between each two.
pub open spec fn module_path_pattern() -> Seq<char> {
    "^("@ + MODULE@ + SLASH@ + ")*"@ + MODULE@ + "$"@
}

/// The character at position `i` may stand there in a module path: a lower case
/// letter at the start of a part; after that a lower case letter, a digit, an
/// underscore, or a slash that is not the end.
pub open spec fn fits_module_path(text: Seq<char>, i: int) -> bool {
    if i == 0 || text[i - 1] == '/' {
        'a' <= text[i] <= 'z'
    } else {
        ||| 'a' <= text[i] <= 'z'
        ||| '0' <= text[i] <= '9'
        ||| text[i] == '_'
        ||| text[i] == '/' && i + 1 < text.len()
    }
}

/// `text` is one or more parts with a slash between each two, each part a lower
/// case letter followed by lower case letters, digits and underscores.
pub open spec fn is_module_path(text: Seq<char>) -> bool {
    &&& text.len() > 0
    &&& forall|i: int| 0 <= i < text.len() ==> #[trigger] fits_module_path(text, i)
}

/// Two module paths with a slash between them are a module path; and a slash parts a
/// module path into module paths.
pub proof fn law_module_paths_join(a: Seq<char>, b: Seq<char>)
    ensures
        is_module_path(a + seq!['/'] + b) <==> is_module_path(a) && is_module_path(b),
{
    let path = a + seq!['/'] + b;
    if is_module_path(a) && is_module_path(b) {
        assert forall|i: int| 0 <= i < path.len() implies #[trigger] fits_module_path(path, i) by {
            if i < a.len() {
                assert(fits_module_path(a, i));
            } else if i > a.len() {
                assert(fits_module_path(b, i - a.len() - 1));
            } else {
                assert(fits_module_path(a, a.len() - 1));
            }
        }
    }
    if is_module_path(path) {
        assert(fits_module_path(path, a.len() as int));
        if a.len() > 0 {
            assert(fits_module_path(path, a.len() - 1));
        }
        assert forall|i: int| 0 <= i < a.len() implies #[trigger] fits_module_path(a, i) by {
            assert(fits_module_path(path, i));
        }
        assert forall|i: int| 0 <= i < b.len() implies #[trigger] fits_module_path(b, i) by {
            assert(fits_module_path(path, a.len() + 1 + i));
        }
    }
}

/// Without a slash, a module path is a lower case letter and then lower case letters,
/// digits and underscores.
pub proof fn law_module_name(name: Seq<char>)
    requires
        crate::text::lacks(name, '/'),
    ensures
        is_module_path(name) <==> {
            &&& name.len() > 0
            &&& 'a' <= name[0] <= 'z'
            &&& forall|i: int|
                0 < i < name.len() ==> ('a' <= #[trigger] name[i] <= 'z' || '0' <= name[i] <= '9'
                    || name[i] == '_')
        },
{
    if is_module_path(name) {
        assert(fits_module_path(name, 0));
        assert forall|i: int| 0 < i < name.len() implies ('a' <= #[trigger] name[i] <= 'z' || '0'
            <= name[i] <= '9' || name[i] == '_') by {
            assert(fits_module_path(name, i));
            assert(name[i - 1] != '/');
        }
    }
}

/// Check if a module name is a valid gleam module name.
pub fn is_gleam_module(module: &str) -> (res: bool)
    ensures
        res == is_module_path(module@),
{
    let mut pattern = String::new();
    pattern.append("^(");
    pattern.append(MODULE);
    pattern.append(SLASH);
    pattern.append(")*");
    pattern.append(MODULE);
    pattern.append("$");
    assert(pattern@ =~= module_path_pattern());
    match regex_is_match(pattern.as_str(), module) {
        Some(found) => found,
        None => unreached(),
    }
}

/// Checks the module that a session was asked to start from, if any.
pub fn check_module(module: &Option<String>) -> (res: Result<(), SetupError>)
    ensures
        match *module {
            None => res is Ok,
            Some(name) => {
                &&& res is Ok <==> is_module_path(name@)
                &&& res matches Err(error) ==> error == (SetupError::InvalidModuleName {
                    module: name,
                })
            },
        },
{
    match module {
        Some(name) if !is_gleam_module(name.as_str()) => Err(
            SetupError::InvalidModuleName { module: name.clone() },
        ),
        _ => Ok(()),
    }
}

/// The target of a session: the one asked for, else that of the project.
pub open spec fn chosen_target(target: Option<Target>, project: Target) -> Target {
    match target {
        Some(target) => target,
        None => project,
    }
}

/// The runtime of a session on JavaScript: the one asked for, else that of the
/// project.
pub open spec fn chosen_runtime(runtime: Option<Runtime>, project: Runtime) -> Runtime {
    match runtime {
        Some(runtime) => runtime,
        None => project,
    }
}

/// What is to evaluate the code of a session on `target` when `runtime` was asked for,
/// and `project` is the runtime of the project.
pub open spec fn chosen(target: Target, runtime: Option<Runtime>, project: Runtime) -> Result<
    ReplRuntime,
    SetupError,
> {
    match (target, runtime) {
        (Target::Erlang, None) => Ok(ReplRuntime::Erlang),
        (Target::Erlang, Some(invalid_runtime)) => Err(
            SetupError::InvalidRuntime { target: Target::Erlang, invalid_runtime },
        ),
        (Target::JavaScript, _) => Ok(ReplRuntime::JavaScript(chosen_runtime(runtime, project))),
    }
}

/// What is asked for counts, whatever the project says; what is not asked for is as the
/// project says. On Erlang any runtime is refused, and named in the refusal; on JavaScript
/// none is.
pub proof fn law_what_is_asked_for_counts(
    asked: Target,
    one: Target,
    two: Target,
    wanted: Runtime,
    three: Runtime,
    four: Runtime,
)
    ensures
        chosen_target(Some(asked), one) == asked,
        chosen_target(None, one) == one,
        chosen(Target::JavaScript, Some(wanted), three) == Ok::<ReplRuntime, SetupError>(
            ReplRuntime::JavaScript(wanted),
        ),
        chosen(Target::JavaScript, Some(wanted), three) == chosen(
            Target::JavaScript,
            Some(wanted),
            four,
        ),
        chosen(Target::JavaScript, None, three) == chosen(Target::JavaScript, Some(three), four),
        chosen(Target::Erlang, None, three) == Ok::<ReplRuntime, SetupError>(ReplRuntime::Erlang),
        chosen(Target::Erlang, Some(wanted), three) matches Err(
            SetupError::InvalidRuntime { target, invalid_runtime },
        ) && target is Erlang && invalid_runtime == wanted,
{
}

/// What is to evaluate the code of a session, by the target and the runtime that
/// were asked for and those of the project. The target Erlang takes no runtime.
pub fn choose_runtime(
    target: Option<Target>,
    runtime: Option<Runtime>,
    project_target: Target,
    project_runtime: Runtime,
) -> (res: Result<ReplRuntime, SetupError>)
    ensures
        match (chosen_target(target, project_target), runtime) {
            (Target::Erlang, None) => res == Ok::<ReplRuntime, SetupError>(ReplRuntime::Erlang),
            (Target::Erlang, Some(invalid_runtime)) => res == Err::<ReplRuntime, SetupError>(
                SetupError::InvalidRuntime { target: Target::Erlang, invalid_runtime },
            ),
            (Target::JavaScript, _) => res == Ok::<ReplRuntime, SetupError>(
                ReplRuntime::JavaScript(chosen_runtime(runtime, project_runtime)),
            ),
        },
        res == chosen(chosen_target(target, project_target), runtime, project_runtime),
        target matches Some(asked) ==> res == chosen(asked, runtime, project_runtime),
        target is None ==> res == chosen(project_target, runtime, project_runtime),
{
    let target = match target {
        Some(target) => target,
        None => project_target,
    };
    match target {
        Target::Erlang => match runtime {
            Some(invalid_runtime) => Err(
                SetupError::InvalidRuntime { target: Target::Erlang, invalid_runtime },
            ),
            None => Ok(ReplRuntime::Erlang),
        },
        Target::JavaScript => match runtime {
            Some(runtime) => Ok(ReplRuntime::JavaScript(runtime)),
            None => Ok(ReplRuntime::JavaScript(project_runtime)),
        },
    }
}

} // verus!
