//! Step outputs, saved state, exported variables and `PATH` additions.
//!
//! Each function builds a [`FileCommand`]: the line for the modern
//! environment file (`GITHUB_OUTPUT`, `GITHUB_STATE`, `GITHUB_ENV`,
//! `GITHUB_PATH`) together with the deprecated stdout command that stands in
//! for it when the file is unavailable. Values are taken as text; the caller
//! renders other types with `Display` first.

use vstd::prelude::*;

use crate::command::{CommandView, WorkflowCommand};
use crate::env::{env_var, Environment};
use crate::error::Error;
use crate::file_command::{
    collides,
    heredoc_spec,
    key_value_message_with,
    random_token,
    token_spec,
    FileCommand,
};
use crate::text::{opt_str_view, opt_view, starts_with, starts_with_seq, str_eq};

verus! {

/// Variables the runner forbids re-defining via `GITHUB_ENV`.
pub open spec fn reserved_spec(name: Seq<char>) -> bool {
    starts_with_seq(name, "GITHUB_"@) || starts_with_seq(name, "RUNNER_"@) || name
        == "NODE_OPTIONS"@
}

/// True for variables the runner forbids re-defining via `GITHUB_ENV`:
/// `GITHUB_*`, `RUNNER_*` and `NODE_OPTIONS`.
pub fn is_reserved(name: &str) -> (r: bool)
    ensures
        r == reserved_spec(name@),
{
    starts_with(name, "GITHUB_") || starts_with(name, "RUNNER_") || str_eq(name, "NODE_OPTIONS")
}

/// The stdout fallback `command name=<name>::<value>`, when `command` is
/// given.
pub open spec fn keyed_fallback(
    fallback: Option<WorkflowCommand>,
    command: Option<Seq<char>>,
    name: Seq<char>,
    value: Seq<char>,
) -> bool {
    match command {
        Some(c) => fallback matches Some(f) && f@ == (CommandView {
            command: c,
            properties: seq![("name"@, name)],
            message: value,
        }),
        None => fallback is None,
    }
}

/// Exactly three kinds of name are reserved: those beginning with
/// `GITHUB_`, those beginning with `RUNNER_`, and the one name
/// `NODE_OPTIONS`. Any other name, such as `NODE_ENV`, is not.
pub proof fn law_reserved_exactly(name: Seq<char>)
    ensures
        reserved_spec(name) <==> {
            ||| name.len() >= 7 && name.take(7) == seq!['G', 'I', 'T', 'H', 'U', 'B', '_']
            ||| name.len() >= 7 && name.take(7) == seq!['R', 'U', 'N', 'N', 'E', 'R', '_']
            ||| name == seq!['N', 'O', 'D', 'E', '_', 'O', 'P', 'T', 'I', 'O', 'N', 'S']
        },
{
    reveal_strlit("GITHUB_");
    reveal_strlit("RUNNER_");
    reveal_strlit("NODE_OPTIONS");
    assert("GITHUB_"@ =~= seq!['G', 'I', 'T', 'H', 'U', 'B', '_']);
    assert("RUNNER_"@ =~= seq!['R', 'U', 'N', 'N', 'E', 'R', '_']);
    assert("NODE_OPTIONS"@ =~= seq!['N', 'O', 'D', 'E', '_', 'O', 'P', 'T', 'I', 'O', 'N', 'S']);
    assert(name.take(7) =~= name.subrange(0, 7));
}

/// What a key/value file command returns: the heredoc for `file_var` and the
/// fallback command `fallback name=<name>::<value>` (none when `fallback` is
/// `None`), or the collision error.
pub open spec fn keyed_result(
    r: Result<FileCommand, Error>,
    file_var: Seq<char>,
    fallback: Option<Seq<char>>,
    name: Seq<char>,
    value: Seq<char>,
    delimiter: Seq<char>,
) -> bool {
    match r {
        Ok(fc) => !collides(name, value, delimiter) && fc.file_var@ == file_var && fc.message@
            == heredoc_spec(name, delimiter, value) && keyed_fallback(
            fc.fallback,
            fallback,
            name,
            value,
        ),
        Err(e) => collides(name, value, delimiter) && (e matches Error::DelimiterCollision(k)
            && k@ == name),
    }
}

fn keyed_command(
    file_var: &str,
    fallback: Option<&str>,
    name: &str,
    value: &str,
    delimiter: &str,
) -> (r: Result<FileCommand, Error>)
    ensures
        keyed_result(r, file_var@, opt_str_view(fallback), name@, value@, delimiter@),
{
    let m = key_value_message_with(name, value, delimiter);
    match m {
        Ok(message) => {
            let cmd = match fallback {
                Some(c) => Some(WorkflowCommand::new(c).property("name", name).message(value)),
                None => None,
            };
            Ok(FileCommand { file_var: String::from_str(file_var), message, fallback: cmd })
        },
        Err(e) => Err(e),
    }
}

/// [`set_output`] with a given heredoc delimiter.
pub fn set_output_with_delimiter(name: &str, value: &str, delimiter: &str) -> (r: Result<
    FileCommand,
    Error,
>)
    ensures
        keyed_result(r, "GITHUB_OUTPUT"@, Some("set-output"@), name@, value@, delimiter@),
{
    keyed_command("GITHUB_OUTPUT", Some("set-output"), name, value, delimiter)
}

/// Set a step output (`GITHUB_OUTPUT`, falling back to `::set-output::`).
///
/// Fails with [`Error::DelimiterCollision`] when the random delimiter occurs
/// in the name or the value.
pub fn set_output(name: &str, value: &str) -> (r: Result<FileCommand, Error>)
    ensures
        exists|a: u64, b: u64|
            #[trigger] keyed_result(
                r,
                "GITHUB_OUTPUT"@,
                Some("set-output"@),
                name@,
                value@,
                token_spec(a, b),
            ),
{
    let delimiter = random_token();
    let r = set_output_with_delimiter(name, value, delimiter.as_str());
    proof {
        let (a, b) = choose|a: u64, b: u64| delimiter@ == #[trigger] token_spec(a, b);
        assert(keyed_result(r, "GITHUB_OUTPUT"@, Some("set-output"@), name@, value@, token_spec(a, b)));
    }
    r
}

/// [`save_state`] with a given heredoc delimiter.
pub fn save_state_with_delimiter(name: &str, value: &str, delimiter: &str) -> (r: Result<
    FileCommand,
    Error,
>)
    ensures
        keyed_result(r, "GITHUB_STATE"@, Some("save-state"@), name@, value@, delimiter@),
{
    keyed_command("GITHUB_STATE", Some("save-state"), name, value, delimiter)
}

/// Persist state for the action's `post` step (`GITHUB_STATE`, falling back
/// to `::save-state::`). Read it back with [`get_state`].
///
/// Fails with [`Error::DelimiterCollision`] when the random delimiter occurs
/// in the name or the value.
pub fn save_state(name: &str, value: &str) -> (r: Result<FileCommand, Error>)
    ensures
        exists|a: u64, b: u64|
            #[trigger] keyed_result(
                r,
                "GITHUB_STATE"@,
                Some("save-state"@),
                name@,
                value@,
                token_spec(a, b),
            ),
{
    let delimiter = random_token();
    let r = save_state_with_delimiter(name, value, delimiter.as_str());
    proof {
        let (a, b) = choose|a: u64, b: u64| delimiter@ == #[trigger] token_spec(a, b);
        assert(keyed_result(r, "GITHUB_STATE"@, Some("save-state"@), name@, value@, token_spec(a, b)));
    }
    r
}

/// The name of the variable that holds state `name` in the `post` step.
pub open spec fn state_key(name: Seq<char>) -> Seq<char> {
    "STATE_"@ + name
}

/// Read state saved by a previous phase via [`save_state`] (the runner
/// exposes it as `STATE_<name>`). `None` when unset.
pub fn get_state(env: &Environment, name: &str) -> (r: Option<String>)
    ensures
        opt_view(r) == env_var(env@, state_key(name@)),
{
    let mut key = String::from_str("STATE_");
    key.append(name);
    env.get(key.as_str())
}

/// What [`export_var_with_delimiter`] returns.
pub open spec fn export_result(
    r: Result<FileCommand, Error>,
    name: Seq<char>,
    value: Seq<char>,
    delimiter: Seq<char>,
) -> bool {
    if reserved_spec(name) {
        r matches Err(Error::ReservedName(n)) && n@ == name
    } else {
        keyed_result(r, "GITHUB_ENV"@, None, name, value, delimiter)
    }
}

/// Exporting a variable is refused as reserved exactly when its name begins
/// with `GITHUB_` or `RUNNER_` or is `NODE_OPTIONS`, and the refusal names
/// the variable; every other outcome is the environment-file command or a
/// delimiter collision.
pub proof fn law_export_refuses_only_reserved(
    r: Result<FileCommand, Error>,
    name: Seq<char>,
    value: Seq<char>,
    delimiter: Seq<char>,
)
    requires
        export_result(r, name, value, delimiter),
    ensures
        (r matches Err(Error::ReservedName(n))) <==> {
            ||| name.len() >= 7 && name.take(7) == seq!['G', 'I', 'T', 'H', 'U', 'B', '_']
            ||| name.len() >= 7 && name.take(7) == seq!['R', 'U', 'N', 'N', 'E', 'R', '_']
            ||| name == seq!['N', 'O', 'D', 'E', '_', 'O', 'P', 'T', 'I', 'O', 'N', 'S']
        },
        r matches Err(Error::ReservedName(n)) ==> n@ == name,
        r matches Ok(fc) ==> fc.file_var@ == "GITHUB_ENV"@ && fc.fallback is None,
{
    law_reserved_exactly(name);
}

/// [`export_var`] with a given heredoc delimiter.
pub fn export_var_with_delimiter(name: &str, value: &str, delimiter: &str) -> (r: Result<
    FileCommand,
    Error,
>)
    ensures
        export_result(r, name@, value@, delimiter@),
{
    if is_reserved(name) {
        return Err(Error::ReservedName(String::from_str(name)));
    }
    keyed_command("GITHUB_ENV", None, name, value, delimiter)
}

/// Export an environment variable to subsequent steps (`GITHUB_ENV`). There
/// is no stdout fallback: the runner no longer honours `::set-env::`, so
/// nothing is issued when `GITHUB_ENV` is unavailable.
///
/// Fails with [`Error::ReservedName`] for `GITHUB_*` / `RUNNER_*` /
/// `NODE_OPTIONS`, and otherwise with [`Error::DelimiterCollision`] when the
/// random delimiter occurs in the name or the value.
pub fn export_var(name: &str, value: &str) -> (r: Result<FileCommand, Error>)
    ensures
        exists|a: u64, b: u64| #[trigger] export_result(r, name@, value@, token_spec(a, b)),
{
    if is_reserved(name) {
        let r = Err(Error::ReservedName(String::from_str(name)));
        assert(export_result(r, name@, value@, token_spec(0, 0)));
        return r;
    }
    let delimiter = random_token();
    let r = export_var_with_delimiter(name, value, delimiter.as_str());
    proof {
        let (a, b) = choose|a: u64, b: u64| delimiter@ == #[trigger] token_spec(a, b);
        assert(export_result(r, name@, value@, token_spec(a, b)));
    }
    r
}

/// Prepend a directory to `PATH` for subsequent steps (`GITHUB_PATH`). The
/// `GITHUB_PATH` line is the bare directory, not a heredoc. There is no
/// stdout fallback: the runner no longer honours `::add-path::`.
pub fn add_path(dir: &str) -> (r: FileCommand)
    ensures
        r.file_var@ == "GITHUB_PATH"@,
        r.message@ == dir@,
        r.fallback is None,
{
    FileCommand {
        file_var: String::from_str("GITHUB_PATH"),
        message: String::from_str(dir),
        fallback: None,
    }
}

} // verus!
