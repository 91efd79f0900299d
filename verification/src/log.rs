//! Logging, grouping, masking and command-flow control.
//!
//! Each function here builds the workflow command that the runner reads on
//! stdout; issuing it (one line on stdout) is left to the caller. Building a
//! command never fails.

use vstd::prelude::*;

use crate::command::{
    escape_data_spec, law_escape_data_plain, render_command, simple_command, single_line,
    WorkflowCommand,
};
use crate::env::{env_var, vars, Environment};
use crate::file_command::{law_token_plain, plain_char, random_token, token_spec};

verus! {

/// A command with the given name and message.
fn message_command(command: &str, message: &str) -> (r: WorkflowCommand)
    ensures
        r@ == simple_command(command@, message@),
{
    WorkflowCommand::new(command).message(message)
}

/// A `::debug::` message. Only visible when step-debug logging is enabled
/// (the `ACTIONS_STEP_DEBUG` secret, surfaced as `RUNNER_DEBUG=1`).
pub fn debug(message: &str) -> (r: WorkflowCommand)
    ensures
        r@ == simple_command("debug"@, message@),
{
    message_command("debug", message)
}

/// A `::notice::` annotation with no location. For located annotations use
/// [`crate::Annotation`].
pub fn notice(message: &str) -> (r: WorkflowCommand)
    ensures
        r@ == simple_command("notice"@, message@),
{
    message_command("notice", message)
}

/// A `::warning::` annotation with no location.
pub fn warning(message: &str) -> (r: WorkflowCommand)
    ensures
        r@ == simple_command("warning"@, message@),
{
    message_command("warning", message)
}

/// An `::error::` annotation with no location.
pub fn error(message: &str) -> (r: WorkflowCommand)
    ensures
        r@ == simple_command("error"@, message@),
{
    message_command("error", message)
}

/// Whether step-debug logging is enabled (`RUNNER_DEBUG == "1"`).
pub fn is_debug(env: &Environment) -> (r: bool)
    ensures
        r == (env_var(env@, vars::RUNNER_DEBUG@) == Some("1"@)),
{
    crate::env::is_debug(env)
}

/// The `::add-mask::` command that masks `value` in all subsequent log output.
///
/// Masking only affects output produced *after* the command is issued.
pub fn mask(value: &str) -> (r: WorkflowCommand)
    ensures
        r@ == simple_command("add-mask"@, value@),
{
    message_command("add-mask", value)
}

/// Alias for [`mask`], named after `@actions/core`'s `setSecret`.
pub fn set_secret(value: &str) -> (r: WorkflowCommand)
    ensures
        r@ == simple_command("add-mask"@, value@),
{
    mask(value)
}

/// The `::error::` annotation that marks the action as failed. The caller
/// decides whether to exit with code `1` afterwards.
pub fn set_failed(message: &str) -> (r: WorkflowCommand)
    ensures
        r@ == simple_command("error"@, message@),
{
    error(message)
}

/// The word that [`echo`] sends.
pub open spec fn echo_word(on: bool) -> Seq<char> {
    if on {
        "on"@
    } else {
        "off"@
    }
}

/// Toggle command echoing (`::echo::on` / `::echo::off`).
pub fn echo(on: bool) -> (r: WorkflowCommand)
    ensures
        r@ == simple_command("echo"@, echo_word(on)),
{
    message_command("echo", if on {
        "on"
    } else {
        "off"
    })
}

/// Begin a collapsible log group.
pub fn start_group(name: &str) -> (r: WorkflowCommand)
    ensures
        r@ == simple_command("group"@, name@),
{
    message_command("group", name)
}

/// End the current collapsible log group.
pub fn end_group() -> (r: WorkflowCommand)
    ensures
        r@ == simple_command("endgroup"@, Seq::empty()),
{
    WorkflowCommand::new("endgroup")
}

/// The random token that pauses command processing until it is sent back.
///
/// Untrusted text logged between [`StopGuard::stop_command`] and
/// [`StopGuard::resume_command`] cannot guess the token, so it cannot resume
/// command processing early.
#[derive(Debug, Clone)]
pub struct StopGuard {
    token: String,
}

impl View for StopGuard {
    type V = Seq<char>;

    closed spec fn view(&self) -> Seq<char> {
        self.token@
    }
}

impl StopGuard {
    /// The guard for a given token.
    pub fn with_token(token: &str) -> (r: Self)
        ensures
            r@ == token@,
    {
        StopGuard { token: String::from_str(token) }
    }

    /// `::stop-commands::TOKEN`: the runner stops interpreting commands.
    pub fn stop_command(&self) -> (r: WorkflowCommand)
        ensures
            r@ == simple_command("stop-commands"@, self@),
    {
        message_command("stop-commands", self.token.as_str())
    }

    /// `::TOKEN::`: the runner resumes interpreting commands. The command name
    /// *is* the token and it carries no message.
    pub fn resume_command(&self) -> (r: WorkflowCommand)
        ensures
            r@ == simple_command(self@, Seq::empty()),
    {
        WorkflowCommand::new(self.token.as_str())
    }
}

/// The resume command of a token renders as `::TOKEN::`.
pub proof fn law_resume_line(token: Seq<char>)
    ensures
        render_command(simple_command(token, Seq::empty())) == seq![':', ':'] + token + seq![':', ':'],
{
    assert(escape_data_spec(Seq::<char>::empty()) == Seq::<char>::empty());
    assert(render_command(simple_command(token, Seq::empty())) =~= seq![':', ':'] + token + seq![':', ':']);
}

/// For every token that [`stop_commands`] can draw, the stop command renders
/// as `::stop-commands::TOKEN` and the resume command as `::TOKEN::`, with the
/// token written as it is: it holds no `:`, no `%` and no line break, so it
/// needs no escaping and cannot end either line early.
pub proof fn law_stop_resume_lines(a: u64, b: u64)
    ensures
        ({
            let t = token_spec(a, b);
            &&& !t.contains(':')
            &&& single_line(t)
            &&& render_command(simple_command("stop-commands"@, t)) == "::stop-commands::"@ + t
            &&& render_command(simple_command(t, Seq::empty())) == "::"@ + t + "::"@
        }),
{
    let t = token_spec(a, b);
    law_token_plain(a, b);
    assert forall|i: int| 0 <= i < t.len() implies #[trigger] t[i] != ':' && t[i] != '%'
        && t[i] != '\r' && t[i] != '\n' by {
        assert(plain_char(t[i]));
    }
    law_escape_data_plain(t);
    law_resume_line(t);
    reveal_strlit("stop-commands");
    reveal_strlit("::stop-commands::");
    reveal_strlit("::");
    assert(render_command(simple_command("stop-commands"@, t)) =~= "::stop-commands::"@ + t);
    assert(render_command(simple_command(t, Seq::empty())) =~= "::"@ + t + "::"@);
}

/// A guard with a fresh random token, for pausing command processing while
/// untrusted text is logged.
pub fn stop_commands() -> (r: StopGuard)
    ensures
        exists|a: u64, b: u64| r@ == #[trigger] token_spec(a, b),
{
    let token = random_token();
    StopGuard::with_token(token.as_str())
}

} // verus!
