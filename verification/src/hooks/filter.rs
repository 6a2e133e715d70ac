//! Prompt filters: a command that runs before a prompt hook and may tell it
//! to skip the model. Any failure of the filter lets the model run.

use super::command::{CommandOutcome, CommandRunCompletion};
use super::handler::{ConfiguredHandler, ConfiguredHandlerKind, ConfiguredPromptFilter};
use crate::text::{decimal, is_blank, owned, push_decimal, push_str, str_is_blank};
use vstd::prelude::*;

verus! {

/// Most bytes of output kept from a filter command.
pub const FILTER_OUTPUT_LIMIT: usize = 8192;

/// Whether the prompt hook consults the model.
#[derive(Clone, Copy, Debug, PartialEq, Eq, Structural)]
pub enum PromptFilterOutcome {
    Run,
    Skip,
}

/// The decision a filter's output states.
#[derive(Clone, Copy, Debug, PartialEq, Eq, Structural)]
pub enum PromptFilterDecision {
    Run,
    Skip,
}

/// A filter's output, once read as `{"version": .., "decision": "run" | "skip"}`.
#[derive(Clone, Copy, Debug, PartialEq, Eq, Structural)]
pub struct PromptFilterOutput {
    pub version: u8,
    pub decision: PromptFilterDecision,
}

/// Why a filter was not followed.
#[derive(Clone, Copy, Debug, PartialEq, Eq, Structural)]
pub enum PromptFilterFailure {
    /// The command did not finish normally.
    Command(CommandOutcome),
    NonzeroExit,
    EmptyOutput,
    UnsupportedVersion,
    InvalidOutput,
}

impl PromptFilterFailure {
    pub open spec fn spec_category(self) -> Seq<char> {
        match self {
            PromptFilterFailure::Command(o) => o.spec_label(),
            PromptFilterFailure::NonzeroExit => "nonzero_exit"@,
            PromptFilterFailure::EmptyOutput => "empty_output"@,
            PromptFilterFailure::UnsupportedVersion => "unsupported_version"@,
            PromptFilterFailure::InvalidOutput => "invalid_output"@,
        }
    }

    /// The failure's category in logs.
    pub fn category(self) -> (r: &'static str)
        ensures
            r@ == self.spec_category(),
    {
        match self {
            PromptFilterFailure::Command(o) => o.label(),
            PromptFilterFailure::NonzeroExit => "nonzero_exit",
            PromptFilterFailure::EmptyOutput => "empty_output",
            PromptFilterFailure::UnsupportedVersion => "unsupported_version",
            PromptFilterFailure::InvalidOutput => "invalid_output",
        }
    }
}

/// The filter of a prompt handler, if it has one.
pub open spec fn spec_filter_of(handler: ConfiguredHandler) -> Option<ConfiguredPromptFilter> {
    match handler.kind {
        ConfiguredHandlerKind::Prompt { filter, .. } => filter,
        _ => None,
    }
}

/// The filter to run before a handler; without one the model always runs.
pub fn prompt_filter_of(handler: &ConfiguredHandler) -> (r: Option<&ConfiguredPromptFilter>)
    ensures
        match r {
            Some(f) => spec_filter_of(*handler) == Some(*f),
            None => spec_filter_of(*handler) is None,
        },
{
    match &handler.kind {
        ConfiguredHandlerKind::Prompt { filter, .. } => match filter {
            Some(f) => Some(f),
            None => None,
        },
        _ => None,
    }
}

/// The error of a filter that ran out of time.
pub fn filter_timeout_error(timeout_sec: u64) -> (r: String)
    ensures
        r@ == "prompt hook filter timed out after "@ + decimal(timeout_sec as nat) + "s"@,
{
    let mut r = owned("prompt hook filter timed out after ");
    push_decimal(&mut r, timeout_sec);
    push_str(&mut r, "s");
    r
}

/// The error of a command hook that ran out of time.
pub fn command_timeout_error(timeout_sec: u64) -> (r: String)
    ensures
        r@ == "hook timed out after "@ + decimal(timeout_sec as nat) + "s"@,
{
    let mut r = owned("hook timed out after ");
    push_decimal(&mut r, timeout_sec);
    push_str(&mut r, "s");
    r
}

/// What a filter's run decides, and why it was ignored if it was. `parsed`
/// is the filter's output as read (`None` when it is not such a document).
pub open spec fn spec_filter_outcome(
    completion: CommandRunCompletion,
    parsed: Option<PromptFilterOutput>,
) -> (PromptFilterOutcome, Option<PromptFilterFailure>) {
    if completion.error is Some {
        (PromptFilterOutcome::Run, Some(PromptFilterFailure::Command(completion.outcome)))
    } else if completion.exit_code != Some(0i32) {
        (PromptFilterOutcome::Run, Some(PromptFilterFailure::NonzeroExit))
    } else if is_blank(completion.stdout@) {
        (PromptFilterOutcome::Run, Some(PromptFilterFailure::EmptyOutput))
    } else {
        match parsed {
            None => (PromptFilterOutcome::Run, Some(PromptFilterFailure::InvalidOutput)),
            Some(output) => if output.version != 1 {
                (PromptFilterOutcome::Run, Some(PromptFilterFailure::UnsupportedVersion))
            } else {
                match output.decision {
                    PromptFilterDecision::Run => (PromptFilterOutcome::Run, None),
                    PromptFilterDecision::Skip => (PromptFilterOutcome::Skip, None),
                }
            },
        }
    }
}

/// Decides from a filter's run whether the model runs.
pub fn prompt_filter_outcome(completion: &CommandRunCompletion, parsed: Option<PromptFilterOutput>) -> (r: (
    PromptFilterOutcome,
    Option<PromptFilterFailure>,
))
    ensures
        r == spec_filter_outcome(*completion, parsed),
{
    if completion.error.is_some() {
        return (PromptFilterOutcome::Run, Some(PromptFilterFailure::Command(completion.outcome)));
    }
    let exit_ok = match completion.exit_code {
        Some(code) => code == 0,
        None => false,
    };
    if !exit_ok {
        return (PromptFilterOutcome::Run, Some(PromptFilterFailure::NonzeroExit));
    }
    if str_is_blank(completion.stdout.as_str()) {
        return (PromptFilterOutcome::Run, Some(PromptFilterFailure::EmptyOutput));
    }
    match parsed {
        None => (PromptFilterOutcome::Run, Some(PromptFilterFailure::InvalidOutput)),
        Some(output) => {
            if output.version != 1 {
                (PromptFilterOutcome::Run, Some(PromptFilterFailure::UnsupportedVersion))
            } else {
                match output.decision {
                    PromptFilterDecision::Run => (PromptFilterOutcome::Run, None),
                    PromptFilterDecision::Skip => (PromptFilterOutcome::Skip, None),
                }
            }
        },
    }
}

/// Filters fail open: the model is skipped only when the filter finished
/// with exit code 0 and non-blank output that reads as version 1 saying skip.
pub proof fn lemma_filter_fails_open(completion: CommandRunCompletion, parsed: Option<PromptFilterOutput>)
    ensures
        spec_filter_outcome(completion, parsed).0 == PromptFilterOutcome::Skip <==> {
            &&& completion.error is None
            &&& completion.exit_code == Some(0i32)
            &&& !is_blank(completion.stdout@)
            &&& parsed == Some(
                PromptFilterOutput { version: 1, decision: PromptFilterDecision::Skip },
            )
        },
{
}

} // verus!
