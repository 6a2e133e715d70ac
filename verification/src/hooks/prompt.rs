//! Prompt hooks: rendering the model prompt around the untrusted event JSON,
//! and turning what the model runner answered into a run result.

use super::HookEventName;
use super::handler::{ConfiguredHandler, ConfiguredHandlerKind, ReasoningEffort};
use super::outcome::HookRunOutput;
use crate::text::{
    chars_of, contains_chars, contains_seq, decimal, owned, push_decimal, push_str, push_wide_decimal,
    replace_all, replace_str, utf8_len, utf8_len_of,
};
use vstd::prelude::*;

verus! {

/// Placeholder in a prompt that stands for the event JSON envelope.
pub const PROMPT_ARGUMENTS_PLACEHOLDER: &'static str = "$$ARGUMENTS";

/// Most bytes of event JSON that a prompt hook accepts.
pub const PROMPT_HOOK_EVENT_JSON_LIMIT: u64 = 65536;

/// Most estimated tokens that a rendered prompt may have.
pub const PROMPT_HOOK_INPUT_TOKEN_LIMIT: u64 = 8192;

/// Opening line of the envelope around the event JSON.
pub const UNTRUSTED_EVENT_JSON_PREFIX: &'static str = "<untrusted-hook-event-json>\n";

/// Closing line of the envelope around the event JSON.
pub const UNTRUSTED_EVENT_JSON_SUFFIX: &'static str = "\n</untrusted-hook-event-json>";

/// The events that prompt hooks can handle.
pub open spec fn prompt_event(event_name: HookEventName) -> bool {
    match event_name {
        HookEventName::PreToolUse => true,
        HookEventName::PermissionRequest => true,
        HookEventName::ApprovalReviewRoute => true,
        HookEventName::PreCompact => true,
        HookEventName::SessionStart => true,
        HookEventName::UserPromptSubmit => true,
        HookEventName::SubagentStart => true,
        _ => false,
    }
}

/// Whether prompt hooks are supported for the event.
pub fn supports_event(event_name: HookEventName) -> (b: bool)
    ensures
        b == prompt_event(event_name),
{
    match event_name {
        HookEventName::PreToolUse => true,
        HookEventName::PermissionRequest => true,
        HookEventName::ApprovalReviewRoute => true,
        HookEventName::PreCompact => true,
        HookEventName::SessionStart => true,
        HookEventName::UserPromptSubmit => true,
        HookEventName::SubagentStart => true,
        _ => false,
    }
}

/// The name of an event as hook configuration files spell it.
pub open spec fn event_config_name(event_name: HookEventName) -> Seq<char> {
    match event_name {
        HookEventName::PreToolUse => "PreToolUse"@,
        HookEventName::PermissionRequest => "PermissionRequest"@,
        HookEventName::ApprovalReviewRoute => "ApprovalReviewRoute"@,
        HookEventName::PostToolUse => "PostToolUse"@,
        HookEventName::PreCompact => "PreCompact"@,
        HookEventName::PostCompact => "PostCompact"@,
        HookEventName::SessionStart => "SessionStart"@,
        HookEventName::SessionEnd => "SessionEnd"@,
        HookEventName::UserPromptSubmit => "UserPromptSubmit"@,
        HookEventName::SubagentStart => "SubagentStart"@,
        HookEventName::SubagentStop => "SubagentStop"@,
        HookEventName::Stop => "Stop"@,
    }
}

/// Returns the name of an event as hook configuration files spell it.
pub fn hook_event_name_label(event_name: HookEventName) -> (r: &'static str)
    ensures
        r@ == event_config_name(event_name),
{
    match event_name {
        HookEventName::PreToolUse => "PreToolUse",
        HookEventName::PermissionRequest => "PermissionRequest",
        HookEventName::ApprovalReviewRoute => "ApprovalReviewRoute",
        HookEventName::PostToolUse => "PostToolUse",
        HookEventName::PreCompact => "PreCompact",
        HookEventName::PostCompact => "PostCompact",
        HookEventName::SessionStart => "SessionStart",
        HookEventName::SessionEnd => "SessionEnd",
        HookEventName::UserPromptSubmit => "UserPromptSubmit",
        HookEventName::SubagentStart => "SubagentStart",
        HookEventName::SubagentStop => "SubagentStop",
        HookEventName::Stop => "Stop",
    }
}

/// How one character of event JSON is written inside the envelope: the
/// angle brackets as JSON unicode escapes, every other character as is.
pub open spec fn escaped_char(c: char) -> Seq<char> {
    if c == '<' {
        seq!['\\', 'u', '0', '0', '3', 'c']
    } else if c == '>' {
        seq!['\\', 'u', '0', '0', '3', 'e']
    } else {
        seq![c]
    }
}

/// The event JSON with its angle brackets escaped, so that it cannot close
/// (or open) the envelope around it.
pub open spec fn escape_event_json(s: Seq<char>) -> Seq<char>
    decreases s.len(),
{
    if s.len() == 0 {
        Seq::empty()
    } else {
        escape_event_json(s.drop_last()) + escaped_char(s.last())
    }
}

/// Escaped event JSON holds no angle bracket.
pub proof fn lemma_escaped_json_has_no_angle_brackets(s: Seq<char>)
    ensures
        forall|i: int|
            0 <= i < escape_event_json(s).len() ==> #[trigger] escape_event_json(s)[i] != '<'
                && escape_event_json(s)[i] != '>',
    decreases s.len(),
{
    if s.len() > 0 {
        lemma_escaped_json_has_no_angle_brackets(s.drop_last());
        let prev = escape_event_json(s.drop_last());
        let tail = escaped_char(s.last());
        assert forall|i: int| 0 <= i < escape_event_json(s).len() implies #[trigger] escape_event_json(
            s,
        )[i] != '<' && escape_event_json(s)[i] != '>' by {
            if i >= prev.len() {
                assert(escape_event_json(s)[i] == tail[i - prev.len()]);
            } else {
                assert(escape_event_json(s)[i] == prev[i]);
            }
        }
    }
}

fn escape_json(s: &str) -> (r: String)
    ensures
        r@ == escape_event_json(s@),
{
    let n = s.unicode_len();
    let mut r = String::new();
    let mut i: usize = 0;
    while i < n
        invariant
            n == s@.len(),
            i <= n,
            r@ == escape_event_json(s@.subrange(0, i as int)),
        decreases n - i,
    {
        let c = s.get_char(i);
        proof {
            let sub = s@.subrange(0, i + 1);
            assert(sub.drop_last() =~= s@.subrange(0, i as int));
            assert(sub.last() == c);
        }
        let ghost before = r@;
        if c == '<' {
            push_str(&mut r, "\\u003c");
            proof {
                reveal_strlit("\\u003c");
            }
        } else if c == '>' {
            push_str(&mut r, "\\u003e");
            proof {
                reveal_strlit("\\u003e");
            }
        } else {
            crate::text::push_char(&mut r, c);
        }
        assert(r@ =~= before + escaped_char(c));
        i = i + 1;
    }
    assert(s@.subrange(0, n as int) =~= s@);
    r
}

/// The envelope that carries the event JSON into the prompt.
pub open spec fn envelope(input_json: Seq<char>) -> Seq<char> {
    UNTRUSTED_EVENT_JSON_PREFIX@ + escape_event_json(input_json) + UNTRUSTED_EVENT_JSON_SUFFIX@
}

/// The estimate of tokens in a text of `bytes` UTF-8 bytes: one per four bytes, rounded up.
pub open spec fn approx_tokens(bytes: nat) -> nat {
    (bytes + 3) / 4
}

/// The prompt with the envelope in place of every placeholder, or after
/// the prompt and a blank line when it has none.
pub open spec fn substituted_prompt(prompt: Seq<char>, input_json: Seq<char>) -> Seq<char> {
    if contains_seq(prompt, PROMPT_ARGUMENTS_PLACEHOLDER@) {
        replace_all(prompt, PROMPT_ARGUMENTS_PLACEHOLDER@, envelope(input_json))
    } else {
        prompt + "\n\n"@ + envelope(input_json)
    }
}

/// What rendering a prompt hook's prompt gives: the rendered prompt, or why
/// the event cannot be sent to the model.
pub open spec fn spec_render_prompt(prompt: Seq<char>, input_json: Seq<char>) -> Result<
    Seq<char>,
    Seq<char>,
> {
    if utf8_len(input_json) > PROMPT_HOOK_EVENT_JSON_LIMIT {
        Err("prompt hook event JSON exceeds the 65536-byte limit"@)
    } else {
        let rendered = substituted_prompt(prompt, input_json);
        let tokens = approx_tokens(utf8_len(rendered));
        if tokens > PROMPT_HOOK_INPUT_TOKEN_LIMIT {
            Err("prompt hook input is estimated at "@ + decimal(tokens)
                + " tokens, exceeding the 8192-token limit"@)
        } else {
            Ok(rendered)
        }
    }
}

/// Renders the model prompt of a prompt hook around the event JSON.
pub fn render_prompt(prompt: &str, input_json: &str) -> (r: Result<String, String>)
    ensures
        match r {
            Ok(s) => spec_render_prompt(prompt@, input_json@) == Ok::<Seq<char>, Seq<char>>(s@),
            Err(e) => spec_render_prompt(prompt@, input_json@) == Err::<Seq<char>, Seq<char>>(e@),
        },
{
    let json_len = utf8_len_of(input_json);
    if json_len > PROMPT_HOOK_EVENT_JSON_LIMIT as u128 {
        return Err(owned("prompt hook event JSON exceeds the 65536-byte limit"));
    }
    let escaped = escape_json(input_json);
    let mut wrapped = String::new();
    push_str(&mut wrapped, UNTRUSTED_EVENT_JSON_PREFIX);
    push_str(&mut wrapped, escaped.as_str());
    push_str(&mut wrapped, UNTRUSTED_EVENT_JSON_SUFFIX);
    let prompt_chars = chars_of(prompt);
    let placeholder = chars_of(PROMPT_ARGUMENTS_PLACEHOLDER);
    let rendered = if contains_chars(&prompt_chars, &placeholder) {
        proof {
            reveal_strlit("$$ARGUMENTS");
        }
        replace_str(prompt, PROMPT_ARGUMENTS_PLACEHOLDER, wrapped.as_str())
    } else {
        let mut r = owned(prompt);
        push_str(&mut r, "\n\n");
        push_str(&mut r, wrapped.as_str());
        r
    };
    let bytes = utf8_len_of(rendered.as_str());
    let tokens: u128 = if bytes % 4 == 0 {
        bytes / 4
    } else {
        bytes / 4 + 1
    };
    assert(tokens == approx_tokens(bytes as nat));
    if tokens > PROMPT_HOOK_INPUT_TOKEN_LIMIT as u128 {
        let mut message = String::new();
        push_str(&mut message, "prompt hook input is estimated at ");
        push_wide_decimal(&mut message, tokens);
        push_str(&mut message, " tokens, exceeding the 8192-token limit");
        return Err(message);
    }
    Ok(rendered)
}

/// The JSON schemas of the output that each event accepts from a hook,
/// one for each event that prompt hooks support.
#[derive(Clone, Debug, PartialEq, Eq)]
pub struct HookOutputSchemas {
    pub pre_tool_use: String,
    pub permission_request: String,
    pub approval_review_route: String,
    pub pre_compact: String,
    pub session_start: String,
    pub user_prompt_submit: String,
    pub subagent_start: String,
}

/// The output schema of an event, for the events that prompt hooks support.
pub open spec fn schema_for(schemas: HookOutputSchemas, event_name: HookEventName) -> Option<Seq<char>> {
    match event_name {
        HookEventName::PreToolUse => Some(schemas.pre_tool_use@),
        HookEventName::PermissionRequest => Some(schemas.permission_request@),
        HookEventName::ApprovalReviewRoute => Some(schemas.approval_review_route@),
        HookEventName::PreCompact => Some(schemas.pre_compact@),
        HookEventName::SessionStart => Some(schemas.session_start@),
        HookEventName::UserPromptSubmit => Some(schemas.user_prompt_submit@),
        HookEventName::SubagentStart => Some(schemas.subagent_start@),
        _ => None,
    }
}

/// Picks the output schema of an event; `None` for the events that prompt
/// hooks do not support.
pub fn output_schema_for(schemas: &HookOutputSchemas, event_name: HookEventName) -> (r: Option<String>)
    ensures
        match r {
            Some(s) => schema_for(*schemas, event_name) == Some(s@),
            None => schema_for(*schemas, event_name) is None,
        },
        r is Some <==> prompt_event(event_name),
{
    match event_name {
        HookEventName::PreToolUse => Some(schemas.pre_tool_use.clone()),
        HookEventName::PermissionRequest => Some(schemas.permission_request.clone()),
        HookEventName::ApprovalReviewRoute => Some(schemas.approval_review_route.clone()),
        HookEventName::PreCompact => Some(schemas.pre_compact.clone()),
        HookEventName::SessionStart => Some(schemas.session_start.clone()),
        HookEventName::UserPromptSubmit => Some(schemas.user_prompt_submit.clone()),
        HookEventName::SubagentStart => Some(schemas.subagent_start.clone()),
        _ => None,
    }
}

/// What a prompt hook hands the model runner.
#[derive(Clone, Debug, PartialEq, Eq)]
pub struct PromptHookRequest {
    pub rendered_prompt: String,
    pub model: Option<String>,
    pub reasoning_effort: Option<ReasoningEffort>,
    pub event_name: HookEventName,
    /// The JSON schema that the runner's answer must conform to.
    pub output_schema: String,
}

/// The (prompt, model, reasoning effort, event, output schema) of a
/// request, as text.
pub open spec fn request_view(r: PromptHookRequest) -> (
    Seq<char>,
    Option<Seq<char>>,
    Option<ReasoningEffort>,
    HookEventName,
    Seq<char>,
) {
    (
        r.rendered_prompt@,
        match r.model {
            Some(m) => Some(m@),
            None => None,
        },
        r.reasoning_effort,
        r.event_name,
        r.output_schema@,
    )
}

/// What a prompt hook asks of the runner, or why it fails before asking.
pub open spec fn spec_prepare_prompt_run(
    handler: ConfiguredHandler,
    has_runner: bool,
    input_json: Seq<char>,
    schemas: HookOutputSchemas,
) -> Result<(Seq<char>, Option<Seq<char>>, Option<ReasoningEffort>, HookEventName, Seq<char>), Seq<char>> {
    match handler.kind {
        ConfiguredHandlerKind::Prompt { prompt, model, reasoning_effort, .. } => {
            if !has_runner {
                Err("prompt hook cannot run because no prompt runner is configured"@)
            } else {
                match spec_render_prompt(prompt@, input_json) {
                    Err(e) => Err(e),
                    Ok(rendered) => if !prompt_event(handler.event_name) {
                        Err("prompt hooks are not supported for "@ + event_config_name(
                            handler.event_name,
                        ))
                    } else {
                        Ok(
                            (
                                rendered,
                                match model {
                                    Some(m) => Some(m@),
                                    None => None,
                                },
                                reasoning_effort,
                                handler.event_name,
                                schema_for(schemas, handler.event_name)->Some_0,
                            ),
                        )
                    },
                }
            }
        },
        _ => Err("command handler cannot run as a prompt hook"@),
    }
}

/// Builds the request that a prompt hook sends to the model runner, or the
/// error that its run fails with before any request.
pub fn prepare_prompt_run(
    handler: &ConfiguredHandler,
    has_runner: bool,
    input_json: &str,
    schemas: &HookOutputSchemas,
) -> (r: Result<PromptHookRequest, String>)
    ensures
        match r {
            Ok(request) => spec_prepare_prompt_run(*handler, has_runner, input_json@, *schemas)
                == Ok::<
                (Seq<char>, Option<Seq<char>>, Option<ReasoningEffort>, HookEventName, Seq<char>),
                Seq<char>,
            >(request_view(request)),
            Err(e) => spec_prepare_prompt_run(*handler, has_runner, input_json@, *schemas) == Err::<
                (Seq<char>, Option<Seq<char>>, Option<ReasoningEffort>, HookEventName, Seq<char>),
                Seq<char>,
            >(e@),
        },
{
    match &handler.kind {
        ConfiguredHandlerKind::Prompt { prompt, model, reasoning_effort, .. } => {
            if !has_runner {
                return Err(
                    owned("prompt hook cannot run because no prompt runner is configured"),
                );
            }
            let rendered = render_prompt(prompt.as_str(), input_json)?;
            let output_schema = match output_schema_for(schemas, handler.event_name) {
                Some(schema) => schema,
                None => {
                    let mut message = owned("prompt hooks are not supported for ");
                    push_str(&mut message, hook_event_name_label(handler.event_name));
                    return Err(message);
                },
            };
            let model = match model {
                Some(m) => Some(m.clone()),
                None => None,
            };
            Ok(
                PromptHookRequest {
                    rendered_prompt: rendered,
                    model,
                    reasoning_effort: *reasoning_effort,
                    event_name: handler.event_name,
                    output_schema,
                },
            )
        },
        _ => Err(owned("command handler cannot run as a prompt hook")),
    }
}

/// What came back from the model runner.
#[derive(Clone, Debug, PartialEq, Eq)]
pub enum PromptReply {
    /// The runner answered with this text.
    Answered(String),
    /// The runner failed with this error.
    Failed(String),
    /// The runner did not answer within the handler's time limit.
    TimedOut,
}

/// The run result of a prompt hook after the runner replied.
pub open spec fn spec_prompt_run_output(reply: PromptReply, timeout_sec: u64) -> (
    Option<i32>,
    Seq<char>,
    Option<Seq<char>>,
) {
    match reply {
        PromptReply::Answered(stdout) => (Some(0i32), stdout@, None),
        PromptReply::Failed(error) => (None, Seq::empty(), Some(error@)),
        PromptReply::TimedOut => (
            None,
            Seq::empty(),
            Some("prompt hook timed out after "@ + decimal(timeout_sec as nat) + "s"@),
        ),
    }
}

/// The (exit code, stdout, error) of a run result, as text.
pub open spec fn run_output_view(o: HookRunOutput) -> (Option<i32>, Seq<char>, Option<Seq<char>>) {
    (
        o.exit_code,
        o.stdout@,
        match o.error {
            Some(e) => Some(e@),
            None => None,
        },
    )
}

/// Turns the runner's reply into the prompt hook's run result: an answer
/// is a successful run with the answer as output, anything else a failed one.
pub fn prompt_run_output(reply: PromptReply, timeout_sec: u64) -> (o: HookRunOutput)
    ensures
        run_output_view(o) == spec_prompt_run_output(reply, timeout_sec),
{
    match reply {
        PromptReply::Answered(stdout) => HookRunOutput { exit_code: Some(0), stdout, error: None },
        PromptReply::Failed(error) => HookRunOutput {
            exit_code: None,
            stdout: String::new(),
            error: Some(error),
        },
        PromptReply::TimedOut => {
            let mut message = owned("prompt hook timed out after ");
            push_decimal(&mut message, timeout_sec);
            push_str(&mut message, "s");
            HookRunOutput { exit_code: None, stdout: String::new(), error: Some(message) }
        },
    }
}

} // verus!
