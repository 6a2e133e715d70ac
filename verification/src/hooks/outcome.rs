//! What the run of a hook handler means: its status, its output entries and
//! the decision it contributes, and how the decisions of several handlers
//! combine.

use super::HookEventName;
use super::handler::{ConfiguredHandler, HookHandlerType};
use super::handler::run_label;
use super::prompt::{event_config_name, hook_event_name_label};
use crate::text::{
    char_is_whitespace, is_blank, is_whitespace, owned, push_signed_decimal, push_str,
    signed_decimal, str_is_blank, trim_start,
};
use vstd::prelude::*;

verus! {

/// What running a handler produced.
#[derive(Clone, Debug, PartialEq, Eq)]
pub struct HookRunOutput {
    pub exit_code: Option<i32>,
    pub stdout: String,
    pub error: Option<String>,
}

/// How a handler run ended.
#[derive(Clone, Copy, Debug, PartialEq, Eq, Structural)]
pub enum HookRunStatus {
    Running,
    Completed,
    Failed,
    Blocked,
    Stopped,
}

/// The kind of a line of hook output shown to the user.
#[derive(Clone, Copy, Debug, PartialEq, Eq, Structural)]
pub enum HookOutputEntryKind {
    Warning,
    Stop,
    Feedback,
    Context,
    Error,
}

/// A line of hook output shown to the user.
#[derive(Clone, Debug, PartialEq, Eq)]
pub struct HookOutputEntry {
    pub kind: HookOutputEntryKind,
    pub text: String,
}

/// Output entries as (kind, text) pairs.
pub open spec fn entries_view(entries: Seq<HookOutputEntry>) -> Seq<(HookOutputEntryKind, Seq<char>)> {
    entries.map_values(|e: HookOutputEntry| (e.kind, e.text@))
}

/// The error of a prompt hook whose model gave no output.
pub const EMPTY_PROMPT_OUTPUT_ERROR: &'static str = "prompt hook returned empty output";

/// Whether output looks like a JSON document: its first character that is
/// not white space opens an object or an array.
pub open spec fn looks_like_json(stdout: Seq<char>) -> bool {
    trim_start(stdout).len() > 0 && (trim_start(stdout)[0] == '{' || trim_start(stdout)[0] == '[')
}

proof fn lemma_trim_start_first(s: Seq<char>, i: int)
    requires
        0 <= i <= s.len(),
        forall|j: int| 0 <= j < i ==> is_whitespace(#[trigger] s[j]),
        i == s.len() || !is_whitespace(s[i]),
    ensures
        trim_start(s) == s.subrange(i, s.len() as int),
    decreases i,
{
    if i > 0 {
        assert(s.drop_first().subrange(i - 1, s.drop_first().len() as int) =~= s.subrange(
            i,
            s.len() as int,
        ));
        lemma_trim_start_first(s.drop_first(), i - 1);
    } else {
        assert(s.subrange(0, s.len() as int) =~= s);
    }
}

/// Decides `looks_like_json`.
pub fn output_looks_like_json(stdout: &str) -> (b: bool)
    ensures
        b == looks_like_json(stdout@),
{
    let n = stdout.unicode_len();
    let mut i: usize = 0;
    while i < n && char_is_whitespace(stdout.get_char(i))
        invariant
            n == stdout@.len(),
            i <= n,
            forall|j: int| 0 <= j < i ==> is_whitespace(#[trigger] stdout@[j]),
        decreases n - i,
    {
        i = i + 1;
    }
    proof {
        lemma_trim_start_first(stdout@, i as int);
    }
    if i == n {
        return false;
    }
    let c = stdout.get_char(i);
    c == '{' || c == '['
}

/// What a handler's output said, once the event's own parser has read it.
#[derive(Clone, Debug, PartialEq, Eq)]
pub struct ParsedHookOutput<D> {
    /// A message to show the user as a warning.
    pub system_message: Option<String>,
    /// Why the output, though JSON, breaks the event's contract.
    pub invalid_reason: Option<String>,
    /// The decision the output carries, if any.
    pub decision: Option<D>,
}

/// The meaning of one handler run.
#[derive(Clone, Debug, PartialEq, Eq)]
pub struct HookCompletion<D> {
    pub status: HookRunStatus,
    pub entries: Vec<HookOutputEntry>,
    pub decision: Option<D>,
}

/// The error when a handler exits with a code other than 0.
pub open spec fn exit_code_message(event_name: HookEventName, code: i32) -> Seq<char> {
    event_config_name(event_name) + " hook exited with code "@ + signed_decimal(code as int)
}

/// The error when a handler exits without an exit code.
pub open spec fn no_exit_code_message(event_name: HookEventName) -> Seq<char> {
    event_config_name(event_name) + " hook exited without an exit code"@
}

/// The error when a handler's output cannot be read.
pub open spec fn invalid_output_message(event_name: HookEventName) -> Seq<char> {
    "hook returned invalid "@ + run_label(event_name) + " JSON output"@
}

/// The meaning of a run as (status, entries, decision).
///
/// A run error, an exit code other than 0 or none at all fail the run. With
/// exit code 0: blank output is nothing for a command hook but a failure for
/// a prompt hook; parsed output contributes its warning and either its
/// decision or, when invalid, a failure; output that cannot be parsed fails
/// a prompt hook always and a command hook when it looks like JSON.
pub open spec fn spec_completion<D>(
    handler_type: HookHandlerType,
    event_name: HookEventName,
    run: HookRunOutput,
    parsed: Option<ParsedHookOutput<D>>,
) -> (HookRunStatus, Seq<(HookOutputEntryKind, Seq<char>)>, Option<D>) {
    match run.error {
        Some(e) => (HookRunStatus::Failed, seq![(HookOutputEntryKind::Error, e@)], None),
        None => match run.exit_code {
            Some(code) => if code == 0 {
                if is_blank(run.stdout@) {
                    if handler_type == HookHandlerType::Prompt {
                        (
                            HookRunStatus::Failed,
                            seq![(HookOutputEntryKind::Error, EMPTY_PROMPT_OUTPUT_ERROR@)],
                            None,
                        )
                    } else {
                        (HookRunStatus::Completed, Seq::empty(), None)
                    }
                } else {
                    match parsed {
                        Some(p) => {
                            let warning: Seq<(HookOutputEntryKind, Seq<char>)> = match p.system_message {
                                Some(m) => seq![(HookOutputEntryKind::Warning, m@)],
                                None => Seq::empty(),
                            };
                            match p.invalid_reason {
                                Some(reason) => (
                                    HookRunStatus::Failed,
                                    warning.push((HookOutputEntryKind::Error, reason@)),
                                    None,
                                ),
                                None => (HookRunStatus::Completed, warning, p.decision),
                            }
                        },
                        None => if handler_type == HookHandlerType::Prompt || looks_like_json(
                            run.stdout@,
                        ) {
                            (
                                HookRunStatus::Failed,
                                seq![(HookOutputEntryKind::Error, invalid_output_message(event_name))],
                                None,
                            )
                        } else {
                            (HookRunStatus::Completed, Seq::empty(), None)
                        },
                    }
                }
            } else {
                (
                    HookRunStatus::Failed,
                    seq![(HookOutputEntryKind::Error, exit_code_message(event_name, code))],
                    None,
                )
            },
            None => (
                HookRunStatus::Failed,
                seq![(HookOutputEntryKind::Error, no_exit_code_message(event_name))],
                None,
            ),
        },
    }
}

/// Output that cannot be parsed after a clean exit fails a prompt hook
/// always, and a command hook exactly when it looks like JSON.
pub proof fn lemma_unparsed_output_policy<D>(
    handler_type: HookHandlerType,
    event_name: HookEventName,
    run: HookRunOutput,
)
    requires
        run.error is None,
        run.exit_code == Some(0i32),
        !is_blank(run.stdout@),
    ensures
        spec_completion::<D>(handler_type, event_name, run, None).0 == HookRunStatus::Failed <==> (
        handler_type == HookHandlerType::Prompt || looks_like_json(run.stdout@)),
{
}

/// A failed run never carries a decision.
pub proof fn lemma_failed_run_has_no_decision<D>(
    handler_type: HookHandlerType,
    event_name: HookEventName,
    run: HookRunOutput,
    parsed: Option<ParsedHookOutput<D>>,
)
    ensures
        spec_completion(handler_type, event_name, run, parsed).0 == HookRunStatus::Failed
            ==> spec_completion(handler_type, event_name, run, parsed).2 is None,
{
}

fn error_entry(text: String) -> (e: HookOutputEntry)
    ensures
        e.kind == HookOutputEntryKind::Error,
        e.text == text,
{
    HookOutputEntry { kind: HookOutputEntryKind::Error, text }
}

/// Classifies a finished handler run.
pub fn classify_completion<D>(
    handler_type: HookHandlerType,
    event_name: HookEventName,
    run: HookRunOutput,
    parsed: Option<ParsedHookOutput<D>>,
) -> (c: HookCompletion<D>)
    ensures
        (c.status, entries_view(c.entries@), c.decision) == spec_completion(
            handler_type,
            event_name,
            run,
            parsed,
        ),
{
    let ghost run0 = run;
    let ghost parsed0 = parsed;
    let mut entries: Vec<HookOutputEntry> = Vec::new();
    match run.error {
        Some(e) => {
            entries.push(error_entry(e));
            assert(entries_view(entries@) =~= seq![(HookOutputEntryKind::Error, run0.error->0@)]);
            return HookCompletion { status: HookRunStatus::Failed, entries, decision: None };
        },
        None => {},
    }
    match run.exit_code {
        None => {
            let mut text = owned(hook_event_name_label(event_name));
            push_str(&mut text, " hook exited without an exit code");
            entries.push(error_entry(text));
            assert(entries_view(entries@) =~= seq![
                (HookOutputEntryKind::Error, no_exit_code_message(event_name)),
            ]);
            return HookCompletion { status: HookRunStatus::Failed, entries, decision: None };
        },
        Some(code) => {
            if code != 0 {
                let mut text = owned(hook_event_name_label(event_name));
                push_str(&mut text, " hook exited with code ");
                push_signed_decimal(&mut text, code as i64);
                entries.push(error_entry(text));
                assert(entries_view(entries@) =~= seq![
                    (HookOutputEntryKind::Error, exit_code_message(event_name, code)),
                ]);
                return HookCompletion { status: HookRunStatus::Failed, entries, decision: None };
            }
        },
    }
    if str_is_blank(run.stdout.as_str()) {
        if handler_type == HookHandlerType::Prompt {
            entries.push(error_entry(owned(EMPTY_PROMPT_OUTPUT_ERROR)));
            assert(entries_view(entries@) =~= seq![
                (HookOutputEntryKind::Error, EMPTY_PROMPT_OUTPUT_ERROR@),
            ]);
            return HookCompletion { status: HookRunStatus::Failed, entries, decision: None };
        }
        assert(entries_view(entries@) =~= Seq::<(HookOutputEntryKind, Seq<char>)>::empty());
        return HookCompletion { status: HookRunStatus::Completed, entries, decision: None };
    }
    match parsed {
        Some(p) => {
            match p.system_message {
                Some(m) => {
                    entries.push(HookOutputEntry { kind: HookOutputEntryKind::Warning, text: m });
                },
                None => {},
            }
            let ghost warning = entries_view(entries@);
            assert(warning =~= match parsed0->0.system_message {
                Some(m) => seq![(HookOutputEntryKind::Warning, m@)],
                None => Seq::<(HookOutputEntryKind, Seq<char>)>::empty(),
            });
            match p.invalid_reason {
                Some(reason) => {
                    entries.push(error_entry(reason));
                    assert(entries_view(entries@) =~= warning.push(
                        (HookOutputEntryKind::Error, parsed0->0.invalid_reason->0@),
                    ));
                    HookCompletion { status: HookRunStatus::Failed, entries, decision: None }
                },
                None => HookCompletion {
                    status: HookRunStatus::Completed,
                    entries,
                    decision: p.decision,
                },
            }
        },
        None => {
            if handler_type == HookHandlerType::Prompt || output_looks_like_json(run.stdout.as_str()) {
                let mut text = owned("hook returned invalid ");
                push_str(&mut text, run_label_str(event_name));
                push_str(&mut text, " JSON output");
                entries.push(error_entry(text));
                assert(entries_view(entries@) =~= seq![
                    (HookOutputEntryKind::Error, invalid_output_message(event_name)),
                ]);
                HookCompletion { status: HookRunStatus::Failed, entries, decision: None }
            } else {
                assert(entries_view(entries@) =~= Seq::<(HookOutputEntryKind, Seq<char>)>::empty());
                HookCompletion { status: HookRunStatus::Completed, entries, decision: None }
            }
        },
    }
}

fn run_label_str(event_name: HookEventName) -> (r: &'static str)
    ensures
        r@ == run_label(event_name),
{
    match event_name {
        HookEventName::PreToolUse => "pre-tool-use",
        HookEventName::PermissionRequest => "permission-request",
        HookEventName::ApprovalReviewRoute => "approval-review-route",
        HookEventName::PostToolUse => "post-tool-use",
        HookEventName::PreCompact => "pre-compact",
        HookEventName::PostCompact => "post-compact",
        HookEventName::SessionStart => "session-start",
        HookEventName::SessionEnd => "session-end",
        HookEventName::UserPromptSubmit => "user-prompt-submit",
        HookEventName::SubagentStart => "subagent-start",
        HookEventName::SubagentStop => "subagent-stop",
        HookEventName::Stop => "stop",
    }
}

// ---------------------------------------------------------------------------
// Approval-review route
// ---------------------------------------------------------------------------

/// Who reviews a request that needs approval.
#[derive(Clone, Copy, Debug, PartialEq, Eq, Structural)]
pub enum ApprovalReviewRouteDecision {
    AutoReview,
    User,
}

/// What one approval-review route handler contributes.
#[derive(Clone, Copy, Debug, Default, PartialEq, Eq, Structural)]
pub struct ApprovalReviewRouteHandlerData {
    pub decision: Option<ApprovalReviewRouteDecision>,
    /// A fail-closed handler failed, so the user must review.
    pub force_user: bool,
}

/// The contribution of one approval-review route handler run, with the
/// status and entries of the run.
pub fn parse_approval_review_route_completed(
    handler: &ConfiguredHandler,
    run: HookRunOutput,
    parsed: Option<ParsedHookOutput<ApprovalReviewRouteDecision>>,
) -> (r: (HookCompletion<ApprovalReviewRouteDecision>, ApprovalReviewRouteHandlerData))
    ensures
        (r.0.status, entries_view(r.0.entries@), r.0.decision) == spec_completion(
            handler.spec_handler_type(),
            HookEventName::ApprovalReviewRoute,
            run,
            parsed,
        ),
        r.1.decision == r.0.decision,
        r.1.force_user == (handler.spec_fail_closed() && r.0.status == HookRunStatus::Failed),
{
    let completion = classify_completion(
        handler.handler_type(),
        HookEventName::ApprovalReviewRoute,
        run,
        parsed,
    );
    let force_user = handler.fail_closed() && completion.status == HookRunStatus::Failed;
    let data = ApprovalReviewRouteHandlerData { decision: completion.decision, force_user };
    (completion, data)
}

/// The route that several handlers choose together: any forced user
/// approval wins; otherwise the last handler that picked a route decides.
pub open spec fn spec_resolve_route(data: Seq<ApprovalReviewRouteHandlerData>) -> Option<
    ApprovalReviewRouteDecision,
>
    decreases data.len(),
{
    if exists|i: int| 0 <= i < data.len() && (#[trigger] data[i]).force_user {
        Some(ApprovalReviewRouteDecision::User)
    } else {
        last_route(data)
    }
}

/// The decision of the last handler that picked a route.
pub open spec fn last_route(data: Seq<ApprovalReviewRouteHandlerData>) -> Option<
    ApprovalReviewRouteDecision,
>
    decreases data.len(),
{
    if data.len() == 0 {
        None
    } else if data.last().decision is Some {
        data.last().decision
    } else {
        last_route(data.drop_last())
    }
}

/// Combines the contributions of the handlers that ran, in order.
pub fn resolve_approval_review_route_decision(data: &[ApprovalReviewRouteHandlerData]) -> (r: Option<
    ApprovalReviewRouteDecision,
>)
    ensures
        r == spec_resolve_route(data@),
{
    let mut i: usize = 0;
    let mut last: Option<ApprovalReviewRouteDecision> = None;
    while i < data.len()
        invariant
            i <= data@.len(),
            last == last_route(data@.subrange(0, i as int)),
            forall|j: int| 0 <= j < i ==> !(#[trigger] data@[j]).force_user,
        decreases data@.len() - i,
    {
        proof {
            let sub = data@.subrange(0, i + 1);
            assert(sub.drop_last() =~= data@.subrange(0, i as int));
            assert(sub.last() == data@[i as int]);
        }
        if data[i].force_user {
            return Some(ApprovalReviewRouteDecision::User);
        }
        if data[i].decision.is_some() {
            last = data[i].decision;
        }
        i = i + 1;
    }
    assert(data@.subrange(0, data@.len() as int) =~= data@);
    last
}

/// A failed fail-closed handler sends the request to the user, whatever
/// the other handlers chose.
pub proof fn lemma_fail_closed_failure_routes_to_user(
    data: Seq<ApprovalReviewRouteHandlerData>,
    i: int,
)
    requires
        0 <= i < data.len(),
        data[i].force_user,
    ensures
        spec_resolve_route(data) == Some(ApprovalReviewRouteDecision::User),
{
}

/// When no handler picked a route and none was forced, the static
/// configuration decides (no route is returned).
pub proof fn lemma_no_choice_no_route(data: Seq<ApprovalReviewRouteHandlerData>)
    requires
        forall|i: int|
            0 <= i < data.len() ==> (#[trigger] data[i]).decision is None && !data[i].force_user,
    ensures
        spec_resolve_route(data) is None,
    decreases data.len(),
{
    if data.len() > 0 {
        assert(data[data.len() - 1] == data.last());
        let d = data.drop_last();
        assert forall|i: int| 0 <= i < d.len() implies (#[trigger] d[i]).decision is None
            && !d[i].force_user by {
            assert(d[i] == data[i]);
        }
        lemma_no_choice_no_route(d);
    }
}

// ---------------------------------------------------------------------------
// Permission request
// ---------------------------------------------------------------------------

/// A handler's answer to a permission request.
#[derive(Clone, Debug, PartialEq, Eq)]
pub enum PermissionRequestDecision {
    Allow,
    Deny { message: String },
}

/// A decision as text.
pub open spec fn decision_view(d: PermissionRequestDecision) -> Option<Seq<char>> {
    match d {
        PermissionRequestDecision::Allow => None,
        PermissionRequestDecision::Deny { message } => Some(message@),
    }
}

/// The text of the first error entry.
pub open spec fn first_error(entries: Seq<(HookOutputEntryKind, Seq<char>)>) -> Seq<char>
    decreases entries.len(),
{
    if entries.len() == 0 {
        Seq::empty()
    } else if entries[0].0 == HookOutputEntryKind::Error {
        entries[0].1
    } else {
        first_error(entries.drop_first())
    }
}

fn first_error_text(entries: &Vec<HookOutputEntry>) -> (t: String)
    ensures
        t@ == first_error(entries_view(entries@)),
{
    let mut i: usize = 0;
    let ghost all = entries_view(entries@);
    assert(all.subrange(0, all.len() as int) =~= all);
    while i < entries.len()
        invariant
            i <= entries@.len(),
            all == entries_view(entries@),
            first_error(all) == first_error(all.subrange(i as int, all.len() as int)),
        decreases entries@.len() - i,
    {
        let ghost rest = all.subrange(i as int, all.len() as int);
        assert(rest.drop_first() =~= all.subrange(i + 1, all.len() as int));
        assert(rest[0] == all[i as int]);
        if entries[i].kind == HookOutputEntryKind::Error {
            return entries[i].text.clone();
        }
        i = i + 1;
    }
    String::new()
}

/// The decision a permission-request handler contributes: a fail-closed
/// handler whose run failed denies with the run's first error; otherwise
/// the decision its output carried.
pub fn parse_permission_request_completed(
    handler: &ConfiguredHandler,
    run: HookRunOutput,
    parsed: Option<ParsedHookOutput<PermissionRequestDecision>>,
) -> (r: (HookCompletion<PermissionRequestDecision>, Option<PermissionRequestDecision>))
    ensures
        (r.0.status, entries_view(r.0.entries@), r.0.decision) == spec_completion(
            handler.spec_handler_type(),
            HookEventName::PermissionRequest,
            run,
            parsed,
        ),
        handler.spec_fail_closed() && r.0.status == HookRunStatus::Failed ==> (r.1 matches Some(
            PermissionRequestDecision::Deny { message },
        ) && message@ == first_error(entries_view(r.0.entries@))),
        !(handler.spec_fail_closed() && r.0.status == HookRunStatus::Failed) ==> r.1 == r.0.decision,
{
    let completion = classify_completion(
        handler.handler_type(),
        HookEventName::PermissionRequest,
        run,
        parsed,
    );
    if handler.fail_closed() && completion.status == HookRunStatus::Failed {
        let message = first_error_text(&completion.entries);
        (completion, Some(PermissionRequestDecision::Deny { message }))
    } else {
        let decision = match &completion.decision {
            Some(PermissionRequestDecision::Allow) => Some(PermissionRequestDecision::Allow),
            Some(PermissionRequestDecision::Deny { message }) => Some(
                PermissionRequestDecision::Deny { message: message.clone() },
            ),
            None => None,
        };
        (completion, decision)
    }
}

/// The decision of several handlers: the first denial wins; otherwise allow
/// when any handler allowed; otherwise none.
pub open spec fn spec_resolve_permission(decisions: Seq<PermissionRequestDecision>) -> Option<
    PermissionRequestDecision,
>
    decreases decisions.len(),
{
    if decisions.len() == 0 {
        None
    } else {
        match decisions[0] {
            PermissionRequestDecision::Deny { message } => Some(
                PermissionRequestDecision::Deny { message },
            ),
            PermissionRequestDecision::Allow => match spec_resolve_permission(
                decisions.drop_first(),
            ) {
                Some(d) => Some(d),
                None => Some(PermissionRequestDecision::Allow),
            },
        }
    }
}

/// Combines the decisions of the handlers that decided, in order.
pub fn resolve_permission_request_decision(decisions: &[PermissionRequestDecision]) -> (r: Option<
    PermissionRequestDecision,
>)
    ensures
        r == spec_resolve_permission(decisions@),
{
    let mut i: usize = decisions.len();
    let mut result: Option<PermissionRequestDecision> = None;
    assert(decisions@.subrange(decisions@.len() as int, decisions@.len() as int) =~= Seq::<
        PermissionRequestDecision,
    >::empty());
    while i > 0
        invariant
            i <= decisions@.len(),
            result == spec_resolve_permission(
                decisions@.subrange(i as int, decisions@.len() as int),
            ),
        decreases i,
    {
        i = i - 1;
        let ghost sub = decisions@.subrange(i as int, decisions@.len() as int);
        assert(sub.drop_first() =~= decisions@.subrange(i + 1, decisions@.len() as int));
        assert(sub[0] == decisions@[i as int]);
        match &decisions[i] {
            PermissionRequestDecision::Deny { message } => {
                result = Some(PermissionRequestDecision::Deny { message: message.clone() });
            },
            PermissionRequestDecision::Allow => {
                if result.is_none() {
                    result = Some(PermissionRequestDecision::Allow);
                }
            },
        }
    }
    assert(decisions@.subrange(0, decisions@.len() as int) =~= decisions@);
    result
}

/// A denial by any handler cannot be overridden by an allow.
pub proof fn lemma_any_denial_denies(decisions: Seq<PermissionRequestDecision>, i: int)
    requires
        0 <= i < decisions.len(),
        decisions[i] is Deny,
    ensures
        spec_resolve_permission(decisions) matches Some(PermissionRequestDecision::Deny { .. }),
    decreases decisions.len(),
{
    if i > 0 && decisions[0] is Allow {
        assert(decisions.drop_first()[i - 1] == decisions[i]);
        lemma_any_denial_denies(decisions.drop_first(), i - 1);
    }
}

} // verus!
