//! Multi-agent transcript rows: titles and summaries of collaboration tool
//! calls and sub-agent activity, and names in the agent picker.

use super::styled::{SpanStyle, StyledSpan, line_view, span, span_view};
use crate::hooks::handler::ReasoningEffort;
use crate::text::{decimal, owned, push_decimal, push_str, str_is_blank, trim, trim_str, is_blank};
use vstd::prelude::*;

verus! {

/// How much of the parent's context a spawned agent inherits.
#[derive(Clone, Copy, Debug, PartialEq, Eq, Structural)]
pub enum SpawnContextInheritance {
    Full,
    NoContext,
    LastNTurns { turns: u32 },
}

/// The context note of a spawn: ` · context: all`, `none` or `last N turn(s)`.
pub open spec fn spec_context_detail(ci: Option<SpawnContextInheritance>) -> Option<Seq<char>> {
    match ci {
        None => None,
        Some(SpawnContextInheritance::Full) => Some(" · context: all"@),
        Some(SpawnContextInheritance::NoContext) => Some(" · context: none"@),
        Some(SpawnContextInheritance::LastNTurns { turns }) => Some(
            " · context: last "@ + decimal(turns as nat) + if turns == 1 {
                " turn"@
            } else {
                " turns"@
            },
        ),
    }
}

pub fn context_inheritance_detail(ci: Option<SpawnContextInheritance>) -> (r: Option<String>)
    ensures
        match r {
            Some(s) => spec_context_detail(ci) == Some(s@),
            None => spec_context_detail(ci) is None,
        },
{
    match ci {
        None => None,
        Some(SpawnContextInheritance::Full) => Some(owned(" · context: all")),
        Some(SpawnContextInheritance::NoContext) => Some(owned(" · context: none")),
        Some(SpawnContextInheritance::LastNTurns { turns }) => {
            let mut s = owned(" · context: last ");
            push_decimal(&mut s, turns as u64);
            if turns == 1 {
                push_str(&mut s, " turn");
            } else {
                push_str(&mut s, " turns");
            }
            Some(s)
        },
    }
}

/// The label of a reasoning effort.
pub open spec fn spec_effort_label(e: ReasoningEffort) -> Seq<char> {
    match e {
        ReasoningEffort::Disabled => "none"@,
        ReasoningEffort::Minimal => "minimal"@,
        ReasoningEffort::Low => "low"@,
        ReasoningEffort::Medium => "medium"@,
        ReasoningEffort::High => "high"@,
        ReasoningEffort::XHigh => "xhigh"@,
    }
}

pub fn reasoning_effort_label(e: ReasoningEffort) -> (r: &'static str)
    ensures
        r@ == spec_effort_label(e),
{
    match e {
        ReasoningEffort::Disabled => "none",
        ReasoningEffort::Minimal => "minimal",
        ReasoningEffort::Low => "low",
        ReasoningEffort::Medium => "medium",
        ReasoningEffort::High => "high",
        ReasoningEffort::XHigh => "xhigh",
    }
}

/// The parts joined with `sep` between them.
pub open spec fn join(parts: Seq<Seq<char>>, sep: Seq<char>) -> Seq<char>
    decreases parts.len(),
{
    if parts.len() == 0 {
        Seq::empty()
    } else if parts.len() == 1 {
        parts[0]
    } else {
        join(parts.drop_last(), sep) + sep + parts.last()
    }
}

fn join_strings(parts: &Vec<String>, sep: &str) -> (r: String)
    ensures
        r@ == join(parts@.map_values(|p: String| p@), sep@),
{
    let ghost all = parts@.map_values(|p: String| p@);
    let mut r = String::new();
    let mut i: usize = 0;
    while i < parts.len()
        invariant
            i <= parts@.len(),
            all == parts@.map_values(|p: String| p@),
            r@ == join(all.subrange(0, i as int), sep@),
        decreases parts@.len() - i,
    {
        proof {
            let sub = all.subrange(0, i + 1);
            assert(sub.drop_last() =~= all.subrange(0, i as int));
            assert(sub.last() == parts@[i as int]@);
        }
        if i > 0 {
            push_str(&mut r, sep);
        } else {
            assert(all.subrange(0, 0) =~= Seq::<Seq<char>>::empty());
            assert(r@ =~= Seq::<char>::empty());
        }
        push_str(&mut r, parts[i].as_str());
        i = i + 1;
    }
    assert(all.subrange(0, all.len() as int) =~= all);
    r
}

// ---------------------------------------------------------------------------
// Sub-agent activity
// ---------------------------------------------------------------------------

#[derive(Clone, Copy, Debug, PartialEq, Eq, Structural)]
pub enum SubAgentActivityKind {
    Started,
    Interacted,
    Interrupted,
}

#[derive(Clone, Copy, Debug, PartialEq, Eq, Structural)]
pub enum SubAgentActivityOperation {
    SendMessage,
    FollowupTask,
    ParentReply,
    InspectAgent,
}

#[derive(Clone, Copy, Debug, PartialEq, Eq, Structural)]
pub enum SubAgentActivityOutcome {
    Succeeded,
    Failed,
}

/// What a sub-agent activity row says happened.
#[derive(Clone, Copy, Debug, PartialEq, Eq, Structural)]
pub enum SubAgentActivityAction {
    Started,
    Interacted,
    Interrupted,
    SentMessage,
    FailedToSendMessage,
    SentFollowup,
    FailedToSendFollowup,
    Replied,
    FailedToReply,
    Inspected,
    FailedToInspect,
}

impl SubAgentActivityAction {
    pub open spec fn spec_title_prefix(self) -> Seq<char> {
        match self {
            SubAgentActivityAction::Started => "Started"@,
            SubAgentActivityAction::Interacted => "Interacted with"@,
            SubAgentActivityAction::Interrupted => "Interrupted"@,
            SubAgentActivityAction::SentMessage => "Sent message to"@,
            SubAgentActivityAction::FailedToSendMessage => "Failed to send message to"@,
            SubAgentActivityAction::SentFollowup => "Sent follow-up to"@,
            SubAgentActivityAction::FailedToSendFollowup => "Failed to send follow-up to"@,
            SubAgentActivityAction::Replied => "Replied to"@,
            SubAgentActivityAction::FailedToReply => "Failed to reply to"@,
            SubAgentActivityAction::Inspected => "Inspected"@,
            SubAgentActivityAction::FailedToInspect => "Failed to inspect"@,
        }
    }

    pub fn title_prefix(self) -> (r: &'static str)
        ensures
            r@ == self.spec_title_prefix(),
    {
        match self {
            SubAgentActivityAction::Started => "Started",
            SubAgentActivityAction::Interacted => "Interacted with",
            SubAgentActivityAction::Interrupted => "Interrupted",
            SubAgentActivityAction::SentMessage => "Sent message to",
            SubAgentActivityAction::FailedToSendMessage => "Failed to send message to",
            SubAgentActivityAction::SentFollowup => "Sent follow-up to",
            SubAgentActivityAction::FailedToSendFollowup => "Failed to send follow-up to",
            SubAgentActivityAction::Replied => "Replied to",
            SubAgentActivityAction::FailedToReply => "Failed to reply to",
            SubAgentActivityAction::Inspected => "Inspected",
            SubAgentActivityAction::FailedToInspect => "Failed to inspect",
        }
    }
}

/// The action of an activity: its operation and whether it failed, or,
/// without an operation, its kind.
pub open spec fn spec_activity_action(
    kind: SubAgentActivityKind,
    operation: Option<SubAgentActivityOperation>,
    outcome: Option<SubAgentActivityOutcome>,
) -> SubAgentActivityAction {
    let failed = outcome == Some(SubAgentActivityOutcome::Failed);
    match operation {
        Some(SubAgentActivityOperation::SendMessage) => if failed {
            SubAgentActivityAction::FailedToSendMessage
        } else {
            SubAgentActivityAction::SentMessage
        },
        Some(SubAgentActivityOperation::FollowupTask) => if failed {
            SubAgentActivityAction::FailedToSendFollowup
        } else {
            SubAgentActivityAction::SentFollowup
        },
        Some(SubAgentActivityOperation::ParentReply) => if failed {
            SubAgentActivityAction::FailedToReply
        } else {
            SubAgentActivityAction::Replied
        },
        Some(SubAgentActivityOperation::InspectAgent) => if failed {
            SubAgentActivityAction::FailedToInspect
        } else {
            SubAgentActivityAction::Inspected
        },
        None => match kind {
            SubAgentActivityKind::Started => SubAgentActivityAction::Started,
            SubAgentActivityKind::Interacted => SubAgentActivityAction::Interacted,
            SubAgentActivityKind::Interrupted => SubAgentActivityAction::Interrupted,
        },
    }
}

pub fn sub_agent_activity_action(
    kind: SubAgentActivityKind,
    operation: Option<SubAgentActivityOperation>,
    outcome: Option<SubAgentActivityOutcome>,
) -> (a: SubAgentActivityAction)
    ensures
        a == spec_activity_action(kind, operation, outcome),
{
    let failed = outcome == Some(SubAgentActivityOutcome::Failed);
    match operation {
        Some(SubAgentActivityOperation::SendMessage) => if failed {
            SubAgentActivityAction::FailedToSendMessage
        } else {
            SubAgentActivityAction::SentMessage
        },
        Some(SubAgentActivityOperation::FollowupTask) => if failed {
            SubAgentActivityAction::FailedToSendFollowup
        } else {
            SubAgentActivityAction::SentFollowup
        },
        Some(SubAgentActivityOperation::ParentReply) => if failed {
            SubAgentActivityAction::FailedToReply
        } else {
            SubAgentActivityAction::Replied
        },
        Some(SubAgentActivityOperation::InspectAgent) => if failed {
            SubAgentActivityAction::FailedToInspect
        } else {
            SubAgentActivityAction::Inspected
        },
        None => match kind {
            SubAgentActivityKind::Started => SubAgentActivityAction::Started,
            SubAgentActivityKind::Interacted => SubAgentActivityAction::Interacted,
            SubAgentActivityKind::Interrupted => SubAgentActivityAction::Interrupted,
        },
    }
}

/// How an activity changes whether the agent is running: failures and
/// informational activity leave it as it is.
pub open spec fn spec_running_update(
    kind: SubAgentActivityKind,
    operation: Option<SubAgentActivityOperation>,
    outcome: Option<SubAgentActivityOutcome>,
) -> Option<bool> {
    if outcome == Some(SubAgentActivityOutcome::Failed) {
        None
    } else {
        match kind {
            SubAgentActivityKind::Started => Some(true),
            SubAgentActivityKind::Interrupted => Some(false),
            SubAgentActivityKind::Interacted => match operation {
                Some(op) => if (op == SubAgentActivityOperation::FollowupTask || op
                    == SubAgentActivityOperation::ParentReply) && outcome == Some(
                    SubAgentActivityOutcome::Succeeded,
                ) {
                    Some(true)
                } else {
                    None
                },
                None => if outcome is None {
                    Some(true)
                } else {
                    Some(false)
                },
            },
        }
    }
}

/// The status dot in front of an agent in the picker: green while the agent
/// is open, plain once it is closed, then a space.
pub fn agent_picker_status_dot_spans(is_closed: bool) -> (r: Vec<StyledSpan>)
    ensures
        line_view(r@) == seq![
            (if is_closed { SpanStyle::Plain } else { SpanStyle::Green }, "•"@),
            (SpanStyle::Plain, " "@),
        ],
{
    let style = if is_closed {
        SpanStyle::Plain
    } else {
        SpanStyle::Green
    };
    super::styled::pair_line(span(style, owned("•")), span(SpanStyle::Plain, owned(" ")))
}

pub fn sub_agent_activity_running_update(
    kind: SubAgentActivityKind,
    operation: Option<SubAgentActivityOperation>,
    outcome: Option<SubAgentActivityOutcome>,
) -> (r: Option<bool>)
    ensures
        r == spec_running_update(kind, operation, outcome),
{
    if outcome == Some(SubAgentActivityOutcome::Failed) {
        return None;
    }
    match kind {
        SubAgentActivityKind::Started => Some(true),
        SubAgentActivityKind::Interrupted => Some(false),
        SubAgentActivityKind::Interacted => match operation {
            Some(op) => {
                if (op == SubAgentActivityOperation::FollowupTask || op
                    == SubAgentActivityOperation::ParentReply) && outcome == Some(
                    SubAgentActivityOutcome::Succeeded,
                ) {
                    Some(true)
                } else {
                    None
                }
            },
            None => {
                if outcome.is_none() {
                    Some(true)
                } else {
                    Some(false)
                }
            },
        },
    }
}

/// A failed activity never changes whether the agent is running.
pub proof fn lemma_failed_activity_keeps_liveness(
    kind: SubAgentActivityKind,
    operation: Option<SubAgentActivityOperation>,
)
    ensures
        spec_running_update(kind, operation, Some(SubAgentActivityOutcome::Failed)) is None,
{
}

/// The execution details of a started agent: ` (model, effort, fast)` and the context note.
pub open spec fn spec_execution_details(
    action: SubAgentActivityAction,
    model: Option<Seq<char>>,
    effort: Option<ReasoningEffort>,
    fast: bool,
    ci: Option<SpawnContextInheritance>,
) -> Option<Seq<char>> {
    if action != SubAgentActivityAction::Started {
        None
    } else {
        let m: Seq<Seq<char>> = match model {
            Some(x) => if x.len() > 0 {
                seq![x]
            } else {
                Seq::empty()
            },
            None => Seq::empty(),
        };
        let e: Seq<Seq<char>> = match effort {
            Some(x) => seq![spec_effort_label(x)],
            None => Seq::empty(),
        };
        let f: Seq<Seq<char>> = if fast {
            seq!["fast"@]
        } else {
            Seq::empty()
        };
        let parts = m + e + f;
        let exec: Option<Seq<char>> = if parts.len() > 0 {
            Some(" ("@ + join(parts, ", "@) + ")"@)
        } else {
            None
        };
        match (exec, spec_context_detail(ci)) {
            (Some(x), Some(c)) => Some(x + c),
            (Some(x), None) => Some(x),
            (None, Some(c)) => Some(c),
            (None, None) => None,
        }
    }
}

fn push_part(parts: &mut Vec<String>, part: String)
    ensures
        final(parts)@.map_values(|p: String| p@) == old(parts)@.map_values(|p: String| p@).push(
            part@,
        ),
{
    let ghost before = parts@.map_values(|p: String| p@);
    parts.push(part);
    assert(parts@.map_values(|p: String| p@) =~= before.push(part@));
}

pub fn sub_agent_activity_execution_details(
    action: SubAgentActivityAction,
    model: Option<&str>,
    effort: Option<ReasoningEffort>,
    fast: bool,
    ci: Option<SpawnContextInheritance>,
) -> (r: Option<String>)
    ensures
        match r {
            Some(s) => spec_execution_details(
                action,
                match model {
                    Some(m) => Some(m@),
                    None => None,
                },
                effort,
                fast,
                ci,
            ) == Some(s@),
            None => spec_execution_details(
                action,
                match model {
                    Some(m) => Some(m@),
                    None => None,
                },
                effort,
                fast,
                ci,
            ) is None,
        },
{
    if action != SubAgentActivityAction::Started {
        return None;
    }
    let mut parts: Vec<String> = Vec::new();
    assert(parts@.map_values(|p: String| p@) =~= Seq::<Seq<char>>::empty());
    match model {
        Some(m) => {
            if m.unicode_len() > 0 {
                push_part(&mut parts, owned(m));
            }
        },
        None => {},
    }
    match effort {
        Some(e) => {
            push_part(&mut parts, owned(reasoning_effort_label(e)));
        },
        None => {},
    }
    if fast {
        push_part(&mut parts, owned("fast"));
    }
    proof {
        let mv: Option<Seq<char>> = match model {
            Some(x) => Some(x@),
            None => None,
        };
        let m: Seq<Seq<char>> = match mv {
            Some(x) => if x.len() > 0 {
                seq![x]
            } else {
                Seq::empty()
            },
            None => Seq::empty(),
        };
        let e: Seq<Seq<char>> = match effort {
            Some(x) => seq![spec_effort_label(x)],
            None => Seq::empty(),
        };
        let f: Seq<Seq<char>> = if fast {
            seq!["fast"@]
        } else {
            Seq::empty()
        };
        assert(parts@.map_values(|p: String| p@) =~= m + e + f);
    }
    let exec = if parts.len() > 0 {
        let mut s = owned(" (");
        let joined = join_strings(&parts, ", ");
        push_str(&mut s, joined.as_str());
        push_str(&mut s, ")");
        Some(s)
    } else {
        None
    };
    let ghost pv = parts@.map_values(|p: String| p@);
    match (exec, context_inheritance_detail(ci)) {
        (Some(x), Some(c)) => {
            let mut x = x;
            push_str(&mut x, c.as_str());
            Some(x)
        },
        (Some(x), None) => Some(x),
        (None, Some(c)) => Some(c),
        (None, None) => None,
    }
}

/// The one-line summary of an activity: the action, the agent path and the details.
pub fn sub_agent_activity_summary(
    kind: SubAgentActivityKind,
    operation: Option<SubAgentActivityOperation>,
    outcome: Option<SubAgentActivityOutcome>,
    agent_path: &str,
    model: Option<&str>,
    effort: Option<ReasoningEffort>,
    fast: bool,
    ci: Option<SpawnContextInheritance>,
) -> (r: String)
    ensures
        r@ == spec_activity_action(kind, operation, outcome).spec_title_prefix() + " "@ + agent_path@
            + match spec_execution_details(
            spec_activity_action(kind, operation, outcome),
            match model {
                Some(m) => Some(m@),
                None => None,
            },
            effort,
            fast,
            ci,
        ) {
            Some(d) => d,
            None => Seq::empty(),
        },
{
    let action = sub_agent_activity_action(kind, operation, outcome);
    let details = sub_agent_activity_execution_details(action, model, effort, fast, ci);
    let mut r = owned(action.title_prefix());
    push_str(&mut r, " ");
    push_str(&mut r, agent_path);
    match details {
        Some(d) => push_str(&mut r, d.as_str()),
        None => {
            assert(r@ =~= r@ + Seq::<char>::empty());
        },
    }
    r
}

// ---------------------------------------------------------------------------
// Collaboration tool calls
// ---------------------------------------------------------------------------

#[derive(Clone, Copy, Debug, PartialEq, Eq, Structural)]
pub enum CollabAgentTool {
    SpawnAgent,
    SendInput,
    AskParent,
    ResumeAgent,
    Wait,
    CloseAgent,
}

#[derive(Clone, Copy, Debug, PartialEq, Eq, Structural)]
pub enum CollabAgentToolCallStatus {
    InProgress,
    Completed,
    Failed,
}

#[derive(Clone, Copy, Debug, PartialEq, Eq, Structural)]
pub enum CollabAgentStatus {
    PendingInit,
    Running,
    Interrupted,
    Completed,
    Errored,
    Shutdown,
    NotFound,
}

#[derive(Clone, Copy, Debug, PartialEq, Eq, Structural)]
pub enum AskParentMode {
    Authoritative,
    Consult,
}

/// The title of a consultation of the parent's context.
pub open spec fn spec_consultation_title(
    status: CollabAgentToolCallStatus,
    parent_status: Option<CollabAgentStatus>,
    requires_authoritative: bool,
) -> Seq<char> {
    if status == CollabAgentToolCallStatus::InProgress {
        "Consulting parent context snapshot"@
    } else if requires_authoritative {
        "Parent context requires an authoritative decision"@
    } else if parent_status == Some(CollabAgentStatus::Interrupted) {
        "Parent context consultation timed out"@
    } else if parent_status == Some(CollabAgentStatus::NotFound) || parent_status == Some(
        CollabAgentStatus::Shutdown,
    ) {
        "Parent context consultation unavailable"@
    } else if status == CollabAgentToolCallStatus::Failed {
        "Parent context consultation unavailable"@
    } else {
        "Advisory from parent context snapshot"@
    }
}

/// The title of a request for the parent's decision. `parent_status` is the
/// state reported for the parent; `requires_authoritative` whether the
/// parent answered that only an authoritative request can be decided.
pub open spec fn spec_parent_decision_title(
    status: CollabAgentToolCallStatus,
    mode: Option<AskParentMode>,
    parent_status: Option<CollabAgentStatus>,
    requires_authoritative: bool,
) -> Seq<char> {
    if mode == Some(AskParentMode::Consult) {
        spec_consultation_title(status, parent_status, requires_authoritative)
    } else if status == CollabAgentToolCallStatus::InProgress {
        "Waiting for parent decision"@
    } else if parent_status == Some(CollabAgentStatus::Completed) {
        "Received parent decision"@
    } else if parent_status == Some(CollabAgentStatus::Interrupted) {
        "Parent decision timed out"@
    } else if parent_status == Some(CollabAgentStatus::NotFound) || parent_status == Some(
        CollabAgentStatus::Shutdown,
    ) {
        "Parent decision unavailable"@
    } else if status == CollabAgentToolCallStatus::Completed {
        "Received parent decision"@
    } else {
        "Parent decision unavailable"@
    }
}

pub fn parent_consultation_title(
    status: CollabAgentToolCallStatus,
    parent_status: Option<CollabAgentStatus>,
    requires_authoritative: bool,
) -> (r: &'static str)
    ensures
        r@ == spec_consultation_title(status, parent_status, requires_authoritative),
{
    if status == CollabAgentToolCallStatus::InProgress {
        "Consulting parent context snapshot"
    } else if requires_authoritative {
        "Parent context requires an authoritative decision"
    } else if parent_status == Some(CollabAgentStatus::Interrupted) {
        "Parent context consultation timed out"
    } else if parent_status == Some(CollabAgentStatus::NotFound) || parent_status == Some(
        CollabAgentStatus::Shutdown,
    ) {
        "Parent context consultation unavailable"
    } else if status == CollabAgentToolCallStatus::Failed {
        "Parent context consultation unavailable"
    } else {
        "Advisory from parent context snapshot"
    }
}

pub fn parent_decision_title(
    status: CollabAgentToolCallStatus,
    mode: Option<AskParentMode>,
    parent_status: Option<CollabAgentStatus>,
    requires_authoritative: bool,
) -> (r: &'static str)
    ensures
        r@ == spec_parent_decision_title(status, mode, parent_status, requires_authoritative),
{
    if mode == Some(AskParentMode::Consult) {
        parent_consultation_title(status, parent_status, requires_authoritative)
    } else if status == CollabAgentToolCallStatus::InProgress {
        "Waiting for parent decision"
    } else if parent_status == Some(CollabAgentStatus::Completed) {
        "Received parent decision"
    } else if parent_status == Some(CollabAgentStatus::Interrupted) {
        "Parent decision timed out"
    } else if parent_status == Some(CollabAgentStatus::NotFound) || parent_status == Some(
        CollabAgentStatus::Shutdown,
    ) {
        "Parent decision unavailable"
    } else if status == CollabAgentToolCallStatus::Completed {
        "Received parent decision"
    } else {
        "Parent decision unavailable"
    }
}

/// The summary of a request for the parent's decision: consultations say
/// that advice may be stale, or how to get an authoritative decision.
pub open spec fn spec_parent_decision_summary(
    status: CollabAgentToolCallStatus,
    mode: Option<AskParentMode>,
    parent_status: Option<CollabAgentStatus>,
    requires_authoritative: bool,
) -> Seq<char> {
    let title = spec_parent_decision_title(status, mode, parent_status, requires_authoritative);
    if mode == Some(AskParentMode::Consult) && title == "Advisory from parent context snapshot"@ {
        title + " (may be stale; not authoritative)"@
    } else if mode == Some(AskParentMode::Consult) && title
        == "Parent context requires an authoritative decision"@ {
        title + "; use ask_parent with mode: authoritative"@
    } else {
        title
    }
}

pub fn parent_decision_summary(
    status: CollabAgentToolCallStatus,
    mode: Option<AskParentMode>,
    parent_status: Option<CollabAgentStatus>,
    requires_authoritative: bool,
) -> (r: String)
    ensures
        r@ == spec_parent_decision_summary(status, mode, parent_status, requires_authoritative),
{
    let title = parent_decision_title(status, mode, parent_status, requires_authoritative);
    let consult = mode == Some(AskParentMode::Consult);
    if consult && crate::text::str_eq(title, "Advisory from parent context snapshot") {
        let mut r = owned(title);
        push_str(&mut r, " (may be stale; not authoritative)");
        r
    } else if consult && crate::text::str_eq(title, "Parent context requires an authoritative decision") {
        let mut r = owned(title);
        push_str(&mut r, "; use ask_parent with mode: authoritative");
        r
    } else {
        owned(title)
    }
}

/// The summary of a collaboration tool call.
pub open spec fn spec_collab_summary(
    tool: CollabAgentTool,
    status: CollabAgentToolCallStatus,
    ci: Option<SpawnContextInheritance>,
    mode: Option<AskParentMode>,
    parent_status: Option<CollabAgentStatus>,
    requires_authoritative: bool,
) -> Seq<char> {
    let base = match tool {
        CollabAgentTool::SpawnAgent => match status {
            CollabAgentToolCallStatus::InProgress => "Spawning an agent"@,
            CollabAgentToolCallStatus::Completed => "Spawned an agent"@,
            CollabAgentToolCallStatus::Failed => "Agent spawn failed"@,
        },
        CollabAgentTool::SendInput => match status {
            CollabAgentToolCallStatus::InProgress => "Sending input to an agent"@,
            CollabAgentToolCallStatus::Completed => "Sent input to an agent"@,
            CollabAgentToolCallStatus::Failed => "Failed to send input to an agent"@,
        },
        CollabAgentTool::AskParent => spec_parent_decision_summary(
            status,
            mode,
            parent_status,
            requires_authoritative,
        ),
        CollabAgentTool::ResumeAgent => match status {
            CollabAgentToolCallStatus::InProgress => "Resuming an agent"@,
            CollabAgentToolCallStatus::Completed => "Resumed an agent"@,
            CollabAgentToolCallStatus::Failed => "Failed to resume an agent"@,
        },
        CollabAgentTool::Wait => match status {
            CollabAgentToolCallStatus::InProgress => "Waiting for an agent"@,
            CollabAgentToolCallStatus::Completed => "Finished waiting for an agent"@,
            CollabAgentToolCallStatus::Failed => "Failed while waiting for an agent"@,
        },
        CollabAgentTool::CloseAgent => match status {
            CollabAgentToolCallStatus::InProgress => "Closing an agent"@,
            CollabAgentToolCallStatus::Completed => "Closed an agent"@,
            CollabAgentToolCallStatus::Failed => "Failed to close an agent"@,
        },
    };
    if tool == CollabAgentTool::SpawnAgent && status == CollabAgentToolCallStatus::Completed {
        match spec_context_detail(ci) {
            Some(d) => base + d,
            None => base,
        }
    } else {
        base
    }
}

/// Summarizes a collaboration tool call in one line.
pub fn collab_tool_summary(
    tool: CollabAgentTool,
    status: CollabAgentToolCallStatus,
    ci: Option<SpawnContextInheritance>,
    mode: Option<AskParentMode>,
    parent_status: Option<CollabAgentStatus>,
    requires_authoritative: bool,
) -> (r: String)
    ensures
        r@ == spec_collab_summary(tool, status, ci, mode, parent_status, requires_authoritative),
{
    let mut summary = match tool {
        CollabAgentTool::SpawnAgent => match status {
            CollabAgentToolCallStatus::InProgress => owned("Spawning an agent"),
            CollabAgentToolCallStatus::Completed => owned("Spawned an agent"),
            CollabAgentToolCallStatus::Failed => owned("Agent spawn failed"),
        },
        CollabAgentTool::SendInput => match status {
            CollabAgentToolCallStatus::InProgress => owned("Sending input to an agent"),
            CollabAgentToolCallStatus::Completed => owned("Sent input to an agent"),
            CollabAgentToolCallStatus::Failed => owned("Failed to send input to an agent"),
        },
        CollabAgentTool::AskParent => parent_decision_summary(
            status,
            mode,
            parent_status,
            requires_authoritative,
        ),
        CollabAgentTool::ResumeAgent => match status {
            CollabAgentToolCallStatus::InProgress => owned("Resuming an agent"),
            CollabAgentToolCallStatus::Completed => owned("Resumed an agent"),
            CollabAgentToolCallStatus::Failed => owned("Failed to resume an agent"),
        },
        CollabAgentTool::Wait => match status {
            CollabAgentToolCallStatus::InProgress => owned("Waiting for an agent"),
            CollabAgentToolCallStatus::Completed => owned("Finished waiting for an agent"),
            CollabAgentToolCallStatus::Failed => owned("Failed while waiting for an agent"),
        },
        CollabAgentTool::CloseAgent => match status {
            CollabAgentToolCallStatus::InProgress => owned("Closing an agent"),
            CollabAgentToolCallStatus::Completed => owned("Closed an agent"),
            CollabAgentToolCallStatus::Failed => owned("Failed to close an agent"),
        },
    };
    if tool == CollabAgentTool::SpawnAgent && status == CollabAgentToolCallStatus::Completed {
        match context_inheritance_detail(ci) {
            Some(d) => push_str(&mut summary, d.as_str()),
            None => {},
        }
    }
    summary
}

/// Which transcript row a collaboration tool call gets.
#[derive(Clone, Copy, Debug, PartialEq, Eq, Structural)]
pub enum CollabCell {
    SpawnEnd,
    InteractionEnd,
    ParentDecision,
    ResumeBegin,
    ResumeEnd,
    WaitingBegin,
    WaitingEnd,
    CloseEnd,
}

/// The row of a tool call: calls in progress show nothing except for the
/// parent, resuming and waiting; rows about one agent need its thread id.
pub open spec fn spec_collab_cell(
    tool: CollabAgentTool,
    status: CollabAgentToolCallStatus,
    has_receiver: bool,
) -> Option<CollabCell> {
    let running = status == CollabAgentToolCallStatus::InProgress;
    match tool {
        CollabAgentTool::SpawnAgent => if running {
            None
        } else {
            Some(CollabCell::SpawnEnd)
        },
        CollabAgentTool::SendInput => if running || !has_receiver {
            None
        } else {
            Some(CollabCell::InteractionEnd)
        },
        CollabAgentTool::AskParent => Some(CollabCell::ParentDecision),
        CollabAgentTool::ResumeAgent => if !has_receiver {
            None
        } else if running {
            Some(CollabCell::ResumeBegin)
        } else {
            Some(CollabCell::ResumeEnd)
        },
        CollabAgentTool::Wait => if running {
            Some(CollabCell::WaitingBegin)
        } else {
            Some(CollabCell::WaitingEnd)
        },
        CollabAgentTool::CloseAgent => if running || !has_receiver {
            None
        } else {
            Some(CollabCell::CloseEnd)
        },
    }
}

/// Chooses the transcript row of a collaboration tool call.
pub fn collab_tool_cell(tool: CollabAgentTool, status: CollabAgentToolCallStatus, has_receiver: bool) -> (r:
    Option<CollabCell>)
    ensures
        r == spec_collab_cell(tool, status, has_receiver),
{
    let running = status == CollabAgentToolCallStatus::InProgress;
    match tool {
        CollabAgentTool::SpawnAgent => if running {
            None
        } else {
            Some(CollabCell::SpawnEnd)
        },
        CollabAgentTool::SendInput => if running || !has_receiver {
            None
        } else {
            Some(CollabCell::InteractionEnd)
        },
        CollabAgentTool::AskParent => Some(CollabCell::ParentDecision),
        CollabAgentTool::ResumeAgent => if !has_receiver {
            None
        } else if running {
            Some(CollabCell::ResumeBegin)
        } else {
            Some(CollabCell::ResumeEnd)
        },
        CollabAgentTool::Wait => if running {
            Some(CollabCell::WaitingBegin)
        } else {
            Some(CollabCell::WaitingEnd)
        },
        CollabAgentTool::CloseAgent => if running || !has_receiver {
            None
        } else {
            Some(CollabCell::CloseEnd)
        },
    }
}

/// The detail of a spawn title: ` (model effort fast)` with a blank model left out.
pub open spec fn spec_spawn_detail(
    request: Option<(Seq<char>, ReasoningEffort)>,
    fast: bool,
) -> Option<Seq<char>> {
    let parts: Seq<Seq<char>> = match request {
        Some((model, effort)) => if trim(model).len() == 0 {
            seq![spec_effort_label(effort)]
        } else {
            seq![trim(model), spec_effort_label(effort)]
        },
        None => Seq::empty(),
    };
    let all = if fast {
        parts.push("fast"@)
    } else {
        parts
    };
    if all.len() == 0 {
        None
    } else {
        Some("("@ + join(all, " "@) + ")"@)
    }
}

pub fn spawn_detail(model: Option<&str>, effort: ReasoningEffort, fast: bool) -> (r: Option<String>)
    ensures
        match r {
            Some(s) => spec_spawn_detail(
                match model {
                    Some(m) => Some((m@, effort)),
                    None => None,
                },
                fast,
            ) == Some(s@),
            None => spec_spawn_detail(
                match model {
                    Some(m) => Some((m@, effort)),
                    None => None,
                },
                fast,
            ) is None,
        },
{
    let mut parts: Vec<String> = Vec::new();
    assert(parts@.map_values(|p: String| p@) =~= Seq::<Seq<char>>::empty());
    match model {
        Some(m) => {
            let trimmed = trim_str(m);
            if trimmed.unicode_len() > 0 {
                push_part(&mut parts, trimmed);
            }
            push_part(&mut parts, owned(reasoning_effort_label(effort)));
        },
        None => {},
    }
    if fast {
        push_part(&mut parts, owned("fast"));
    }
    proof {
        let req: Option<(Seq<char>, ReasoningEffort)> = match model {
            Some(m) => Some((m@, effort)),
            None => None,
        };
        let base: Seq<Seq<char>> = match req {
            Some((model, effort)) => if trim(model).len() == 0 {
                seq![spec_effort_label(effort)]
            } else {
                seq![trim(model), spec_effort_label(effort)]
            },
            None => Seq::empty(),
        };
        let all = if fast {
            base.push("fast"@)
        } else {
            base
        };
        assert(parts@.map_values(|p: String| p@) =~= all);
    }
    if parts.len() == 0 {
        None
    } else {
        let mut s = owned("(");
        let joined = join_strings(&parts, " ");
        push_str(&mut s, joined.as_str());
        push_str(&mut s, ")");
        Some(s)
    }
}

/// The title of a wait in progress, by the number of agents waited for.
pub open spec fn spec_waiting_title(count: nat) -> Seq<char> {
    if count == 0 {
        "Waiting for agents"@
    } else {
        "Waiting for "@ + decimal(count) + " agents"@
    }
}

/// The title of a wait for none or several agents (one agent is named instead).
pub fn waiting_title(count: usize) -> (r: String)
    requires
        count != 1,
    ensures
        r@ == spec_waiting_title(count as nat),
{
    if count == 0 {
        owned("Waiting for agents")
    } else {
        let mut r = owned("Waiting for ");
        push_decimal(&mut r, count as u64);
        push_str(&mut r, " agents");
        r
    }
}

/// The name of an agent in the picker.
pub open spec fn spec_picker_name(nickname: Option<Seq<char>>, role: Option<Seq<char>>, is_primary: bool) -> Seq<
    char,
> {
    let n: Option<Seq<char>> = match nickname {
        Some(x) => if trim(x).len() == 0 {
            None
        } else {
            Some(trim(x))
        },
        None => None,
    };
    let r: Option<Seq<char>> = match role {
        Some(x) => if trim(x).len() == 0 {
            None
        } else {
            Some(trim(x))
        },
        None => None,
    };
    if is_primary {
        "Main [default]"@
    } else {
        match (n, r) {
            (Some(a), Some(b)) => a + " ["@ + b + "]"@,
            (Some(a), None) => a,
            (None, Some(b)) => "["@ + b + "]"@,
            (None, None) => "Agent"@,
        }
    }
}

fn trimmed_present(s: Option<&str>) -> (r: Option<String>)
    ensures
        match r {
            Some(t) => s matches Some(x) && trim(x@).len() > 0 && t@ == trim(x@),
            None => s is None || trim(s->0@).len() == 0,
        },
{
    match s {
        Some(x) => {
            let t = trim_str(x);
            if t.unicode_len() == 0 {
                None
            } else {
                Some(t)
            }
        },
        None => None,
    }
}

/// Formats an agent's name for the picker: the main thread is `Main
/// [default]`; others show their nickname and `[role]` when present.
pub fn format_agent_picker_item_name(nickname: Option<&str>, role: Option<&str>, is_primary: bool) -> (r:
    String)
    ensures
        r@ == spec_picker_name(
            match nickname {
                Some(x) => Some(x@),
                None => None,
            },
            match role {
                Some(x) => Some(x@),
                None => None,
            },
            is_primary,
        ),
{
    if is_primary {
        return owned("Main [default]");
    }
    let n = trimmed_present(nickname);
    let r = trimmed_present(role);
    match (n, r) {
        (Some(a), Some(b)) => {
            let mut s = a;
            push_str(&mut s, " [");
            push_str(&mut s, b.as_str());
            push_str(&mut s, "]");
            s
        },
        (Some(a), None) => a,
        (None, Some(b)) => {
            let mut s = owned("[");
            push_str(&mut s, b.as_str());
            push_str(&mut s, "]");
            s
        },
        (None, None) => owned("Agent"),
    }
}

/// The spans that name an agent: the nickname (cyan, bold), else the thread
/// id (cyan), else `agent`; then the role in brackets.
pub open spec fn spec_agent_label(
    nickname: Option<Seq<char>>,
    role: Option<Seq<char>>,
    thread_id: Option<Seq<char>>,
) -> Seq<(SpanStyle, Seq<char>)> {
    let n: Option<Seq<char>> = match nickname {
        Some(x) => if trim(x).len() == 0 {
            None
        } else {
            Some(trim(x))
        },
        None => None,
    };
    let r: Option<Seq<char>> = match role {
        Some(x) => if trim(x).len() == 0 {
            None
        } else {
            Some(trim(x))
        },
        None => None,
    };
    let head = match n {
        Some(a) => seq![(SpanStyle::CyanBold, a)],
        None => match thread_id {
            Some(t) => seq![(SpanStyle::Cyan, t)],
            None => seq![(SpanStyle::Cyan, "agent"@)],
        },
    };
    match r {
        Some(b) => head + seq![(SpanStyle::Dim, " "@), (SpanStyle::Plain, "["@ + b + "]"@)],
        None => head,
    }
}

fn push_span(line: &mut Vec<StyledSpan>, s: StyledSpan)
    ensures
        line_view(final(line)@) == line_view(old(line)@).push(span_view(s)),
{
    let ghost before = line_view(line@);
    let ghost sv = span_view(s);
    line.push(s);
    assert(line_view(line@) =~= before.push(sv));
}

/// Builds the spans that name an agent.
pub fn agent_label_spans(nickname: Option<&str>, role: Option<&str>, thread_id: Option<&str>) -> (r: Vec<
    StyledSpan,
>)
    ensures
        line_view(r@) == spec_agent_label(
            match nickname {
                Some(x) => Some(x@),
                None => None,
            },
            match role {
                Some(x) => Some(x@),
                None => None,
            },
            match thread_id {
                Some(x) => Some(x@),
                None => None,
            },
        ),
{
    let mut spans: Vec<StyledSpan> = Vec::new();
    assert(line_view(spans@) =~= Seq::<(SpanStyle, Seq<char>)>::empty());
    match trimmed_present(nickname) {
        Some(a) => push_span(&mut spans, span(SpanStyle::CyanBold, a)),
        None => match thread_id {
            Some(t) => push_span(&mut spans, span(SpanStyle::Cyan, owned(t))),
            None => push_span(&mut spans, span(SpanStyle::Cyan, owned("agent"))),
        },
    }
    let ghost head = line_view(spans@);
    match trimmed_present(role) {
        Some(b) => {
            push_span(&mut spans, span(SpanStyle::Dim, owned(" ")));
            let mut text = owned("[");
            push_str(&mut text, b.as_str());
            push_str(&mut text, "]");
            push_span(&mut spans, span(SpanStyle::Plain, text));
        },
        None => {},
    }
    spans
}

} // verus!
