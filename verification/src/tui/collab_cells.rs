//! The transcript rows of multi-agent tool calls: who was spawned, messaged,
//! waited for, resumed or closed, and what the agents reported.

use super::collab::{
    AskParentMode, CollabAgentTool, spec_collab_cell, CollabAgentStatus, CollabAgentToolCallStatus, SpawnContextInheritance,
    agent_label_spans, context_inheritance_detail, parent_consultation_title,
    parent_decision_title, spawn_detail, spec_agent_label, spec_consultation_title,
    spec_context_detail, spec_parent_decision_title, spec_spawn_detail, spec_waiting_title,
    waiting_title,
};
use super::styled::{
    SpanStyle, StyledSpan, append_spans, line_view, lines_view, prefix_lines, prefixed, push_line,
    push_span, span, span_view,
};
use crate::hooks::handler::ReasoningEffort;
use crate::ids::{ThreadId, uuid_text};
use crate::text::{is_blank, owned, push_str};
use vstd::prelude::*;

verus! {

/// What the transcript shows of an agent besides its thread id.
#[derive(Clone, Debug, Default, PartialEq, Eq)]
pub struct AgentMetadata {
    /// Human-friendly nickname shown in rendered tool-call rows.
    pub agent_nickname: Option<String>,
    /// Agent type shown in brackets when present, for example `worker`.
    pub agent_role: Option<String>,
}

/// The state an agent reported, with the preview of its message as the
/// transcript's text formatting gives it (white space collapsed, cut to the
/// preview length).
#[derive(Clone, Debug, PartialEq, Eq)]
pub struct CollabAgentState {
    pub status: CollabAgentStatus,
    pub preview: Option<String>,
}

/// The model and effort that a spawn request asked for.
#[derive(Clone, Debug, PartialEq, Eq)]
pub struct SpawnRequestSummary {
    pub model: String,
    pub reasoning_effort: ReasoningEffort,
    pub context_inheritance: Option<SpawnContextInheritance>,
}

pub open spec fn opt_text(s: Option<String>) -> Option<Seq<char>> {
    match s {
        Some(x) => Some(x@),
        None => None,
    }
}

/// The metadata of an agent: that of its first entry, else none.
pub open spec fn metadata_for(table: Seq<(ThreadId, AgentMetadata)>, id: ThreadId) -> AgentMetadata
    decreases table.len(),
{
    if table.len() == 0 {
        AgentMetadata { agent_nickname: None, agent_role: None }
    } else if table[0].0 == id {
        table[0].1
    } else {
        metadata_for(table.drop_first(), id)
    }
}

fn lookup_metadata(table: &[(ThreadId, AgentMetadata)], id: ThreadId) -> (m: AgentMetadata)
    ensures
        m == metadata_for(table@, id),
{
    let mut i: usize = 0;
    assert(table@.subrange(0, table@.len() as int) =~= table@);
    while i < table.len()
        invariant
            i <= table@.len(),
            metadata_for(table@, id) == metadata_for(table@.subrange(i as int, table@.len() as int), id),
        decreases table@.len() - i,
    {
        let ghost rest = table@.subrange(i as int, table@.len() as int);
        assert(rest.drop_first() =~= table@.subrange(i + 1, table@.len() as int));
        assert(rest[0] == table@[i as int]);
        if table[i].0 == id {
            let m = &table[i].1;
            let nickname = match &m.agent_nickname {
                Some(n) => Some(n.clone()),
                None => None,
            };
            let role = match &m.agent_role {
                Some(r) => Some(r.clone()),
                None => None,
            };
            return AgentMetadata { agent_nickname: nickname, agent_role: role };
        }
        i = i + 1;
    }
    AgentMetadata { agent_nickname: None, agent_role: None }
}

/// The spans that name an agent: its nickname, else its thread id, and its role.
pub open spec fn label_of(id: ThreadId, m: AgentMetadata) -> Seq<(SpanStyle, Seq<char>)> {
    spec_agent_label(opt_text(m.agent_nickname), opt_text(m.agent_role), Some(uuid_text(id.value)))
}

fn agent_label(id: ThreadId, table: &[(ThreadId, AgentMetadata)]) -> (r: Vec<StyledSpan>)
    ensures
        line_view(r@) == label_of(id, metadata_for(table@, id)),
{
    let m = lookup_metadata(table, id);
    let text = id.to_text();
    let nickname = match &m.agent_nickname {
        Some(n) => Some(n.as_str()),
        None => None,
    };
    let role = match &m.agent_role {
        Some(r) => Some(r.as_str()),
        None => None,
    };
    agent_label_spans(nickname, role, Some(text.as_str()))
}

// ---------------------------------------------------------------------------
// Titles and rows
// ---------------------------------------------------------------------------

/// A title line: a dimmed bullet, then the spans.
pub open spec fn title_line(spans: Seq<(SpanStyle, Seq<char>)>) -> Seq<(SpanStyle, Seq<char>)> {
    seq![(SpanStyle::Dim, "• "@)] + spans
}

/// A title of bold text.
pub open spec fn text_title(title: Seq<char>) -> Seq<(SpanStyle, Seq<char>)> {
    title_line(seq![(SpanStyle::Bold, title)])
}

/// A title naming an agent after a bold prefix.
pub open spec fn agent_title(prefix: Seq<char>, id: ThreadId, m: AgentMetadata) -> Seq<
    (SpanStyle, Seq<char>),
> {
    title_line(seq![(SpanStyle::Bold, prefix + " "@)] + label_of(id, m))
}

/// A transcript row: the title, then the details, the first behind `  └ `
/// and the others indented.
pub open spec fn event_lines(
    title: Seq<(SpanStyle, Seq<char>)>,
    details: Seq<Seq<(SpanStyle, Seq<char>)>>,
) -> Seq<Seq<(SpanStyle, Seq<char>)>> {
    seq![title] + prefixed(details, (SpanStyle::Dim, "  └ "@), (SpanStyle::Plain, "    "@))
}

fn title_spans_line(spans: Vec<StyledSpan>) -> (r: Vec<StyledSpan>)
    ensures
        line_view(r@) == title_line(line_view(spans@)),
{
    let mut title: Vec<StyledSpan> = Vec::new();
    push_span(&mut title, span(SpanStyle::Dim, owned("• ")));
    assert(line_view(title@) =~= seq![(SpanStyle::Dim, "• "@)]);
    append_spans(&mut title, spans);
    title
}

/// A title of bold text.
pub fn title_text(title: String) -> (r: Vec<StyledSpan>)
    ensures
        line_view(r@) == text_title(title@),
{
    let mut spans: Vec<StyledSpan> = Vec::new();
    push_span(&mut spans, span(SpanStyle::Bold, title));
    assert(line_view(spans@) =~= seq![(SpanStyle::Bold, title@)]);
    title_spans_line(spans)
}

/// A title naming an agent after a bold prefix.
pub fn title_with_agent(prefix: &str, id: ThreadId, table: &[(ThreadId, AgentMetadata)]) -> (r: Vec<
    StyledSpan,
>)
    ensures
        line_view(r@) == agent_title(prefix@, id, metadata_for(table@, id)),
{
    let mut head = owned(prefix);
    push_str(&mut head, " ");
    let mut spans: Vec<StyledSpan> = Vec::new();
    push_span(&mut spans, span(SpanStyle::Bold, head));
    append_spans(&mut spans, agent_label(id, table));
    title_spans_line(spans)
}

/// Builds a transcript row from its title and details.
pub fn collab_event(title: Vec<StyledSpan>, details: Vec<Vec<StyledSpan>>) -> (r: Vec<Vec<StyledSpan>>)
    ensures
        lines_view(r@) == event_lines(line_view(title@), lines_view(details@)),
{
    let mut lines: Vec<Vec<StyledSpan>> = Vec::new();
    push_line(&mut lines, title);
    let ghost head = lines_view(lines@);
    let mut rest = prefix_lines(
        details,
        &span(SpanStyle::Dim, owned("  └ ")),
        &span(SpanStyle::Plain, owned("    ")),
    );
    let ghost tail = lines_view(rest@);
    lines.append(&mut rest);
    assert(lines_view(lines@) =~= head + tail);
    lines
}

// ---------------------------------------------------------------------------
// Agent states
// ---------------------------------------------------------------------------

/// ` - preview` after a status, when the preview is not empty.
pub open spec fn preview_tail(preview: Option<String>) -> Seq<(SpanStyle, Seq<char>)> {
    match preview {
        Some(p) => if p@.len() > 0 {
            seq![(SpanStyle::Dim, " - "@), (SpanStyle::Plain, p@)]
        } else {
            Seq::empty()
        },
        None => Seq::empty(),
    }
}

/// A red `Error` and the error's preview.
pub open spec fn spec_error_spans(preview: Option<String>) -> Seq<(SpanStyle, Seq<char>)> {
    seq![(SpanStyle::Red, "Error"@)] + preview_tail(preview)
}

/// How a reported state is shown.
pub open spec fn spec_status_spans(state: CollabAgentState) -> Seq<(SpanStyle, Seq<char>)> {
    match state.status {
        CollabAgentStatus::PendingInit => seq![(SpanStyle::Cyan, "Pending init"@)],
        CollabAgentStatus::Running => seq![(SpanStyle::CyanBold, "Running"@)],
        CollabAgentStatus::Interrupted => seq![(SpanStyle::Yellow, "Interrupted"@)],
        CollabAgentStatus::Completed => seq![(SpanStyle::Green, "Completed"@)] + preview_tail(
            state.preview,
        ),
        CollabAgentStatus::Errored => spec_error_spans(state.preview),
        CollabAgentStatus::Shutdown => seq![(SpanStyle::Plain, "Shutdown"@)],
        CollabAgentStatus::NotFound => seq![(SpanStyle::Red, "Not found"@)],
    }
}

fn push_preview(spans: &mut Vec<StyledSpan>, preview: &Option<String>)
    ensures
        line_view(final(spans)@) == line_view(old(spans)@) + preview_tail(*preview),
{
    match preview {
        Some(p) => {
            if p.unicode_len() > 0 {
                let ghost before = line_view(spans@);
                push_span(spans, span(SpanStyle::Dim, owned(" - ")));
                push_span(spans, span(SpanStyle::Plain, p.clone()));
                assert(line_view(spans@) =~= before + preview_tail(*preview));
            } else {
                assert(line_view(spans@) =~= line_view(spans@) + preview_tail(*preview));
            }
        },
        None => {
            assert(line_view(spans@) =~= line_view(spans@) + preview_tail(*preview));
        },
    }
}

/// A red `Error` and the error's preview.
pub fn error_summary_spans(preview: &Option<String>) -> (r: Vec<StyledSpan>)
    ensures
        line_view(r@) == spec_error_spans(*preview),
{
    let mut spans: Vec<StyledSpan> = Vec::new();
    push_span(&mut spans, span(SpanStyle::Red, owned("Error")));
    push_preview(&mut spans, preview);
    spans
}

/// The spans that show a reported state.
pub fn status_summary_spans(state: &CollabAgentState) -> (r: Vec<StyledSpan>)
    ensures
        line_view(r@) == spec_status_spans(*state),
{
    let mut spans: Vec<StyledSpan> = Vec::new();
    match state.status {
        CollabAgentStatus::PendingInit => push_span(&mut spans, span(SpanStyle::Cyan, owned("Pending init"))),
        CollabAgentStatus::Running => push_span(&mut spans, span(SpanStyle::CyanBold, owned("Running"))),
        CollabAgentStatus::Interrupted => push_span(&mut spans, span(SpanStyle::Yellow, owned("Interrupted"))),
        CollabAgentStatus::Completed => {
            push_span(&mut spans, span(SpanStyle::Green, owned("Completed")));
            push_preview(&mut spans, &state.preview);
        },
        CollabAgentStatus::Errored => {
            return error_summary_spans(&state.preview);
        },
        CollabAgentStatus::Shutdown => push_span(&mut spans, span(SpanStyle::Plain, owned("Shutdown"))),
        CollabAgentStatus::NotFound => push_span(&mut spans, span(SpanStyle::Red, owned("Not found"))),
    }
    spans
}

/// The line of a state, or `Error` when none was reported.
pub open spec fn spec_status_line(state: Option<CollabAgentState>) -> Seq<(SpanStyle, Seq<char>)> {
    match state {
        Some(s) => spec_status_spans(s),
        None => spec_error_spans(None),
    }
}

pub fn status_summary_line(state: Option<&CollabAgentState>) -> (r: Vec<StyledSpan>)
    ensures
        line_view(r@) == spec_status_line(
            match state {
                Some(s) => Some(*s),
                None => None,
            },
        ),
{
    match state {
        Some(s) => status_summary_spans(s),
        None => error_summary_spans(&None),
    }
}

// ---------------------------------------------------------------------------
// Rows about one agent
// ---------------------------------------------------------------------------

/// `Sent input to <agent>`.
pub fn interaction_end(receiver: ThreadId, table: &[(ThreadId, AgentMetadata)]) -> (r: Vec<
    Vec<StyledSpan>,
>)
    ensures
        lines_view(r@) == event_lines(
            agent_title("Sent input to"@, receiver, metadata_for(table@, receiver)),
            Seq::empty(),
        ),
{
    collab_event(title_with_agent("Sent input to", receiver, table), Vec::new())
}

/// `Closed <agent>`.
pub fn close_end(receiver: ThreadId, table: &[(ThreadId, AgentMetadata)]) -> (r: Vec<Vec<StyledSpan>>)
    ensures
        lines_view(r@) == event_lines(
            agent_title("Closed"@, receiver, metadata_for(table@, receiver)),
            Seq::empty(),
        ),
{
    collab_event(title_with_agent("Closed", receiver, table), Vec::new())
}

/// `Resuming <agent>`.
pub fn resume_begin(receiver: ThreadId, table: &[(ThreadId, AgentMetadata)]) -> (r: Vec<
    Vec<StyledSpan>,
>)
    ensures
        lines_view(r@) == event_lines(
            agent_title("Resuming"@, receiver, metadata_for(table@, receiver)),
            Seq::empty(),
        ),
{
    collab_event(title_with_agent("Resuming", receiver, table), Vec::new())
}

/// `Resumed <agent>` and the state it reported.
pub fn resume_end(
    receiver: ThreadId,
    state: Option<&CollabAgentState>,
    table: &[(ThreadId, AgentMetadata)],
) -> (r: Vec<Vec<StyledSpan>>)
    ensures
        lines_view(r@) == event_lines(
            agent_title("Resumed"@, receiver, metadata_for(table@, receiver)),
            seq![
                spec_status_line(
                    match state {
                        Some(s) => Some(*s),
                        None => None,
                    },
                ),
            ],
        ),
{
    let mut details: Vec<Vec<StyledSpan>> = Vec::new();
    push_line(&mut details, status_summary_line(state));
    assert(lines_view(details@) =~= seq![
        spec_status_line(
            match state {
                Some(s) => Some(*s),
                None => None,
            },
        ),
    ]);
    collab_event(title_with_agent("Resumed", receiver, table), details)
}


// ---------------------------------------------------------------------------
// Spawns
// ---------------------------------------------------------------------------

/// The model and effort of a spawn request, as its title shows them; the
/// context inheritance reaches the title as a parameter of its own.
pub open spec fn request_view(r: Option<SpawnRequestSummary>) -> Option<(Seq<char>, ReasoningEffort)> {
    match r {
        Some(x) => Some((x.model@, x.reasoning_effort)),
        None => None,
    }
}

/// The title of a finished spawn: the new agent, the model, effort and
/// speed it runs with (magenta) and the context it inherited (dimmed); or
/// the failure when no agent came of it.
pub open spec fn spawn_title(
    new_agent: Option<ThreadId>,
    m: AgentMetadata,
    request: Option<(Seq<char>, ReasoningEffort)>,
    fast: bool,
    ci: Option<SpawnContextInheritance>,
) -> Seq<(SpanStyle, Seq<char>)> {
    match new_agent {
        Some(id) => title_line(
            seq![(SpanStyle::Bold, "Spawned "@)] + label_of(id, m) + match spec_spawn_detail(
                request,
                fast,
            ) {
                Some(d) => seq![(SpanStyle::Dim, " "@), (SpanStyle::Magenta, d)],
                None => Seq::empty(),
            } + match spec_context_detail(ci) {
                Some(c) => seq![(SpanStyle::Dim, c)],
                None => Seq::empty(),
            },
        ),
        None => text_title("Agent spawn failed"@),
    }
}

/// The row of a finished spawn. `prompt_preview` is the trimmed prompt as
/// the transcript previews it; it is shown when the prompt is not blank.
pub fn spawn_end(
    new_agent: Option<ThreadId>,
    prompt: &str,
    prompt_preview: &str,
    spawn_request: Option<&SpawnRequestSummary>,
    fast: bool,
    context_inheritance: Option<SpawnContextInheritance>,
    table: &[(ThreadId, AgentMetadata)],
) -> (r: Vec<Vec<StyledSpan>>)
    ensures
        lines_view(r@) == event_lines(
            spawn_title(
                new_agent,
                match new_agent {
                    Some(id) => metadata_for(table@, id),
                    None => AgentMetadata { agent_nickname: None, agent_role: None },
                },
                request_view(
                    match spawn_request {
                        Some(x) => Some(*x),
                        None => None,
                    },
                ),
                fast,
                context_inheritance,
            ),
            if is_blank(prompt@) {
                Seq::empty()
            } else {
                seq![seq![(SpanStyle::Plain, prompt_preview@)]]
            },
        ),
{
    let title = match new_agent {
        Some(id) => {
            let mut spans: Vec<StyledSpan> = Vec::new();
            push_span(&mut spans, span(SpanStyle::Bold, owned("Spawned ")));
            assert(line_view(spans@) =~= seq![(SpanStyle::Bold, "Spawned "@)]);
            append_spans(&mut spans, agent_label(id, table));
            let detail = match spawn_request {
                Some(req) => spawn_detail(Some(req.model.as_str()), req.reasoning_effort, fast),
                None => spawn_detail(None, ReasoningEffort::Medium, fast),
            };
            let ghost before_detail = line_view(spans@);
            match detail {
                Some(d) => {
                    push_span(&mut spans, span(SpanStyle::Dim, owned(" ")));
                    push_span(&mut spans, span(SpanStyle::Magenta, d));
                },
                None => {},
            }
            let ghost before_ctx = line_view(spans@);
            match context_inheritance_detail(context_inheritance) {
                Some(c) => push_span(&mut spans, span(SpanStyle::Dim, c)),
                None => {},
            }
            proof {
                let req = request_view(
                    match spawn_request {
                        Some(x) => Some(*x),
                        None => None,
                    },
                );
                let d: Seq<(SpanStyle, Seq<char>)> = match spec_spawn_detail(req, fast) {
                    Some(d) => seq![(SpanStyle::Dim, " "@), (SpanStyle::Magenta, d)],
                    None => Seq::empty(),
                };
                let c: Seq<(SpanStyle, Seq<char>)> = match spec_context_detail(context_inheritance) {
                    Some(c) => seq![(SpanStyle::Dim, c)],
                    None => Seq::empty(),
                };
                assert(before_ctx =~= before_detail + d);
                assert(line_view(spans@) =~= before_ctx + c);
            }
            title_spans_line(spans)
        },
        None => title_text(owned("Agent spawn failed")),
    };
    let mut details: Vec<Vec<StyledSpan>> = Vec::new();
    if !crate::text::str_is_blank(prompt) {
        let mut line: Vec<StyledSpan> = Vec::new();
        push_span(&mut line, span(SpanStyle::Plain, owned(prompt_preview)));
        assert(line_view(line@) =~= seq![(SpanStyle::Plain, prompt_preview@)]);
        push_line(&mut details, line);
        assert(lines_view(details@) =~= seq![seq![(SpanStyle::Plain, prompt_preview@)]]);
    } else {
        assert(lines_view(details@) =~= Seq::<Seq<(SpanStyle, Seq<char>)>>::empty());
    }
    collab_event(title, details)
}

/// The spawn request of a spawn call, when it names both model and effort.
pub fn spawn_request_summary(
    model: Option<&str>,
    reasoning_effort: Option<ReasoningEffort>,
    context_inheritance: Option<SpawnContextInheritance>,
) -> (r: Option<SpawnRequestSummary>)
    ensures
        match (model, reasoning_effort) {
            (Some(m), Some(e)) => r matches Some(s) && s.model@ == m@ && s.reasoning_effort == e
                && s.context_inheritance == context_inheritance,
            _ => r is None,
        },
{
    match (model, reasoning_effort) {
        (Some(m), Some(e)) => Some(
            SpawnRequestSummary {
                model: owned(m),
                reasoning_effort: e,
                context_inheritance,
            },
        ),
        _ => None,
    }
}

// ---------------------------------------------------------------------------
// Requests to the parent
// ---------------------------------------------------------------------------

/// The details of a consultation of the parent's context.
pub open spec fn consultation_details(
    status: CollabAgentToolCallStatus,
    parent_status: Option<CollabAgentStatus>,
    requires_authoritative: bool,
) -> Seq<Seq<(SpanStyle, Seq<char>)>> {
    if status == CollabAgentToolCallStatus::InProgress {
        seq![seq![(SpanStyle::Dim, "Consulting a snapshot of the parent context"@)]]
    } else if requires_authoritative {
        seq![seq![(SpanStyle::Yellow, "Use ask_parent with mode: authoritative for a parent decision"@)]]
    } else if spec_consultation_title(status, parent_status, requires_authoritative)
        == "Advisory from parent context snapshot"@ {
        seq![seq![(SpanStyle::Yellow, "May be stale; this is not an authoritative parent decision"@)]]
    } else {
        Seq::empty()
    }
}

fn single_line(style: SpanStyle, text: &str) -> (r: Vec<Vec<StyledSpan>>)
    ensures
        lines_view(r@) == seq![seq![(style, text@)]],
{
    let mut line: Vec<StyledSpan> = Vec::new();
    push_span(&mut line, span(style, owned(text)));
    assert(line_view(line@) =~= seq![(style, text@)]);
    let mut lines: Vec<Vec<StyledSpan>> = Vec::new();
    push_line(&mut lines, line);
    assert(lines_view(lines@) =~= seq![seq![(style, text@)]]);
    lines
}

/// The row of a consultation of the parent's context.
pub fn parent_consultation(
    status: CollabAgentToolCallStatus,
    parent_status: Option<CollabAgentStatus>,
    requires_authoritative: bool,
) -> (r: Vec<Vec<StyledSpan>>)
    ensures
        lines_view(r@) == event_lines(
            text_title(spec_consultation_title(status, parent_status, requires_authoritative)),
            consultation_details(status, parent_status, requires_authoritative),
        ),
{
    let title = parent_consultation_title(status, parent_status, requires_authoritative);
    let details = if status == CollabAgentToolCallStatus::InProgress {
        single_line(SpanStyle::Dim, "Consulting a snapshot of the parent context")
    } else if requires_authoritative {
        single_line(SpanStyle::Yellow, "Use ask_parent with mode: authoritative for a parent decision")
    } else if crate::text::str_eq(title, "Advisory from parent context snapshot") {
        single_line(SpanStyle::Yellow, "May be stale; this is not an authoritative parent decision")
    } else {
        let d: Vec<Vec<StyledSpan>> = Vec::new();
        assert(lines_view(d@) =~= Seq::<Seq<(SpanStyle, Seq<char>)>>::empty());
        d
    };
    collab_event(title_text(owned(title)), details)
}

/// The row of a request for the parent's decision; consultations get their own row.
pub open spec fn spec_parent_decision_lines(
    status: CollabAgentToolCallStatus,
    mode: Option<AskParentMode>,
    parent_status: Option<CollabAgentStatus>,
    requires_authoritative: bool,
) -> Seq<Seq<(SpanStyle, Seq<char>)>> {
    if mode == Some(AskParentMode::Consult) {
        event_lines(
            text_title(spec_consultation_title(status, parent_status, requires_authoritative)),
            consultation_details(status, parent_status, requires_authoritative),
        )
    } else {
        event_lines(
            text_title(
                spec_parent_decision_title(status, mode, parent_status, requires_authoritative),
            ),
            Seq::empty(),
        )
    }
}

pub fn parent_decision(
    status: CollabAgentToolCallStatus,
    mode: Option<AskParentMode>,
    parent_status: Option<CollabAgentStatus>,
    requires_authoritative: bool,
) -> (r: Vec<Vec<StyledSpan>>)
    ensures
        lines_view(r@) == spec_parent_decision_lines(status, mode, parent_status, requires_authoritative),
{
    if mode == Some(AskParentMode::Consult) {
        return parent_consultation(status, parent_status, requires_authoritative);
    }
    let title = parent_decision_title(status, mode, parent_status, requires_authoritative);
    let details: Vec<Vec<StyledSpan>> = Vec::new();
    assert(lines_view(details@) =~= Seq::<Seq<(SpanStyle, Seq<char>)>>::empty());
    collab_event(title_text(owned(title)), details)
}

// ---------------------------------------------------------------------------
// Waiting
// ---------------------------------------------------------------------------

/// The thread ids among texts, in order, leaving out texts that are not UUIDs.
pub open spec fn parsed_ids(raw: Seq<String>) -> Seq<ThreadId>
    decreases raw.len(),
{
    if raw.len() == 0 {
        Seq::empty()
    } else {
        parsed_ids(raw.drop_last()) + match crate::ids::parsed_uuid(raw.last()@) {
            Some(v) => seq![ThreadId { value: v }],
            None => Seq::empty(),
        }
    }
}

fn parse_ids(raw: &[String]) -> (r: Vec<ThreadId>)
    ensures
        r@ == parsed_ids(raw@),
{
    let mut out: Vec<ThreadId> = Vec::new();
    let mut i: usize = 0;
    while i < raw.len()
        invariant
            i <= raw@.len(),
            out@ == parsed_ids(raw@.subrange(0, i as int)),
        decreases raw@.len() - i,
    {
        proof {
            let sub = raw@.subrange(0, i + 1);
            assert(sub.drop_last() =~= raw@.subrange(0, i as int));
            assert(sub.last() == raw@[i as int]);
        }
        match ThreadId::from_string(raw[i].as_str()) {
            Some(id) => out.push(id),
            None => {},
        }
        i = i + 1;
        assert(out@ =~= parsed_ids(raw@.subrange(0, i as int)));
    }
    assert(raw@.subrange(0, raw@.len() as int) =~= raw@);
    out
}

/// The label lines of agents.
pub open spec fn label_lines(ids: Seq<ThreadId>, table: Seq<(ThreadId, AgentMetadata)>) -> Seq<
    Seq<(SpanStyle, Seq<char>)>,
> {
    Seq::new(ids.len(), |i: int| label_of(ids[i], metadata_for(table, ids[i])))
}

/// The row of a wait that began: the one agent waited for, or how many,
/// with a line per agent when there are several.
pub open spec fn spec_waiting_begin(
    raw: Seq<String>,
    table: Seq<(ThreadId, AgentMetadata)>,
) -> Seq<Seq<(SpanStyle, Seq<char>)>> {
    let ids = parsed_ids(raw);
    event_lines(
        if ids.len() == 1 {
            agent_title("Waiting for"@, ids[0], metadata_for(table, ids[0]))
        } else {
            text_title(spec_waiting_title(ids.len()))
        },
        if ids.len() > 1 {
            label_lines(ids, table)
        } else {
            Seq::empty()
        },
    )
}

pub fn waiting_begin(receiver_thread_ids: &[String], table: &[(ThreadId, AgentMetadata)]) -> (r: Vec<
    Vec<StyledSpan>,
>)
    ensures
        lines_view(r@) == spec_waiting_begin(receiver_thread_ids@, table@),
{
    let ids = parse_ids(receiver_thread_ids);
    let title = if ids.len() == 1 {
        title_with_agent("Waiting for", ids[0], table)
    } else {
        title_text(waiting_title(ids.len()))
    };
    let mut details: Vec<Vec<StyledSpan>> = Vec::new();
    if ids.len() > 1 {
        let mut i: usize = 0;
        while i < ids.len()
            invariant
                i <= ids@.len(),
                lines_view(details@) =~= label_lines(ids@, table@).subrange(0, i as int),
            decreases ids@.len() - i,
        {
            push_line(&mut details, agent_label(ids[i], table));
            i = i + 1;
        }
        assert(lines_view(details@) =~= label_lines(ids@, table@));
    } else {
        assert(lines_view(details@) =~= Seq::<Seq<(SpanStyle, Seq<char>)>>::empty());
    }
    collab_event(title, details)
}

// ---------------------------------------------------------------------------
// Sub-agent activity
// ---------------------------------------------------------------------------

/// The title of a sub-agent activity row: the action in bold, the agent's
/// path in backquotes (cyan) and the execution details (dimmed).
pub open spec fn spec_activity_title(prefix: Seq<char>, agent_path: Seq<char>, details: Option<Seq<char>>) -> Seq<
    (SpanStyle, Seq<char>),
> {
    title_line(
        seq![(SpanStyle::Bold, prefix + " "@), (SpanStyle::Cyan, "`"@ + agent_path + "`"@)]
            + match details {
            Some(d) => seq![(SpanStyle::Dim, d)],
            None => Seq::empty(),
        },
    )
}

/// The row of a sub-agent activity.
pub fn sub_agent_activity_title(
    action: super::collab::SubAgentActivityAction,
    agent_path: &str,
    model: Option<&str>,
    effort: Option<ReasoningEffort>,
    fast: bool,
    context_inheritance: Option<SpawnContextInheritance>,
) -> (r: Vec<Vec<StyledSpan>>)
    ensures
        lines_view(r@) == event_lines(
            spec_activity_title(
                action.spec_title_prefix(),
                agent_path@,
                super::collab::spec_execution_details(
                    action,
                    match model {
                        Some(m) => Some(m@),
                        None => None,
                    },
                    effort,
                    fast,
                    context_inheritance,
                ),
            ),
            Seq::empty(),
        ),
{
    let mut head = owned(action.title_prefix());
    push_str(&mut head, " ");
    let mut path = owned("`");
    push_str(&mut path, agent_path);
    push_str(&mut path, "`");
    let mut spans: Vec<StyledSpan> = Vec::new();
    push_span(&mut spans, span(SpanStyle::Bold, head));
    push_span(&mut spans, span(SpanStyle::Cyan, path));
    let ghost before = line_view(spans@);
    assert(before =~= seq![
        (SpanStyle::Bold, action.spec_title_prefix() + " "@),
        (SpanStyle::Cyan, "`"@ + agent_path@ + "`"@),
    ]);
    let details = super::collab::sub_agent_activity_execution_details(
        action,
        model,
        effort,
        fast,
        context_inheritance,
    );
    match details {
        Some(d) => {
            push_span(&mut spans, span(SpanStyle::Dim, d));
            assert(line_view(spans@) =~= before + seq![(SpanStyle::Dim, d@)]);
        },
        None => {
            assert(line_view(spans@) =~= before + Seq::<(SpanStyle, Seq<char>)>::empty());
        },
    }
    let details: Vec<Vec<StyledSpan>> = Vec::new();
    assert(lines_view(details@) =~= Seq::<Seq<(SpanStyle, Seq<char>)>>::empty());
    collab_event(title_spans_line(spans), details)
}

/// What the agent picker learns from a sub-agent activity: the agent's
/// thread, its path, and how its liveness changes (see
/// `sub_agent_activity_running_update`).
#[derive(Clone, Debug, PartialEq, Eq)]
pub struct SubAgentActivityDisplay {
    pub thread_id: ThreadId,
    pub agent_path: String,
    pub running_update: Option<bool>,
}

/// The picker update of a sub-agent activity; `None` when the agent's
/// thread id is not a UUID.
pub fn sub_agent_activity_display(
    kind: super::collab::SubAgentActivityKind,
    operation: Option<super::collab::SubAgentActivityOperation>,
    outcome: Option<super::collab::SubAgentActivityOutcome>,
    agent_thread_id: &str,
    agent_path: &str,
) -> (r: Option<SubAgentActivityDisplay>)
    ensures
        match crate::ids::parsed_uuid(agent_thread_id@) {
            None => r is None,
            Some(v) => r matches Some(d) && d.thread_id == (ThreadId { value: v })
                && d.agent_path@ == agent_path@ && d.running_update
                == super::collab::spec_running_update(kind, operation, outcome),
        },
{
    match ThreadId::from_string(agent_thread_id) {
        Some(thread_id) => Some(
            SubAgentActivityDisplay {
                thread_id,
                agent_path: owned(agent_path),
                running_update: super::collab::sub_agent_activity_running_update(
                    kind,
                    operation,
                    outcome,
                ),
            },
        ),
        None => None,
    }
}


// ---------------------------------------------------------------------------
// Finished waits
// ---------------------------------------------------------------------------

impl CollabAgentState {
    /// A copy of the state.
    pub fn duplicate(&self) -> (r: CollabAgentState)
        ensures
            r == *self,
    {
        CollabAgentState {
            status: self.status,
            preview: match &self.preview {
                Some(p) => Some(p.clone()),
                None => None,
            },
        }
    }
}

/// The state reported under a thread id's text: that of its first entry.
pub open spec fn state_for(states: Seq<(String, CollabAgentState)>, key: Seq<char>) -> Option<
    CollabAgentState,
>
    decreases states.len(),
{
    if states.len() == 0 {
        None
    } else if states[0].0@ == key {
        Some(states[0].1)
    } else {
        state_for(states.drop_first(), key)
    }
}

fn find_state<'a>(states: &'a [(String, CollabAgentState)], key: &str) -> (r: Option<&'a CollabAgentState>)
    ensures
        match r {
            Some(s) => state_for(states@, key@) == Some(*s),
            None => state_for(states@, key@) is None,
        },
{
    let mut i: usize = 0;
    assert(states@.subrange(0, states@.len() as int) =~= states@);
    while i < states.len()
        invariant
            i <= states@.len(),
            state_for(states@, key@) == state_for(states@.subrange(i as int, states@.len() as int), key@),
        decreases states@.len() - i,
    {
        let ghost rest = states@.subrange(i as int, states@.len() as int);
        assert(rest.drop_first() =~= states@.subrange(i + 1, states@.len() as int));
        assert(rest[0] == states@[i as int]);
        if crate::text::str_eq(states[i].0.as_str(), key) {
            return Some(&states[i].1);
        }
        i = i + 1;
    }
    None
}

/// The receivers that are thread ids with a reported state, in order.
pub open spec fn receiver_entries(raw: Seq<String>, states: Seq<(String, CollabAgentState)>) -> Seq<
    (ThreadId, CollabAgentState),
>
    decreases raw.len(),
{
    if raw.len() == 0 {
        Seq::empty()
    } else {
        receiver_entries(raw.drop_last(), states) + match (
            crate::ids::parsed_uuid(raw.last()@),
            state_for(states, raw.last()@),
        ) {
            (Some(v), Some(st)) => seq![(ThreadId { value: v }, st)],
            _ => Seq::empty(),
        }
    }
}

/// The thread ids of entries.
pub open spec fn entry_ids(entries: Seq<(ThreadId, CollabAgentState)>) -> Seq<ThreadId> {
    entries.map_values(|e: (ThreadId, CollabAgentState)| e.0)
}

/// The reported states of agents that are not among `seen`, in the order given.
pub open spec fn extra_entries(states: Seq<(String, CollabAgentState)>, seen: Seq<ThreadId>) -> Seq<
    (ThreadId, CollabAgentState),
>
    decreases states.len(),
{
    if states.len() == 0 {
        Seq::empty()
    } else {
        extra_entries(states.drop_last(), seen) + match crate::ids::parsed_uuid(states.last().0@) {
            Some(v) => if seen.contains(ThreadId { value: v }) {
                Seq::empty()
            } else {
                seq![(ThreadId { value: v }, states.last().1)]
            },
            None => Seq::empty(),
        }
    }
}

/// Entries in the order of their thread ids' text.
pub open spec fn sorted_by_id_text(entries: Seq<(ThreadId, CollabAgentState)>) -> bool {
    forall|i: int, j: int|
        0 <= i < j < entries.len() ==> crate::text::lex_le(
            uuid_text(#[trigger] entries[i].0.value),
            uuid_text(#[trigger] entries[j].0.value),
        )
}

/// The line of one agent's reported state.
pub open spec fn entry_line(e: (ThreadId, CollabAgentState), table: Seq<(ThreadId, AgentMetadata)>) -> Seq<
    (SpanStyle, Seq<char>),
> {
    label_of(e.0, metadata_for(table, e.0)) + seq![(SpanStyle::Dim, ": "@)] + spec_status_spans(e.1)
}

/// The lines of a finished wait: one per agent, or a note that none completed.
pub open spec fn spec_wait_lines(
    entries: Seq<(ThreadId, CollabAgentState)>,
    table: Seq<(ThreadId, AgentMetadata)>,
) -> Seq<Seq<(SpanStyle, Seq<char>)>> {
    if entries.len() == 0 {
        seq![seq![(SpanStyle::Plain, "No agents completed yet"@)]]
    } else {
        Seq::new(entries.len(), |i: int| entry_line(entries[i], table))
    }
}

/// What a finished wait lists: the receivers with a reported state, in
/// order, then the other agents that reported, in the order of their
/// thread ids' text.
pub open spec fn wait_order(
    raw: Seq<String>,
    states: Seq<(String, CollabAgentState)>,
    order: Seq<(ThreadId, CollabAgentState)>,
) -> bool {
    let first = receiver_entries(raw, states);
    let rest = order.subrange(first.len() as int, order.len() as int);
    &&& order.len() >= first.len()
    &&& order.subrange(0, first.len() as int) == first
    &&& rest.to_multiset() == extra_entries(states, entry_ids(first)).to_multiset()
    &&& sorted_by_id_text(rest)
}

fn contains_id(ids: &Vec<ThreadId>, id: ThreadId) -> (b: bool)
    ensures
        b == ids@.contains(id),
{
    let mut i: usize = 0;
    while i < ids.len()
        invariant
            i <= ids@.len(),
            forall|j: int| 0 <= j < i ==> ids@[j] != id,
        decreases ids@.len() - i,
    {
        if ids[i] == id {
            assert(ids@[i as int] == id);
            return true;
        }
        i = i + 1;
    }
    false
}

/// The entries of sorted (id, state, id text) triples.
pub open spec fn triple_entries(v: Seq<(ThreadId, CollabAgentState, String)>) -> Seq<
    (ThreadId, CollabAgentState),
> {
    v.map_values(|t: (ThreadId, CollabAgentState, String)| (t.0, t.1))
}

/// Inserts an entry after every entry whose id text is not greater.
fn insert_sorted(sorted: &mut Vec<(ThreadId, CollabAgentState, String)>, e: (ThreadId, CollabAgentState, String))
    requires
        e.2@ == uuid_text(e.0.value),
        forall|k: int| 0 <= k < old(sorted)@.len() ==> (#[trigger] old(sorted)@[k]).2@ == uuid_text(
            old(sorted)@[k].0.value,
        ),
        sorted_by_id_text(triple_entries(old(sorted)@)),
    ensures
        forall|k: int| 0 <= k < final(sorted)@.len() ==> (#[trigger] final(sorted)@[k]).2@ == uuid_text(
            final(sorted)@[k].0.value,
        ),
        sorted_by_id_text(triple_entries(final(sorted)@)),
        triple_entries(final(sorted)@).to_multiset() == triple_entries(old(sorted)@).to_multiset().insert(
            (e.0, e.1),
        ),
{
    let ghost old_v = sorted@;
    let mut p: usize = sorted.len();
    while p > 0 && !crate::text::str_lex_le(sorted[p - 1].2.as_str(), e.2.as_str())
        invariant
            sorted@ == old_v,
            p <= old_v.len(),
            forall|k: int| p <= k < old_v.len() ==> !crate::text::lex_le(
                (#[trigger] old_v[k]).2@,
                e.2@,
            ),
        decreases p,
    {
        p = p - 1;
    }
    let ghost key = e.2@;
    let ghost pair = (e.0, e.1);
    sorted.insert(p, e);
    proof {
        let nv = sorted@;
        assert(nv == old_v.insert(p as int, e));
        assert(triple_entries(nv) =~= triple_entries(old_v).insert(p as int, pair));
        broadcast use vstd::seq_lib::group_to_multiset_ensures;
        assert forall|k: int| 0 <= k < nv.len() implies (#[trigger] nv[k]).2@ == uuid_text(nv[k].0.value) by {
            if k < p {
                assert(nv[k] == old_v[k]);
            } else if k > p {
                assert(nv[k] == old_v[k - 1]);
            }
        }
        let te = triple_entries(nv);
        assert forall|i: int, j: int| 0 <= i < j < te.len() implies crate::text::lex_le(
            uuid_text(#[trigger] te[i].0.value),
            uuid_text(#[trigger] te[j].0.value),
        ) by {
            let ot = triple_entries(old_v);
            if j < p {
                assert(te[i] == ot[i] && te[j] == ot[j]);
            } else if i > p {
                assert(te[i] == ot[i - 1] && te[j] == ot[j - 1]);
            } else if i < p && j > p {
                assert(te[i] == ot[i] && te[j] == ot[j - 1]);
            } else if i == p {
                // the new entry comes before every entry that followed it
                assert(te[j] == ot[j - 1]);
                assert(old_v[j - 1].2@ == uuid_text(old_v[j - 1].0.value));
                assert(!crate::text::lex_le(old_v[j - 1].2@, key));
                crate::text::lemma_lex_total(old_v[j - 1].2@, key);
            } else {
                // j == p: the entries before it are not greater than the new one
                assert(te[i] == ot[i]);
                assert(old_v[p - 1].2@ == uuid_text(old_v[p - 1].0.value));
                assert(crate::text::lex_le(old_v[p - 1].2@, key));
                if i < p - 1 {
                    assert(ot[i] == (old_v[i].0, old_v[i].1));
                    assert(ot[p - 1] == (old_v[p - 1].0, old_v[p - 1].1));
                    crate::text::lemma_lex_transitive(
                        uuid_text(ot[i].0.value),
                        uuid_text(ot[p - 1].0.value),
                        key,
                    );
                }
            }
        }
    }
}

/// The lines of a finished wait: the receivers that reported, in order,
/// then the other agents that reported, in the order of their thread ids'
/// text; `No agents completed yet` when there are none.
pub fn wait_complete_lines(
    receiver_thread_ids: &[String],
    states: &[(String, CollabAgentState)],
    table: &[(ThreadId, AgentMetadata)],
) -> (r: Vec<Vec<StyledSpan>>)
    ensures
        exists|order: Seq<(ThreadId, CollabAgentState)>|
            wait_order(receiver_thread_ids@, states@, order) && lines_view(r@) == spec_wait_lines(
                order,
                table@,
            ),
{
    let mut entries: Vec<(ThreadId, CollabAgentState)> = Vec::new();
    let mut seen: Vec<ThreadId> = Vec::new();
    let mut i: usize = 0;
    while i < receiver_thread_ids.len()
        invariant
            i <= receiver_thread_ids@.len(),
            entries@ == receiver_entries(receiver_thread_ids@.subrange(0, i as int), states@),
            seen@ == entry_ids(entries@),
        decreases receiver_thread_ids@.len() - i,
    {
        proof {
            let sub = receiver_thread_ids@.subrange(0, i + 1);
            assert(sub.drop_last() =~= receiver_thread_ids@.subrange(0, i as int));
            assert(sub.last() == receiver_thread_ids@[i as int]);
        }
        let raw = receiver_thread_ids[i].as_str();
        match ThreadId::from_string(raw) {
            Some(id) => match find_state(states, raw) {
                Some(st) => {
                    entries.push((id, st.duplicate()));
                    seen.push(id);
                    assert(seen@ =~= entry_ids(entries@));
                },
                None => {},
            },
            None => {},
        }
        i = i + 1;
        assert(entries@ =~= receiver_entries(receiver_thread_ids@.subrange(0, i as int), states@));
    }
    assert(receiver_thread_ids@.subrange(0, receiver_thread_ids@.len() as int) =~= receiver_thread_ids@);
    let ghost first = entries@;
    let mut sorted: Vec<(ThreadId, CollabAgentState, String)> = Vec::new();
    proof {
        broadcast use vstd::seq_lib::group_to_multiset_ensures;
        assert(triple_entries(sorted@) =~= Seq::<(ThreadId, CollabAgentState)>::empty());
        assert(extra_entries(states@.subrange(0, 0), seen@) =~= Seq::<(ThreadId, CollabAgentState)>::empty());
    }
    let mut k: usize = 0;
    while k < states.len()
        invariant
            k <= states@.len(),
            seen@ == entry_ids(first),
            forall|m: int| 0 <= m < sorted@.len() ==> (#[trigger] sorted@[m]).2@ == uuid_text(
                sorted@[m].0.value,
            ),
            sorted_by_id_text(triple_entries(sorted@)),
            triple_entries(sorted@).to_multiset() == extra_entries(
                states@.subrange(0, k as int),
                seen@,
            ).to_multiset(),
        decreases states@.len() - k,
    {
        proof {
            let sub = states@.subrange(0, k + 1);
            assert(sub.drop_last() =~= states@.subrange(0, k as int));
            assert(sub.last() == states@[k as int]);
        }
        let ghost before = extra_entries(states@.subrange(0, k as int), seen@);
        match ThreadId::from_string(states[k].0.as_str()) {
            Some(id) => {
                if !contains_id(&seen, id) {
                    let text = id.to_text();
                    insert_sorted(&mut sorted, (id, states[k].1.duplicate(), text));
                    proof {
                        broadcast use vstd::seq_lib::group_to_multiset_ensures;
                        assert(extra_entries(states@.subrange(0, k + 1), seen@) == before.push(
                            (id, states@[k as int].1),
                        ));
                    }
                } else {
                    assert(extra_entries(states@.subrange(0, k + 1), seen@) =~= before);
                }
            },
            None => {
                assert(extra_entries(states@.subrange(0, k + 1), seen@) =~= before);
            },
        }
        k = k + 1;
    }
    assert(states@.subrange(0, states@.len() as int) =~= states@);
    let ghost rest = triple_entries(sorted@);
    let ghost order = first + rest;
    let mut all: Vec<(ThreadId, CollabAgentState)> = entries;
    let mut m: usize = 0;
    while m < sorted.len()
        invariant
            m <= sorted@.len(),
            rest == triple_entries(sorted@),
            all@ == first + rest.subrange(0, m as int),
        decreases sorted@.len() - m,
    {
        all.push((sorted[m].0, sorted[m].1.duplicate()));
        m = m + 1;
        assert(all@ =~= first + rest.subrange(0, m as int));
    }
    assert(rest.subrange(0, rest.len() as int) =~= rest);
    assert(all@ == order);
    proof {
        assert(order.subrange(0, first.len() as int) =~= first);
        assert(order.subrange(first.len() as int, order.len() as int) =~= rest);
    }
    let mut lines: Vec<Vec<StyledSpan>> = Vec::new();
    if all.len() == 0 {
        let mut line: Vec<StyledSpan> = Vec::new();
        push_span(&mut line, span(SpanStyle::Plain, owned("No agents completed yet")));
        assert(line_view(line@) =~= seq![(SpanStyle::Plain, "No agents completed yet"@)]);
        push_line(&mut lines, line);
        assert(lines_view(lines@) =~= spec_wait_lines(order, table@));
        return lines;
    }
    let mut q: usize = 0;
    while q < all.len()
        invariant
            q <= all@.len(),
            all@ == order,
            lines_view(lines@) =~= Seq::new(order.len(), |i: int| entry_line(order[i], table@)).subrange(
                0,
                q as int,
            ),
        decreases all@.len() - q,
    {
        let mut line = agent_label(all[q].0, table);
        push_span(&mut line, span(SpanStyle::Dim, owned(": ")));
        append_spans(&mut line, status_summary_spans(&all[q].1));
        assert(line_view(line@) =~= entry_line(order[q as int], table@));
        push_line(&mut lines, line);
        q = q + 1;
    }
    assert(lines_view(lines@) =~= spec_wait_lines(order, table@));
    lines
}

/// The row of a finished wait.
pub fn waiting_end(
    receiver_thread_ids: &[String],
    states: &[(String, CollabAgentState)],
    table: &[(ThreadId, AgentMetadata)],
) -> (r: Vec<Vec<StyledSpan>>)
    ensures
        exists|order: Seq<(ThreadId, CollabAgentState)>|
            wait_order(receiver_thread_ids@, states@, order) && lines_view(r@) == event_lines(
                text_title("Finished waiting"@),
                spec_wait_lines(order, table@),
            ),
{
    let details = wait_complete_lines(receiver_thread_ids, states, table);
    collab_event(title_text(owned("Finished waiting")), details)
}

// ---------------------------------------------------------------------------
// Resumes
// ---------------------------------------------------------------------------

/// The first receiver's reported state, else the state under the least
/// thread id text.
pub open spec fn first_receiver_state(raw: Seq<String>, states: Seq<(String, CollabAgentState)>) -> Option<
    CollabAgentState,
>
    decreases raw.len(),
{
    if raw.len() == 0 {
        None
    } else {
        match state_for(states, raw[0]@) {
            Some(s) => Some(s),
            None => first_receiver_state(raw.drop_first(), states),
        }
    }
}

/// `i` is the first of the entries with the least thread id text.
pub open spec fn first_least(states: Seq<(String, CollabAgentState)>, i: int) -> bool {
    &&& 0 <= i < states.len()
    &&& forall|j: int| 0 <= j < states.len() ==> crate::text::lex_le(states[i].0@, #[trigger] states[j].0@)
    &&& forall|j: int| 0 <= j < i ==> !crate::text::lex_le(#[trigger] states[j].0@, states[i].0@)
}

/// The state a resumed agent reported: that of the first receiver with one,
/// else that under the least thread id text.
pub fn first_agent_state<'a>(
    receiver_thread_ids: &[String],
    states: &'a [(String, CollabAgentState)],
) -> (r: Option<&'a CollabAgentState>)
    ensures
        first_receiver_state(receiver_thread_ids@, states@) matches Some(s) ==> r == Some(&s),
        first_receiver_state(receiver_thread_ids@, states@) is None && states@.len() == 0 ==> r is None,
        first_receiver_state(receiver_thread_ids@, states@) is None && states@.len() > 0 ==> exists|i: int|
            first_least(states@, i) && r == Some(&states@[i].1),
{
    let mut i: usize = 0;
    assert(receiver_thread_ids@.subrange(0, receiver_thread_ids@.len() as int) =~= receiver_thread_ids@);
    while i < receiver_thread_ids.len()
        invariant
            i <= receiver_thread_ids@.len(),
            first_receiver_state(receiver_thread_ids@, states@) == first_receiver_state(
                receiver_thread_ids@.subrange(i as int, receiver_thread_ids@.len() as int),
                states@,
            ),
        decreases receiver_thread_ids@.len() - i,
    {
        let ghost rest = receiver_thread_ids@.subrange(i as int, receiver_thread_ids@.len() as int);
        assert(rest.drop_first() =~= receiver_thread_ids@.subrange(i + 1, receiver_thread_ids@.len() as int));
        assert(rest[0] == receiver_thread_ids@[i as int]);
        match find_state(states, receiver_thread_ids[i].as_str()) {
            Some(s) => {
                return Some(s);
            },
            None => {},
        }
        i = i + 1;
    }
    if states.len() == 0 {
        return None;
    }
    let mut best: usize = 0;
    let mut j: usize = 1;
    proof {
        crate::text::lemma_lex_reflexive(states@[0].0@);
    }
    while j < states.len()
        invariant
            1 <= j <= states@.len(),
            best < j,
            forall|x: int| 0 <= x < j ==> crate::text::lex_le(states@[best as int].0@, #[trigger] states@[x].0@),
            forall|x: int| 0 <= x < best ==> !crate::text::lex_le(#[trigger] states@[x].0@, states@[best as int].0@),
        decreases states@.len() - j,
    {
        if !crate::text::str_lex_le(states[best].0.as_str(), states[j].0.as_str()) {
            proof {
                crate::text::lemma_lex_total(states@[best as int].0@, states@[j as int].0@);
                assert forall|x: int| 0 <= x <= j implies crate::text::lex_le(
                    states@[j as int].0@,
                    #[trigger] states@[x].0@,
                ) by {
                    if x < j {
                        crate::text::lemma_lex_transitive(
                            states@[j as int].0@,
                            states@[best as int].0@,
                            states@[x].0@,
                        );
                    } else {
                        crate::text::lemma_lex_reflexive(states@[j as int].0@);
                    }
                }
                assert forall|x: int| 0 <= x < j implies !crate::text::lex_le(
                    #[trigger] states@[x].0@,
                    states@[j as int].0@,
                ) by {
                    if crate::text::lex_le(states@[x].0@, states@[j as int].0@) {
                        crate::text::lemma_lex_transitive(
                            states@[best as int].0@,
                            states@[x].0@,
                            states@[j as int].0@,
                        );
                    }
                }
            }
            best = j;
        }
        j = j + 1;
    }
    assert(first_least(states@, best as int));
    Some(&states[best].1)
}


// ---------------------------------------------------------------------------
// Tool calls
// ---------------------------------------------------------------------------

/// Whether a collaboration call reports this receiver as not found: only a
/// finished call does, when the receiver's reported state says so.
pub fn collab_receiver_is_not_found(
    completed: bool,
    agents_states: &[(String, CollabAgentState)],
    receiver_thread_id: &str,
) -> (b: bool)
    ensures
        b == (completed && match state_for(agents_states@, receiver_thread_id@) {
            Some(s) => s.status == CollabAgentStatus::NotFound,
            None => false,
        }),
{
    if !completed {
        return false;
    }
    match find_state(agents_states, receiver_thread_id) {
        Some(state) => state.status == CollabAgentStatus::NotFound,
        None => false,
    }
}

/// A multi-agent tool call as the transcript receives it.
#[derive(Clone, Debug, PartialEq, Eq)]
pub struct CollabToolCall {
    pub tool: CollabAgentTool,
    pub status: CollabAgentToolCallStatus,
    pub receiver_thread_ids: Vec<String>,
    pub prompt: Option<String>,
    /// The trimmed prompt as the transcript previews it.
    pub prompt_preview: String,
    pub model: Option<String>,
    pub reasoning_effort: Option<ReasoningEffort>,
    /// Whether the call runs on the fast service tier.
    pub fast: bool,
    pub context_inheritance: Option<SpawnContextInheritance>,
    pub mode: Option<AskParentMode>,
    /// Whether the parent answered that only an authoritative request can be decided.
    pub requires_authoritative: bool,
    /// Reported states by thread id text, in the order the call's map hands them out.
    pub agents_states: Vec<(String, CollabAgentState)>,
}

/// The first receiver, when it is a thread id.
pub open spec fn first_receiver(call: CollabToolCall) -> Option<ThreadId> {
    if call.receiver_thread_ids@.len() == 0 {
        None
    } else {
        match crate::ids::parsed_uuid(call.receiver_thread_ids@[0]@) {
            Some(v) => Some(ThreadId { value: v }),
            None => None,
        }
    }
}

/// The state of the parent: the first state the call reports.
pub open spec fn parent_status_of(call: CollabToolCall) -> Option<CollabAgentStatus> {
    if call.agents_states@.len() == 0 {
        None
    } else {
        Some(call.agents_states@[0].1.status)
    }
}

/// The spawn request shown: the cached one, else the call's own when it
/// names both model and effort.
pub open spec fn shown_request(call: CollabToolCall, cached: Option<SpawnRequestSummary>) -> Option<
    (Seq<char>, ReasoningEffort),
> {
    match cached {
        Some(c) => Some((c.model@, c.reasoning_effort)),
        None => match (call.model, call.reasoning_effort) {
            (Some(m), Some(e)) => Some((m@, e)),
            _ => None,
        },
    }
}

/// What the row of a tool call shows: nothing for the calls that show
/// nothing (see `spec_collab_cell`), else the row of its tool.
pub open spec fn tool_call_row(
    call: CollabToolCall,
    cached: Option<SpawnRequestSummary>,
    table: Seq<(ThreadId, AgentMetadata)>,
    r: Option<Vec<Vec<StyledSpan>>>,
) -> bool {
    &&& (r is Some <==> spec_collab_cell(call.tool, call.status, first_receiver(call) is Some) is Some)
    &&& (r matches Some(lines) ==> match call.tool {
        CollabAgentTool::SpawnAgent => lines_view(lines@) == event_lines(
            spawn_title(
                first_receiver(call),
                match first_receiver(call) {
                    Some(id) => metadata_for(table, id),
                    None => AgentMetadata { agent_nickname: None, agent_role: None },
                },
                shown_request(call, cached),
                call.fast,
                call.context_inheritance,
            ),
            if is_blank(
                match call.prompt {
                    Some(p) => p@,
                    None => Seq::empty(),
                },
            ) {
                Seq::empty()
            } else {
                seq![seq![(SpanStyle::Plain, call.prompt_preview@)]]
            },
        ),
        CollabAgentTool::SendInput => lines_view(lines@) == event_lines(
            agent_title(
                "Sent input to"@,
                first_receiver(call)->Some_0,
                metadata_for(table, first_receiver(call)->Some_0),
            ),
            Seq::empty(),
        ),
        CollabAgentTool::AskParent => lines_view(lines@) == spec_parent_decision_lines(
            call.status,
            call.mode,
            parent_status_of(call),
            call.requires_authoritative,
        ),
        CollabAgentTool::ResumeAgent => if call.status == CollabAgentToolCallStatus::InProgress {
            lines_view(lines@) == event_lines(
                agent_title(
                    "Resuming"@,
                    first_receiver(call)->Some_0,
                    metadata_for(table, first_receiver(call)->Some_0),
                ),
                Seq::empty(),
            )
        } else {
            &&& lines_view(lines@).len() == 2
            &&& lines_view(lines@)[0] == agent_title(
                "Resumed"@,
                first_receiver(call)->Some_0,
                metadata_for(table, first_receiver(call)->Some_0),
            )
            &&& first_receiver_state(call.receiver_thread_ids@, call.agents_states@) matches Some(s)
                ==> lines_view(lines@)[1] == seq![(SpanStyle::Dim, "  └ "@)] + spec_status_spans(s)
            &&& first_receiver_state(call.receiver_thread_ids@, call.agents_states@) is None
                && call.agents_states@.len() == 0 ==> lines_view(lines@)[1] == seq![
                (SpanStyle::Dim, "  └ "@),
            ] + spec_error_spans(None)
            &&& first_receiver_state(call.receiver_thread_ids@, call.agents_states@) is None
                && call.agents_states@.len() > 0 ==> exists|i: int|
                first_least(call.agents_states@, i) && lines_view(lines@)[1] == seq![
                    (SpanStyle::Dim, "  └ "@),
                ] + spec_status_spans(call.agents_states@[i].1)
        },
        CollabAgentTool::Wait => if call.status == CollabAgentToolCallStatus::InProgress {
            lines_view(lines@) == spec_waiting_begin(call.receiver_thread_ids@, table)
        } else {
            exists|order: Seq<(ThreadId, CollabAgentState)>|
                wait_order(call.receiver_thread_ids@, call.agents_states@, order) && lines_view(
                    lines@,
                ) == event_lines(text_title("Finished waiting"@), spec_wait_lines(order, table))
        },
        CollabAgentTool::CloseAgent => lines_view(lines@) == event_lines(
            agent_title(
                "Closed"@,
                first_receiver(call)->Some_0,
                metadata_for(table, first_receiver(call)->Some_0),
            ),
            Seq::empty(),
        ),
    })
}

/// The transcript row of a multi-agent tool call, or none for the calls
/// that show nothing (see `spec_collab_cell`).
pub fn tool_call_history_cell_with_spawn_request(
    call: &CollabToolCall,
    cached_spawn_request: Option<&SpawnRequestSummary>,
    table: &[(ThreadId, AgentMetadata)],
) -> (r: Option<Vec<Vec<StyledSpan>>>)
    ensures
        tool_call_row(
            *call,
            match cached_spawn_request {
                Some(c) => Some(*c),
                None => None,
            },
            table@,
            r,
        ),
{
    let first = if call.receiver_thread_ids.len() == 0 {
        None
    } else {
        ThreadId::from_string(call.receiver_thread_ids[0].as_str())
    };
    let in_progress = call.status == CollabAgentToolCallStatus::InProgress;
    match call.tool {
        CollabAgentTool::SpawnAgent => {
            if in_progress {
                return None;
            }
            let fallback = match &call.model {
                Some(m) => spawn_request_summary(
                    Some(m.as_str()),
                    call.reasoning_effort,
                    call.context_inheritance,
                ),
                None => None,
            };
            let request = match cached_spawn_request {
                Some(c) => Some(c),
                None => match &fallback {
                    Some(f) => Some(f),
                    None => None,
                },
            };
            let prompt = match &call.prompt {
                Some(p) => p.as_str(),
                None => "",
            };
            proof {
                if call.prompt is None {
                    reveal_strlit("");
                    assert(prompt@ =~= Seq::<char>::empty());
                }
            }
            Some(
                spawn_end(
                    first,
                    prompt,
                    call.prompt_preview.as_str(),
                    request,
                    call.fast,
                    call.context_inheritance,
                    table,
                ),
            )
        },
        CollabAgentTool::SendInput => {
            if in_progress {
                return None;
            }
            match first {
                Some(id) => Some(interaction_end(id, table)),
                None => None,
            }
        },
        CollabAgentTool::AskParent => {
            let parent_status = if call.agents_states.len() == 0 {
                None
            } else {
                Some(call.agents_states[0].1.status)
            };
            Some(parent_decision(call.status, call.mode, parent_status, call.requires_authoritative))
        },
        CollabAgentTool::ResumeAgent => match first {
            Some(id) => {
                if in_progress {
                    Some(resume_begin(id, table))
                } else {
                    let state = first_agent_state(
                        call.receiver_thread_ids.as_slice(),
                        call.agents_states.as_slice(),
                    );
                    let lines = resume_end(id, state, table);
                    proof {
                        assert(prefixed(
                            seq![
                                spec_status_line(
                                    match state {
                                        Some(s) => Some(*s),
                                        None => None,
                                    },
                                ),
                            ],
                            (SpanStyle::Dim, "  └ "@),
                            (SpanStyle::Plain, "    "@),
                        )[0] == seq![(SpanStyle::Dim, "  └ "@)] + spec_status_line(
                            match state {
                                Some(s) => Some(*s),
                                None => None,
                            },
                        ));
                    }
                    Some(lines)
                }
            },
            None => None,
        },
        CollabAgentTool::Wait => {
            if in_progress {
                Some(waiting_begin(call.receiver_thread_ids.as_slice(), table))
            } else {
                Some(
                    waiting_end(
                        call.receiver_thread_ids.as_slice(),
                        call.agents_states.as_slice(),
                        table,
                    ),
                )
            }
        },
        CollabAgentTool::CloseAgent => {
            if in_progress {
                return None;
            }
            match first {
                Some(id) => Some(close_end(id, table)),
                None => None,
            }
        },
    }
}

/// The transcript row of a multi-agent tool call without a cached spawn request.
pub fn tool_call_history_cell(call: &CollabToolCall, table: &[(ThreadId, AgentMetadata)]) -> (r: Option<
    Vec<Vec<StyledSpan>>,
>)
    ensures
        tool_call_row(*call, None, table@, r),
{
    tool_call_history_cell_with_spawn_request(call, None, table)
}

} // verus!
