use codex_policy::hooks::handler::ReasoningEffort;
use codex_policy::tui::collab::{
    agent_label_spans, collab_tool_cell, collab_tool_summary, context_inheritance_detail,
    format_agent_picker_item_name, parent_decision_summary, parent_decision_title,
    reasoning_effort_label, spawn_detail, sub_agent_activity_action,
    sub_agent_activity_running_update, sub_agent_activity_summary, waiting_title, AskParentMode,
    CollabAgentStatus, CollabAgentTool, CollabAgentToolCallStatus, CollabCell,
    SpawnContextInheritance, SubAgentActivityAction, SubAgentActivityKind,
    SubAgentActivityOperation, SubAgentActivityOutcome,
};
use codex_policy::tui::styled::{SpanStyle, StyledSpan};
use CollabAgentTool::{AskParent, CloseAgent, ResumeAgent, SendInput, SpawnAgent, Wait};
use CollabAgentToolCallStatus::{Completed, Failed, InProgress};
use SubAgentActivityKind::{Interacted, Interrupted, Started};
use SubAgentActivityOperation::{FollowupTask, InspectAgent, ParentReply, SendMessage};
use SubAgentActivityOutcome::Succeeded;

fn interacted_update() -> Option<bool> {
    sub_agent_activity_running_update(
        SubAgentActivityKind::Interacted,
        Some(SubAgentActivityOperation::SendMessage),
        Some(SubAgentActivityOutcome::Succeeded),
    )
}

#[test]
fn multi_agents_interacted_sub_agent_activity_does_not_change_liveness() {
    assert_eq!(interacted_update(), None);
}

#[test]
fn tests_interacted_sub_agent_activity_does_not_change_liveness() {
    assert_eq!(interacted_update(), None);
}

fn running_update_cases() -> Vec<(
    SubAgentActivityKind,
    Option<SubAgentActivityOperation>,
    Option<SubAgentActivityOutcome>,
    Option<bool>,
)> {
    vec![
        (Started, None, None, Some(true)),
        (Started, None, Some(Succeeded), Some(true)),
        (Interacted, None, None, Some(true)),
        (Interrupted, None, None, Some(false)),
        (Interacted, Some(SendMessage), Some(Succeeded), None),
        (Interacted, Some(FollowupTask), Some(Succeeded), Some(true)),
        (Interacted, Some(ParentReply), Some(Succeeded), Some(true)),
        (Interacted, Some(InspectAgent), Some(Succeeded), None),
        (Interacted, Some(SendMessage), Some(SubAgentActivityOutcome::Failed), None),
        (Interacted, Some(FollowupTask), Some(SubAgentActivityOutcome::Failed), None),
        (Interacted, Some(ParentReply), Some(SubAgentActivityOutcome::Failed), None),
        (Interacted, Some(InspectAgent), Some(SubAgentActivityOutcome::Failed), None),
    ]
}

#[test]
fn multi_agents_sub_agent_activity_running_updates_distinguish_liveness_from_informational_activity(
) {
    for (kind, operation, outcome, expected) in running_update_cases() {
        assert_eq!(sub_agent_activity_running_update(kind, operation, outcome), expected);
    }
}

#[test]
fn tests_sub_agent_activity_running_updates_distinguish_liveness_from_informational_activity() {
    for (kind, operation, outcome, expected) in running_update_cases() {
        assert_eq!(sub_agent_activity_running_update(kind, operation, outcome), expected);
    }
}

#[test]
fn failed_activity_keeps_liveness_for_every_kind() {
    for kind in [
        SubAgentActivityKind::Started,
        SubAgentActivityKind::Interacted,
        SubAgentActivityKind::Interrupted,
    ] {
        assert_eq!(
            sub_agent_activity_running_update(kind, None, Some(SubAgentActivityOutcome::Failed)),
            None
        );
    }
}

#[test]
fn sub_agent_activity_titles() {
    assert_eq!(
        sub_agent_activity_action(
            SubAgentActivityKind::Interacted,
            Some(SubAgentActivityOperation::FollowupTask),
            Some(SubAgentActivityOutcome::Failed)
        ),
        SubAgentActivityAction::FailedToSendFollowup
    );
    assert_eq!(
        sub_agent_activity_summary(
            SubAgentActivityKind::Started,
            None,
            None,
            "/root/research",
            Some("gpt-5.6"),
            Some(ReasoningEffort::High),
            true,
            Some(SpawnContextInheritance::LastNTurns { turns: 1 }),
        ),
        "Started /root/research (gpt-5.6, high, fast) · context: last 1 turn"
    );
    assert_eq!(
        sub_agent_activity_summary(
            SubAgentActivityKind::Interacted,
            Some(SubAgentActivityOperation::InspectAgent),
            Some(SubAgentActivityOutcome::Succeeded),
            "/root/child",
            Some("gpt-5.6"),
            None,
            false,
            None,
        ),
        "Inspected /root/child"
    );
    assert_eq!(
        sub_agent_activity_summary(
            SubAgentActivityKind::Started,
            None,
            None,
            "/root/a",
            Some(""),
            None,
            false,
            Some(SpawnContextInheritance::NoContext),
        ),
        "Started /root/a · context: none"
    );
}

#[test]
fn context_and_effort_labels() {
    assert_eq!(context_inheritance_detail(None), None);
    assert_eq!(
        context_inheritance_detail(Some(SpawnContextInheritance::Full)),
        Some(" · context: all".to_string())
    );
    assert_eq!(
        context_inheritance_detail(Some(SpawnContextInheritance::LastNTurns { turns: 3 })),
        Some(" · context: last 3 turns".to_string())
    );
    assert_eq!(reasoning_effort_label(ReasoningEffort::Disabled), "none");
    assert_eq!(reasoning_effort_label(ReasoningEffort::XHigh), "xhigh");
}

#[test]
fn parent_decision_titles_and_summaries() {
    assert_eq!(parent_decision_title(InProgress, None, None, false), "Waiting for parent decision");
    assert_eq!(
        parent_decision_title(Completed, Some(AskParentMode::Authoritative), None, false),
        "Received parent decision"
    );
    assert_eq!(
        parent_decision_title(Completed, None, Some(CollabAgentStatus::Interrupted), false),
        "Parent decision timed out"
    );
    assert_eq!(
        parent_decision_title(Failed, None, Some(CollabAgentStatus::NotFound), false),
        "Parent decision unavailable"
    );
    assert_eq!(
        parent_decision_summary(Completed, Some(AskParentMode::Consult), None, false),
        "Advisory from parent context snapshot (may be stale; not authoritative)"
    );
    assert_eq!(
        parent_decision_summary(Completed, Some(AskParentMode::Consult), None, true),
        "Parent context requires an authoritative decision; use ask_parent with mode: authoritative"
    );
    assert_eq!(
        parent_decision_summary(InProgress, Some(AskParentMode::Consult), None, false),
        "Consulting parent context snapshot"
    );
    assert_eq!(
        parent_decision_summary(Completed, Some(AskParentMode::Consult), Some(CollabAgentStatus::Shutdown), false),
        "Parent context consultation unavailable"
    );
}

#[test]
fn collab_tool_summaries_and_cells() {
    assert_eq!(
        collab_tool_summary(SpawnAgent, Completed, Some(SpawnContextInheritance::Full), None, None, false),
        "Spawned an agent · context: all"
    );
    assert_eq!(
        collab_tool_summary(SpawnAgent, InProgress, Some(SpawnContextInheritance::Full), None, None, false),
        "Spawning an agent"
    );
    assert_eq!(collab_tool_summary(Wait, Failed, None, None, None, false), "Failed while waiting for an agent");
    assert_eq!(collab_tool_summary(CloseAgent, Completed, None, None, None, false), "Closed an agent");
    assert_eq!(collab_tool_cell(SpawnAgent, InProgress, true), None);
    assert_eq!(collab_tool_cell(SendInput, Completed, false), None);
    assert_eq!(collab_tool_cell(SendInput, Completed, true), Some(CollabCell::InteractionEnd));
    assert_eq!(collab_tool_cell(AskParent, InProgress, false), Some(CollabCell::ParentDecision));
    assert_eq!(collab_tool_cell(ResumeAgent, InProgress, true), Some(CollabCell::ResumeBegin));
    assert_eq!(collab_tool_cell(Wait, InProgress, false), Some(CollabCell::WaitingBegin));
    assert_eq!(collab_tool_cell(Wait, Completed, false), Some(CollabCell::WaitingEnd));
}

#[test]
fn spawn_details_and_waiting_titles() {
    assert_eq!(
        spawn_detail(Some(" gpt-5.6 "), ReasoningEffort::Medium, true),
        Some("(gpt-5.6 medium fast)".to_string())
    );
    assert_eq!(spawn_detail(Some("  "), ReasoningEffort::Low, false), Some("(low)".to_string()));
    assert_eq!(spawn_detail(None, ReasoningEffort::Low, false), None);
    assert_eq!(spawn_detail(None, ReasoningEffort::Low, true), Some("(fast)".to_string()));
    assert_eq!(waiting_title(0), "Waiting for agents");
    assert_eq!(waiting_title(3), "Waiting for 3 agents");
}

fn span(style: SpanStyle, text: &str) -> StyledSpan {
    StyledSpan { style, text: text.to_string() }
}

#[test]
fn multi_agents_title_styles_nickname_and_role() {
    assert_eq!(
        agent_label_spans(Some("Robie"), Some("explorer"), Some("00000000-0000-0000-0000-000000000002")),
        vec![
            span(SpanStyle::CyanBold, "Robie"),
            span(SpanStyle::Dim, " "),
            span(SpanStyle::Plain, "[explorer]"),
        ]
    );
}

#[test]
fn tests_title_styles_nickname_and_role() {
    let spans = agent_label_spans(Some(" Robie "), Some(" explorer "), None);
    assert_eq!(spans[0], span(SpanStyle::CyanBold, "Robie"));
    assert_eq!(spans[2], span(SpanStyle::Plain, "[explorer]"));
    assert_eq!(
        agent_label_spans(None, None, Some("thread-1")),
        vec![span(SpanStyle::Cyan, "thread-1")]
    );
    assert_eq!(agent_label_spans(Some(" "), None, None), vec![span(SpanStyle::Cyan, "agent")]);
}

#[test]
fn agent_picker_names() {
    assert_eq!(format_agent_picker_item_name(Some("Robie"), Some("explorer"), true), "Main [default]");
    assert_eq!(format_agent_picker_item_name(Some(" Robie "), Some("explorer"), false), "Robie [explorer]");
    assert_eq!(format_agent_picker_item_name(Some(""), Some("explorer"), false), "[explorer]");
    assert_eq!(format_agent_picker_item_name(Some("Robie"), None, false), "Robie");
    assert_eq!(format_agent_picker_item_name(None, Some(" "), false), "Agent");
}
