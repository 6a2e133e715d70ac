use codex_policy::hooks::handler::ReasoningEffort;
use codex_policy::ids::ThreadId;
use codex_policy::tui::collab::{
    AskParentMode, CollabAgentStatus, CollabAgentTool, CollabAgentToolCallStatus,
    SpawnContextInheritance, SubAgentActivityAction, SubAgentActivityKind,
    SubAgentActivityOutcome, agent_picker_status_dot_spans,
};
use codex_policy::tui::collab_cells::{
    collab_receiver_is_not_found, first_agent_state, parent_decision, sub_agent_activity_display, SubAgentActivityDisplay, status_summary_spans, sub_agent_activity_title,
    tool_call_history_cell, tool_call_history_cell_with_spawn_request, wait_complete_lines,
    waiting_begin, AgentMetadata, CollabAgentState, CollabToolCall, SpawnRequestSummary,
};
use codex_policy::tui::styled::{SpanStyle, StyledSpan};

const SENDER: &str = "00000000-0000-0000-0000-000000000001";
const ROBIE: &str = "00000000-0000-0000-0000-000000000002";
const BOB: &str = "00000000-0000-0000-0000-000000000003";

fn s(style: SpanStyle, text: &str) -> StyledSpan {
    StyledSpan { style, text: text.to_string() }
}

fn table() -> Vec<(ThreadId, AgentMetadata)> {
    vec![(
        ThreadId::from_u128(2),
        AgentMetadata {
            agent_nickname: Some("Robie".to_string()),
            agent_role: Some("explorer".to_string()),
        },
    )]
}

fn state(status: CollabAgentStatus, preview: Option<&str>) -> CollabAgentState {
    CollabAgentState { status, preview: preview.map(str::to_string) }
}

fn call(tool: CollabAgentTool, status: CollabAgentToolCallStatus, receivers: &[&str]) -> CollabToolCall {
    CollabToolCall {
        tool,
        status,
        receiver_thread_ids: receivers.iter().map(|r| r.to_string()).collect(),
        prompt: None,
        prompt_preview: String::new(),
        model: None,
        reasoning_effort: None,
        fast: false,
        context_inheritance: None,
        mode: None,
        requires_authoritative: false,
        agents_states: Vec::new(),
    }
}

#[test]
fn thread_ids_parse_and_print_as_uuids() {
    assert_eq!(ThreadId::from_string(ROBIE), Some(ThreadId::from_u128(2)));
    assert_eq!(ThreadId::from_string("not-a-uuid"), None);
    assert_eq!(ThreadId::from_u128(3).to_text(), BOB);
}

#[test]
fn spawn_rows_name_the_agent_and_its_request() {
    let mut spawn = call(CollabAgentTool::SpawnAgent, CollabAgentToolCallStatus::Completed, &[ROBIE]);
    spawn.prompt = Some("  Compute 11! and reply with just the integer result.  ".to_string());
    spawn.prompt_preview = "Compute 11! and reply with just the integer result.".to_string();
    spawn.model = Some("gpt-5.6".to_string());
    spawn.reasoning_effort = Some(ReasoningEffort::High);
    spawn.fast = true;
    spawn.context_inheritance = Some(SpawnContextInheritance::Full);
    let lines = tool_call_history_cell(&spawn, &table()).expect("spawn item renders");
    assert_eq!(
        lines,
        vec![
            vec![
                s(SpanStyle::Dim, "• "),
                s(SpanStyle::Bold, "Spawned "),
                s(SpanStyle::CyanBold, "Robie"),
                s(SpanStyle::Dim, " "),
                s(SpanStyle::Plain, "[explorer]"),
                s(SpanStyle::Dim, " "),
                s(SpanStyle::Magenta, "(gpt-5.6 high fast)"),
                s(SpanStyle::Dim, " · context: all"),
            ],
            vec![
                s(SpanStyle::Dim, "  └ "),
                s(SpanStyle::Plain, "Compute 11! and reply with just the integer result."),
            ],
        ]
    );

    let cached = SpawnRequestSummary {
        model: "  ".to_string(),
        reasoning_effort: ReasoningEffort::Low,
        context_inheritance: None,
    };
    let mut failed = call(CollabAgentTool::SpawnAgent, CollabAgentToolCallStatus::Failed, &[]);
    failed.prompt = Some("   ".to_string());
    let lines = tool_call_history_cell_with_spawn_request(&failed, Some(&cached), &table())
        .expect("failed spawn renders");
    assert_eq!(lines, vec![vec![s(SpanStyle::Dim, "• "), s(SpanStyle::Bold, "Agent spawn failed")]]);

    let mut unnamed = call(CollabAgentTool::SpawnAgent, CollabAgentToolCallStatus::Completed, &[BOB]);
    unnamed.model = Some("ignored".to_string());
    let lines = tool_call_history_cell_with_spawn_request(&unnamed, Some(&cached), &table())
        .expect("spawn renders");
    assert_eq!(
        lines[0],
        vec![
            s(SpanStyle::Dim, "• "),
            s(SpanStyle::Bold, "Spawned "),
            s(SpanStyle::Cyan, BOB),
            s(SpanStyle::Dim, " "),
            s(SpanStyle::Magenta, "(low)"),
        ]
    );
    let running = call(CollabAgentTool::SpawnAgent, CollabAgentToolCallStatus::InProgress, &[ROBIE]);
    assert_eq!(tool_call_history_cell(&running, &table()), None);
}

#[test]
fn single_agent_rows() {
    let send = call(CollabAgentTool::SendInput, CollabAgentToolCallStatus::Completed, &[ROBIE]);
    assert_eq!(
        tool_call_history_cell(&send, &table()).expect("send-input item renders"),
        vec![vec![
            s(SpanStyle::Dim, "• "),
            s(SpanStyle::Bold, "Sent input to "),
            s(SpanStyle::CyanBold, "Robie"),
            s(SpanStyle::Dim, " "),
            s(SpanStyle::Plain, "[explorer]"),
        ]]
    );
    let no_receiver = call(CollabAgentTool::SendInput, CollabAgentToolCallStatus::Completed, &["bad"]);
    assert_eq!(tool_call_history_cell(&no_receiver, &table()), None);
    let close = call(CollabAgentTool::CloseAgent, CollabAgentToolCallStatus::Completed, &[BOB]);
    assert_eq!(
        tool_call_history_cell(&close, &table()).expect("close renders"),
        vec![vec![s(SpanStyle::Dim, "• "), s(SpanStyle::Bold, "Closed "), s(SpanStyle::Cyan, BOB)]]
    );
    let resuming = call(CollabAgentTool::ResumeAgent, CollabAgentToolCallStatus::InProgress, &[BOB]);
    assert_eq!(
        tool_call_history_cell(&resuming, &table()).expect("resume renders")[0][1],
        s(SpanStyle::Bold, "Resuming ")
    );
}

#[test]
fn collab_resume_interrupted_snapshot() {
    let mut resumed = call(CollabAgentTool::ResumeAgent, CollabAgentToolCallStatus::Completed, &[ROBIE]);
    resumed.agents_states = vec![(ROBIE.to_string(), state(CollabAgentStatus::Interrupted, None))];
    assert_eq!(
        tool_call_history_cell(&resumed, &table()).expect("resume item renders"),
        vec![
            vec![
                s(SpanStyle::Dim, "• "),
                s(SpanStyle::Bold, "Resumed "),
                s(SpanStyle::CyanBold, "Robie"),
                s(SpanStyle::Dim, " "),
                s(SpanStyle::Plain, "[explorer]"),
            ],
            vec![s(SpanStyle::Dim, "  └ "), s(SpanStyle::Yellow, "Interrupted")],
        ]
    );
    let mut unknown = call(CollabAgentTool::ResumeAgent, CollabAgentToolCallStatus::Failed, &[ROBIE]);
    unknown.agents_states = Vec::new();
    assert_eq!(
        tool_call_history_cell(&unknown, &table()).expect("resume renders")[1],
        vec![s(SpanStyle::Dim, "  └ "), s(SpanStyle::Red, "Error")]
    );
}

#[test]
fn first_agent_state_prefers_receivers_then_least_id() {
    let states = vec![
        ("b".to_string(), state(CollabAgentStatus::Running, None)),
        ("a".to_string(), state(CollabAgentStatus::Completed, None)),
        ("c".to_string(), state(CollabAgentStatus::Errored, None)),
    ];
    assert_eq!(
        first_agent_state(&["x".to_string(), "c".to_string()], &states).map(|s| s.status),
        Some(CollabAgentStatus::Errored)
    );
    assert_eq!(
        first_agent_state(&["x".to_string()], &states).map(|s| s.status),
        Some(CollabAgentStatus::Completed)
    );
    assert_eq!(first_agent_state(&[], &[]), None);
}

#[test]
fn waiting_rows() {
    let lines = waiting_begin(&[ROBIE.to_string(), "bad".to_string(), BOB.to_string()], &table());
    assert_eq!(
        lines,
        vec![
            vec![s(SpanStyle::Dim, "• "), s(SpanStyle::Bold, "Waiting for 2 agents")],
            vec![
                s(SpanStyle::Dim, "  └ "),
                s(SpanStyle::CyanBold, "Robie"),
                s(SpanStyle::Dim, " "),
                s(SpanStyle::Plain, "[explorer]"),
            ],
            vec![s(SpanStyle::Plain, "    "), s(SpanStyle::Cyan, BOB)],
        ]
    );
    let one = waiting_begin(&[BOB.to_string()], &table());
    assert_eq!(
        one,
        vec![vec![s(SpanStyle::Dim, "• "), s(SpanStyle::Bold, "Waiting for "), s(SpanStyle::Cyan, BOB)]]
    );
    let none = waiting_begin(&[], &table());
    assert_eq!(none, vec![vec![s(SpanStyle::Dim, "• "), s(SpanStyle::Bold, "Waiting for agents")]]);
}

#[test]
fn finished_wait_lists_receivers_then_other_agents_by_id() {
    let states = vec![
        (BOB.to_string(), state(CollabAgentStatus::Completed, Some("39916800"))),
        (SENDER.to_string(), state(CollabAgentStatus::Errored, Some("tool timeout"))),
        (ROBIE.to_string(), state(CollabAgentStatus::Running, None)),
        ("bad".to_string(), state(CollabAgentStatus::Shutdown, None)),
    ];
    let lines = wait_complete_lines(&[ROBIE.to_string()], &states, &table());
    assert_eq!(
        lines,
        vec![
            vec![
                s(SpanStyle::CyanBold, "Robie"),
                s(SpanStyle::Dim, " "),
                s(SpanStyle::Plain, "[explorer]"),
                s(SpanStyle::Dim, ": "),
                s(SpanStyle::CyanBold, "Running"),
            ],
            vec![
                s(SpanStyle::Cyan, SENDER),
                s(SpanStyle::Dim, ": "),
                s(SpanStyle::Red, "Error"),
                s(SpanStyle::Dim, " - "),
                s(SpanStyle::Plain, "tool timeout"),
            ],
            vec![
                s(SpanStyle::Cyan, BOB),
                s(SpanStyle::Dim, ": "),
                s(SpanStyle::Green, "Completed"),
                s(SpanStyle::Dim, " - "),
                s(SpanStyle::Plain, "39916800"),
            ],
        ]
    );
    assert_eq!(
        wait_complete_lines(&[], &[], &table()),
        vec![vec![s(SpanStyle::Plain, "No agents completed yet")]]
    );
    let mut wait = call(CollabAgentTool::Wait, CollabAgentToolCallStatus::Completed, &[]);
    wait.agents_states = states;
    let row = tool_call_history_cell(&wait, &table()).expect("wait end item renders");
    assert_eq!(row[0], vec![s(SpanStyle::Dim, "• "), s(SpanStyle::Bold, "Finished waiting")]);
    assert_eq!(row.len(), 4);
    assert_eq!(row[1][1], s(SpanStyle::Cyan, SENDER));
}

#[test]
fn status_spans() {
    assert_eq!(
        status_summary_spans(&state(CollabAgentStatus::Completed, Some(""))),
        vec![s(SpanStyle::Green, "Completed")]
    );
    assert_eq!(
        status_summary_spans(&state(CollabAgentStatus::NotFound, Some("x"))),
        vec![s(SpanStyle::Red, "Not found")]
    );
    assert_eq!(
        status_summary_spans(&state(CollabAgentStatus::PendingInit, None)),
        vec![s(SpanStyle::Cyan, "Pending init")]
    );
    assert_eq!(
        status_summary_spans(&state(CollabAgentStatus::Shutdown, None)),
        vec![s(SpanStyle::Plain, "Shutdown")]
    );
}

#[test]
fn parent_rows() {
    assert_eq!(
        parent_decision(
            CollabAgentToolCallStatus::InProgress,
            Some(AskParentMode::Consult),
            None,
            false
        ),
        vec![
            vec![s(SpanStyle::Dim, "• "), s(SpanStyle::Bold, "Consulting parent context snapshot")],
            vec![
                s(SpanStyle::Dim, "  └ "),
                s(SpanStyle::Dim, "Consulting a snapshot of the parent context"),
            ],
        ]
    );
    assert_eq!(
        parent_decision(
            CollabAgentToolCallStatus::Completed,
            Some(AskParentMode::Consult),
            Some(CollabAgentStatus::Completed),
            false
        )[1][1],
        s(SpanStyle::Yellow, "May be stale; this is not an authoritative parent decision")
    );
    assert_eq!(
        parent_decision(CollabAgentToolCallStatus::Completed, Some(AskParentMode::Consult), None, true)[1][1],
        s(SpanStyle::Yellow, "Use ask_parent with mode: authoritative for a parent decision")
    );
    assert_eq!(
        parent_decision(
            CollabAgentToolCallStatus::Completed,
            Some(AskParentMode::Consult),
            Some(CollabAgentStatus::Interrupted),
            false
        ),
        vec![vec![s(SpanStyle::Dim, "• "), s(SpanStyle::Bold, "Parent context consultation timed out")]]
    );
    let mut ask = call(CollabAgentTool::AskParent, CollabAgentToolCallStatus::Completed, &[]);
    ask.mode = Some(AskParentMode::Authoritative);
    ask.agents_states = vec![(SENDER.to_string(), state(CollabAgentStatus::Completed, Some("Yes.")))];
    assert_eq!(
        tool_call_history_cell(&ask, &table()).expect("ask-parent item renders"),
        vec![vec![s(SpanStyle::Dim, "• "), s(SpanStyle::Bold, "Received parent decision")]]
    );
}

#[test]
fn activity_rows() {
    assert_eq!(
        sub_agent_activity_title(
            SubAgentActivityAction::Started,
            "/root/research",
            Some("gpt-5.6"),
            Some(ReasoningEffort::Medium),
            false,
            None
        ),
        vec![vec![
            s(SpanStyle::Dim, "• "),
            s(SpanStyle::Bold, "Started "),
            s(SpanStyle::Cyan, "`/root/research`"),
            s(SpanStyle::Dim, " (gpt-5.6, medium)"),
        ]]
    );
    assert_eq!(
        sub_agent_activity_title(SubAgentActivityAction::Replied, "/root/a", Some("m"), None, true, None),
        vec![vec![
            s(SpanStyle::Dim, "• "),
            s(SpanStyle::Bold, "Replied to "),
            s(SpanStyle::Cyan, "`/root/a`"),
        ]]
    );
}

#[test]
fn picker_status_dot_is_green_only_while_open() {
    assert_eq!(
        agent_picker_status_dot_spans(false),
        vec![s(SpanStyle::Green, "\u{2022}"), s(SpanStyle::Plain, " ")]
    );
    assert_eq!(
        agent_picker_status_dot_spans(true),
        vec![s(SpanStyle::Plain, "\u{2022}"), s(SpanStyle::Plain, " ")]
    );
}

#[test]
fn sub_agent_activity_display_reads_the_thread_and_liveness() {
    assert_eq!(
        sub_agent_activity_display(SubAgentActivityKind::Started, None, None, ROBIE, "/root/robie"),
        Some(SubAgentActivityDisplay {
            thread_id: ThreadId::from_u128(2),
            agent_path: "/root/robie".to_string(),
            running_update: Some(true),
        })
    );
    assert_eq!(
        sub_agent_activity_display(
            SubAgentActivityKind::Interrupted,
            None,
            Some(SubAgentActivityOutcome::Failed),
            BOB,
            "/root/bob",
        ),
        Some(SubAgentActivityDisplay {
            thread_id: ThreadId::from_u128(3),
            agent_path: "/root/bob".to_string(),
            running_update: None,
        })
    );
    assert_eq!(
        sub_agent_activity_display(SubAgentActivityKind::Started, None, None, "not-a-uuid", "/x"),
        None
    );
}

#[test]
fn receiver_not_found_only_on_finished_calls() {
    let states = vec![
        (ROBIE.to_string(), CollabAgentState { status: CollabAgentStatus::NotFound, preview: None }),
        (BOB.to_string(), CollabAgentState { status: CollabAgentStatus::Running, preview: None }),
    ];
    assert!(collab_receiver_is_not_found(true, &states, ROBIE));
    assert!(!collab_receiver_is_not_found(false, &states, ROBIE));
    assert!(!collab_receiver_is_not_found(true, &states, BOB));
    assert!(!collab_receiver_is_not_found(true, &states, SENDER));
}
