use codex_policy::hooks::handler::ReasoningEffort;
use codex_policy::tui::agent_nav::{next_agent_shortcut_matches, previous_agent_shortcut_matches};
use codex_policy::tui::chat_flow::{
    mailbox_action_completion, route_feature_item, FeatureItem, FeatureItemLifecycle,
    FeatureItemRoute, MailboxCompletion, PendingSpawnRequests,
};
use codex_policy::tui::collab::{CollabAgentTool, CollabAgentToolCallStatus};
use codex_policy::tui::collab_cells::SpawnRequestSummary;
use codex_policy::tui::styled::{SpanStyle, StyledSpan};
use codex_policy::tui::sudo_overlay::{KeyCode, KeyEvent, KeyEventKind, ALT};
use codex_policy::tui::transcript::{
    skill_load_detail_lines, skill_load_header_line, skill_load_raw_lines,
};

fn key(code: KeyCode, modifiers: u8) -> KeyEvent {
    KeyEvent { code, modifiers, kind: KeyEventKind::Press }
}

fn word_motion_fallbacks_only_when_allowed() {
    let macos = true;
    assert!(previous_agent_shortcut_matches(key(KeyCode::Left, ALT), false, macos));
    assert!(next_agent_shortcut_matches(key(KeyCode::Right, ALT), false, macos));
    assert!(previous_agent_shortcut_matches(key(KeyCode::Char('b'), ALT), true, macos));
    assert!(next_agent_shortcut_matches(key(KeyCode::Char('f'), ALT), true, macos));
    assert!(!previous_agent_shortcut_matches(key(KeyCode::Char('b'), ALT), false, macos));
    assert!(!next_agent_shortcut_matches(key(KeyCode::Char('f'), ALT), false, macos));
}

fn option_arrows_only() {
    let macos = false;
    assert!(previous_agent_shortcut_matches(key(KeyCode::Left, ALT), false, macos));
    assert!(next_agent_shortcut_matches(key(KeyCode::Right, ALT), false, macos));
    assert!(!previous_agent_shortcut_matches(key(KeyCode::Char('b'), ALT), false, macos));
    assert!(!next_agent_shortcut_matches(key(KeyCode::Char('f'), ALT), false, macos));
    assert!(!previous_agent_shortcut_matches(key(KeyCode::Char('b'), ALT), true, macos));
    assert!(!previous_agent_shortcut_matches(key(KeyCode::Left, 0), false, macos));
    let release = KeyEvent { code: KeyCode::Left, modifiers: ALT, kind: KeyEventKind::Release };
    assert!(!previous_agent_shortcut_matches(release, false, macos));
}

#[test]
fn multi_agents_agent_shortcut_matches_option_arrow_word_motion_fallbacks_only_when_allowed() {
    word_motion_fallbacks_only_when_allowed();
}

#[test]
fn tests_agent_shortcut_matches_option_arrow_word_motion_fallbacks_only_when_allowed() {
    word_motion_fallbacks_only_when_allowed();
}

#[test]
fn multi_agents_agent_shortcut_matches_option_arrows_only() {
    option_arrows_only();
}

#[test]
fn tests_agent_shortcut_matches_option_arrows_only() {
    option_arrows_only();
}

#[test]
fn feature_items_route_by_lifecycle() {
    let started = FeatureItemLifecycle::Started;
    let status = FeatureItemLifecycle::Status;
    assert_eq!(
        route_feature_item(FeatureItem::AgentMailboxAction { in_progress: false }, started),
        FeatureItemRoute::MailboxActionStarted
    );
    assert_eq!(
        route_feature_item(FeatureItem::AgentMailboxAction { in_progress: true }, status),
        FeatureItemRoute::MailboxActionStarted
    );
    assert_eq!(
        route_feature_item(FeatureItem::AgentMailboxAction { in_progress: false }, status),
        FeatureItemRoute::MailboxActionCompleted
    );
    assert_eq!(
        route_feature_item(FeatureItem::MemoryMutation { in_progress: false }, status),
        FeatureItemRoute::MemoryMutationCompleted
    );
    assert_eq!(
        route_feature_item(FeatureItem::MemoryMutation { in_progress: true }, status),
        FeatureItemRoute::MemoryMutationStarted
    );
    assert_eq!(
        route_feature_item(FeatureItem::CollabAgentToolCall, started),
        FeatureItemRoute::CollabAgentToolCall
    );
    assert_eq!(route_feature_item(FeatureItem::Other, status), FeatureItemRoute::NotHandled);
    assert_eq!(mailbox_action_completion(Some("m-1"), "m-1"), MailboxCompletion::UpdateActive);
    assert_eq!(mailbox_action_completion(Some("m-2"), "m-1"), MailboxCompletion::InsertHistory);
    assert_eq!(mailbox_action_completion(None, "m-1"), MailboxCompletion::InsertHistory);
}

fn request(model: &str) -> SpawnRequestSummary {
    SpawnRequestSummary {
        model: model.to_string(),
        reasoning_effort: ReasoningEffort::High,
        context_inheritance: None,
    }
}

#[test]
fn spawn_request_seen_at_start_is_shown_when_finished() {
    let mut pending = PendingSpawnRequests::new();
    let spawn = CollabAgentTool::SpawnAgent;
    assert_eq!(
        pending.on_tool_call("call-1", spawn, CollabAgentToolCallStatus::InProgress, Some(request("a"))),
        None
    );
    assert_eq!(
        pending.on_tool_call("call-2", spawn, CollabAgentToolCallStatus::InProgress, Some(request("b"))),
        None
    );
    assert_eq!(
        pending.on_tool_call("call-1", CollabAgentTool::Wait, CollabAgentToolCallStatus::Completed, None),
        None
    );
    assert_eq!(
        pending.on_tool_call("call-1", spawn, CollabAgentToolCallStatus::Completed, None),
        Some(request("a"))
    );
    assert_eq!(pending.on_tool_call("call-1", spawn, CollabAgentToolCallStatus::Failed, None), None);
    assert_eq!(
        pending.on_tool_call("call-2", spawn, CollabAgentToolCallStatus::InProgress, Some(request("c"))),
        None
    );
    assert_eq!(
        pending.on_tool_call("call-2", spawn, CollabAgentToolCallStatus::Completed, None),
        Some(request("c"))
    );
    assert_eq!(
        pending.on_tool_call("call-3", spawn, CollabAgentToolCallStatus::Completed, Some(request("d"))),
        Some(request("d"))
    );
}

#[test]
fn skill_load_rows() {
    assert_eq!(
        skill_load_header_line("review", true),
        vec![
            StyledSpan { style: SpanStyle::RedBold, text: "•".to_string() },
            StyledSpan { style: SpanStyle::Plain, text: " ".to_string() },
            StyledSpan { style: SpanStyle::Bold, text: "Failed to read skill review".to_string() },
        ]
    );
    assert_eq!(skill_load_header_line("review", false)[0].style, SpanStyle::GreenBold);
    assert_eq!(
        skill_load_raw_lines("review", true, Some("/skills/review/SKILL.md"), Some("not found")),
        vec![
            "Failed to read skill review".to_string(),
            "/skills/review/SKILL.md".to_string(),
            "not found".to_string(),
        ]
    );
    assert_eq!(skill_load_raw_lines("x", false, None, None), vec!["Read skill x".to_string()]);
    assert_eq!(
        skill_load_detail_lines(None, Some("boom")),
        vec![vec![StyledSpan { style: SpanStyle::Dim, text: "boom".to_string() }]]
    );
}
