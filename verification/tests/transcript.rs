use codex_policy::mailbox::{AgentMailboxCategory, AgentMailboxUnreadSnapshot};
use codex_policy::protocol::lifecycle::{
    CompletedItemPersistence, ExtensionItemKind, MaterializedItemHandling, ThreadHistoryMode,
    TurnItemKind,
};
use codex_policy::tui::mailbox_action::{
    agent_mailbox_action_details, agent_mailbox_action_lines, agent_mailbox_action_title,
    agent_mailbox_message_line, category_name, AgentMailboxAction, AgentMailboxActionKind,
    AgentMailboxActionStatus, AgentMailboxMessagePreview, AgentMailboxMessagePreviewContent,
};
use codex_policy::tui::mailbox_status::apply_mailbox_update;
use codex_policy::tui::styled::{SpanStyle, StyledSpan};
use codex_policy::tui::transcript::{
    latest_compaction, memory_mutation_lines, render_compaction_summary, CompactInspectError,
    context_anchor_rewound_summary, context_anchor_saved_summary, memory_mutation_scope,
    memory_mutation_summary, memory_mutation_title, report_file_stem, sanitize_file_stem,
    truncate_chars, MemoryMutation, MemoryMutationAction, MemoryMutationScope,
    MemoryMutationStatus, TRUNCATION_NOTE,
};

fn span(style: SpanStyle, text: &str) -> StyledSpan {
    StyledSpan { style, text: text.to_string() }
}

#[test]
fn persisted_multi_agent_items_render_safe_transcript_summaries() {
    let mutation = MemoryMutation {
        action: MemoryMutationAction::Write,
        status: MemoryMutationStatus::Succeeded,
        scope: MemoryMutationScope::Project,
        title: Some("Repository conventions".to_string()),
        path: Some("memories/project/repository-conventions.md".to_string()),
        preview: Some("Run focused tests remotely.".to_string()),
    };
    assert_eq!(
        memory_mutation_summary(&mutation),
        "Wrote memory · scope: project · title: Repository conventions · path: memories/project/repository-conventions.md · preview: Run focused tests remotely."
    );
    let read = AgentMailboxAction {
        id: "mailbox-read-1".to_string(),
        status: AgentMailboxActionStatus::Succeeded,
        action: AgentMailboxActionKind::Read {
            sender: None,
            category: None,
            limit: 10,
            messages: vec![AgentMailboxMessagePreview {
                sender: "/root/research".to_string(),
                category: AgentMailboxCategory::Result,
                content: AgentMailboxMessagePreviewContent::Plaintext {
                    preview: Some("Completed integration.".to_string()),
                },
            }],
        },
    };
    assert_eq!(agent_mailbox_action_title(&read), "Read 1 mailbox message");
}

#[test]
fn context_anchor_summaries() {
    assert_eq!(context_anchor_saved_summary("a-1", None), "Context anchor saved: a-1");
    assert_eq!(context_anchor_saved_summary("a-1", Some("  ")), "Context anchor saved: a-1");
    assert_eq!(
        context_anchor_saved_summary("a-1", Some(" before refactor ")),
        "Context anchor saved: a-1 · before refactor"
    );
    assert_eq!(
        context_anchor_rewound_summary("a-1", 1, 1, 1200, 20, Some(true)),
        "Context rewound to anchor: a-1 · reclaimed ~1200 tokens (1 item) · meets 20% threshold · dropped 1 user turn"
    );
    assert_eq!(
        context_anchor_rewound_summary("a-2", 3, 7, 0, 35, None),
        "Context rewound to anchor: a-2 · reclaimed ~0 tokens (7 items) · 35% threshold unknown · dropped 3 user turns"
    );
    assert_eq!(
        context_anchor_rewound_summary("a-3", 0, 0, 5, 10, Some(false)),
        "Context rewound to anchor: a-3 · reclaimed ~5 tokens (0 items) · below 10% threshold · dropped 0 user turns"
    );
}

#[test]
fn memory_mutation_titles() {
    let mut m = MemoryMutation {
        action: MemoryMutationAction::Delete,
        status: MemoryMutationStatus::Failed,
        scope: MemoryMutationScope::Global,
        title: None,
        path: None,
        preview: None,
    };
    assert_eq!(memory_mutation_title(&m), "Failed to delete memory");
    assert_eq!(memory_mutation_summary(&m), "Failed to delete memory · scope: global");
    m.status = MemoryMutationStatus::InProgress;
    assert_eq!(memory_mutation_title(&m), "Deleting memory");
    assert_eq!(memory_mutation_scope(MemoryMutationScope::Session), "session");
}

#[test]
fn truncation_and_file_stems() {
    assert_eq!(truncate_chars("héllo", 5), "héllo");
    assert_eq!(truncate_chars("héllo", 2), format!("hé{TRUNCATION_NOTE}"));
    assert_eq!(sanitize_file_stem("a/b c:d-e_f"), "a_b_c_d-e_f");
    assert_eq!(sanitize_file_stem(""), "rollout");
    assert_eq!(sanitize_file_stem("é"), "_");
    assert_eq!(report_file_stem(Some("t:1"), Some("x")), "t_1");
    assert_eq!(report_file_stem(None, Some("rollout-2024.jsonl")), "rollout-2024_jsonl");
    assert_eq!(report_file_stem(None, None), "rollout");
}

#[test]
fn mailbox_action_lines() {
    let send = AgentMailboxAction {
        id: "send-1".to_string(),
        status: AgentMailboxActionStatus::InProgress,
        action: AgentMailboxActionKind::Send {
            target: "/root/child".to_string(),
            recipient: None,
            category: AgentMailboxCategory::ActionRequired,
            preview: Some("please look".to_string()),
        },
    };
    assert_eq!(agent_mailbox_action_title(&send), "Sending mailbox message");
    assert_eq!(
        agent_mailbox_action_lines(&send),
        vec![
            vec![span(SpanStyle::Dim, "• "), span(SpanStyle::Bold, "Sending mailbox message")],
            vec![
                span(SpanStyle::Dim, "  └ "),
                span(SpanStyle::Dim, "Target: "),
                span(SpanStyle::Plain, "/root/child"),
            ],
            vec![
                span(SpanStyle::Plain, "    "),
                span(SpanStyle::Dim, "Category: "),
                span(SpanStyle::Plain, "action required"),
            ],
            vec![
                span(SpanStyle::Plain, "    "),
                span(SpanStyle::Dim, "Preview: "),
                span(SpanStyle::Plain, "please look"),
            ],
        ]
    );

    let read = AgentMailboxAction {
        id: "read-1".to_string(),
        status: AgentMailboxActionStatus::Succeeded,
        action: AgentMailboxActionKind::Read {
            sender: Some("/root/a".to_string()),
            category: Some(AgentMailboxCategory::Progress),
            limit: 2,
            messages: vec![
                AgentMailboxMessagePreview {
                    sender: "/root/a".to_string(),
                    category: AgentMailboxCategory::Progress,
                    content: AgentMailboxMessagePreviewContent::Encrypted,
                },
                AgentMailboxMessagePreview {
                    sender: "/root/a".to_string(),
                    category: AgentMailboxCategory::Progress,
                    content: AgentMailboxMessagePreviewContent::Plaintext { preview: None },
                },
            ],
        },
    };
    assert_eq!(agent_mailbox_action_title(&read), "Read 2 mailbox messages");
    let details = agent_mailbox_action_details(&read);
    assert_eq!(details.len(), 5);
    assert_eq!(details[2], vec![span(SpanStyle::Dim, "Limit: "), span(SpanStyle::Plain, "2")]);
    assert_eq!(
        details[3],
        vec![
            span(SpanStyle::Dim, "/root/a · progress: "),
            span(SpanStyle::Plain, "<encrypted message>"),
        ]
    );
    assert_eq!(details[4][1], span(SpanStyle::Plain, "<empty message>"));
    assert_eq!(
        agent_mailbox_message_line(&AgentMailboxMessagePreview {
            sender: "s".to_string(),
            category: AgentMailboxCategory::Result,
            content: AgentMailboxMessagePreviewContent::Plaintext { preview: Some("p".to_string()) },
        }),
        vec![span(SpanStyle::Dim, "s · result: "), span(SpanStyle::Plain, "p")]
    );
    assert_eq!(category_name(AgentMailboxCategory::Progress), "progress");

    let failed = AgentMailboxAction {
        id: "read-2".to_string(),
        status: AgentMailboxActionStatus::Failed,
        action: AgentMailboxActionKind::Read {
            sender: None,
            category: None,
            limit: 5,
            messages: Vec::new(),
        },
    };
    assert_eq!(agent_mailbox_action_title(&failed), "Failed to read agent mailbox");
    assert_eq!(agent_mailbox_action_details(&failed).len(), 1);
}

fn snapshot(total: i64, revision: i64) -> AgentMailboxUnreadSnapshot {
    AgentMailboxUnreadSnapshot { total, progress: total, result: 0, action_required: 0, revision }
}

#[test]
fn mailbox_status_ignores_stale_updates() {
    let mut current = None;
    assert!(apply_mailbox_update(&mut current, true, true, snapshot(2, 5)));
    assert_eq!(current, Some(snapshot(2, 5)));
    assert!(!apply_mailbox_update(&mut current, true, true, snapshot(9, 4)));
    assert_eq!(current, Some(snapshot(2, 5)));
    assert!(!apply_mailbox_update(&mut current, false, true, snapshot(0, 9)));
    assert_eq!(current, Some(snapshot(2, 5)));
    assert!(apply_mailbox_update(&mut current, true, true, snapshot(0, 6)));
    assert_eq!(current, Some(snapshot(0, 6)));
    assert!(apply_mailbox_update(&mut current, true, false, snapshot(3, 7)));
    assert_eq!(current, None);
}

#[test]
fn turn_item_lifecycle_policies() {
    let plan = TurnItemKind::Plan.lifecycle_policy();
    assert_eq!(plan.completed_item_persistence(), CompletedItemPersistence::AllHistoryModes);
    assert_eq!(plan.materialized_item_handling(), MaterializedItemHandling::CanonicalLifecycle);
    let agent = TurnItemKind::AgentMessage.lifecycle_policy();
    assert_eq!(agent.completed_item_persistence(), CompletedItemPersistence::PaginatedOnly);
    assert_eq!(
        agent.materialized_item_handling(),
        MaterializedItemHandling::CompatibilityProjection
    );
    let sleep = TurnItemKind::Extension(ExtensionItemKind::Sleep).lifecycle_policy();
    assert!(sleep.completed_item_persistence().includes(ThreadHistoryMode::Legacy));
    let search = TurnItemKind::Extension(ExtensionItemKind::WebSearch).lifecycle_policy();
    assert!(!search.completed_item_persistence().includes(ThreadHistoryMode::Legacy));
    assert!(search.completed_item_persistence().includes(ThreadHistoryMode::Paginated));
    assert_eq!(search.materialized_item_handling(), MaterializedItemHandling::CanonicalLifecycle);
    assert_eq!(
        TurnItemKind::SkillLoad.lifecycle_policy().materialized_item_handling(),
        MaterializedItemHandling::CanonicalLifecycle
    );
}

#[test]
fn memory_mutation_rows() {
    let mutation = MemoryMutation {
        action: MemoryMutationAction::Write,
        status: MemoryMutationStatus::Succeeded,
        scope: MemoryMutationScope::Project,
        title: Some("Repository conventions".to_string()),
        path: None,
        preview: Some("Run focused tests remotely.".to_string()),
    };
    assert_eq!(
        memory_mutation_lines(&mutation),
        vec![
            vec![span(SpanStyle::Dim, "• "), span(SpanStyle::Bold, "Wrote memory")],
            vec![
                span(SpanStyle::Dim, "  └ "),
                span(SpanStyle::Dim, "Scope: "),
                span(SpanStyle::Plain, "project"),
            ],
            vec![
                span(SpanStyle::Plain, "    "),
                span(SpanStyle::Dim, "Title: "),
                span(SpanStyle::Plain, "Repository conventions"),
            ],
            vec![
                span(SpanStyle::Plain, "    "),
                span(SpanStyle::Dim, "Preview: "),
                span(SpanStyle::Plain, "Run focused tests remotely."),
            ],
        ]
    );
}

#[test]
fn latest_compaction_record_wins() {
    let lines = vec![None, Some("first summary"), None, Some("latest summary"), None];
    assert_eq!(latest_compaction(lines), Ok((4, "latest summary")));
    assert_eq!(
        latest_compaction(vec![None::<&str>, None]),
        Err(CompactInspectError::NoCompaction)
    );
    assert_eq!(
        CompactInspectError::NoCompaction.message(),
        "No compaction records found in the current rollout."
    );
    assert_eq!(
        CompactInspectError::Read("denied".to_string()).message(),
        "Failed to read rollout file: denied"
    );
}

#[test]
fn compaction_summary_text() {
    let summary = render_compaction_summary(
        "/tmp/rollout.jsonl",
        7,
        "summary only",
        None,
        "/tmp/codex-compact-inspect/t-latest.json",
    );
    assert_eq!(
        summary,
        "Latest compaction result\n\
         Kind: installed replacement history / post-processed compaction result\n\
         Note: This is the rollout-persisted result, not necessarily the raw remote compaction response.\n\
         Rollout: /tmp/rollout.jsonl\n\
         Line: 7\n\
         Message: summary only\n\
         Replacement history items: 0\n\
         Full JSON: /tmp/codex-compact-inspect/t-latest.json\n\
         Preview:\n\
         replacement_history is not present in this compaction record."
    );
    let long = "x".repeat(1300);
    let with_history = render_compaction_summary("r", 1, "m", Some((3, &long)), "o");
    assert!(with_history.contains("Replacement history items: 3\n"));
    assert!(with_history.ends_with(&format!("{}{}", "x".repeat(1200), TRUNCATION_NOTE)));
}

#[test]
fn spill_file_names_are_fresh_uuids() {
    let a = codex_policy::hooks::spill::spill_file_name();
    let b = codex_policy::hooks::spill::spill_file_name();
    assert!(a.ends_with(".txt"));
    assert_eq!(a.len(), 40);
    assert_ne!(a, b);
    assert!(codex_policy::ids::ThreadId::from_string(&a[..36]).is_some());
    for name in [&a, &b] {
        let chars: Vec<char> = name.chars().collect();
        assert_eq!(chars[14], '4');
        assert!(matches!(chars[19], '8' | '9' | 'a' | 'b'));
        assert_eq!([chars[8], chars[13], chars[18], chars[23]], ['-'; 4]);
    }
}
