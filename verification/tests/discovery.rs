use codex_policy::hooks::discovery::{
    append_prompt_handler, normalize_prompt_filter, normalize_prompt_handler,
    register_prompt_handler, NormalizedPromptHandler,
    substitute_filter_command, HookHandlerSource, HookListEntry, HookTrustStatus,
    PromptHookFilterConfig,
};
use codex_policy::hooks::handler::{
    ConfiguredHandler, ConfiguredHandlerKind, ConfiguredPromptFilter, HookListEntryHandler,
    HookSource, ReasoningEffort,
};
use codex_policy::hooks::{hook_key, HookEventName};

/// A prompt handler as configuration files give it.
struct PromptConfig {
    prompt: String,
    filter: Option<PromptHookFilterConfig>,
    model: Option<String>,
    reasoning_effort: Option<ReasoningEffort>,
    timeout_sec: Option<u64>,
    status_message: Option<String>,
    fail_closed: bool,
}

fn source() -> HookHandlerSource {
    HookHandlerSource {
        path: "/tmp/hooks.json".to_string(),
        key_source: "/tmp/hooks.json".to_string(),
        source: HookSource::System,
        is_managed: true,
        bypass_hook_trust: false,
        env: Vec::new(),
        plugin_id: None,
    }
}

struct Discovered {
    handlers: Vec<ConfiguredHandler>,
    hook_entries: Vec<HookListEntry>,
    warnings: Vec<String>,
    display_order: i64,
}

fn discovered() -> Discovered {
    Discovered { handlers: Vec::new(), hook_entries: Vec::new(), warnings: Vec::new(), display_order: 0 }
}

/// Validates each configured prompt handler of one matcher group and
/// registers the valid ones, as discovery does for managed sources.
fn append_group(
    out: &mut Discovered,
    source: &HookHandlerSource,
    event_name: HookEventName,
    group_index: usize,
    matcher: Option<&str>,
    hooks: Vec<PromptConfig>,
    windows: bool,
) {
    for (handler_index, config) in hooks.into_iter().enumerate() {
        append_prompt_handler(
            &mut out.handlers,
            &mut out.hook_entries,
            &mut out.warnings,
            &mut out.display_order,
            source,
            event_name,
            group_index,
            handler_index,
            matcher.map(str::to_string),
            config.prompt,
            config.filter,
            config.model,
            config.reasoning_effort,
            config.timeout_sec,
            config.status_message,
            config.fail_closed,
            windows,
            &stand_in_hash,
            &|_: &String, _: &String| (true, HookTrustStatus::Managed),
        );
    }
}

/// A stand-in for the hook hash: a text that differs whenever the event,
/// the matcher or the normalized definition differs.
fn stand_in_hash(event_name: HookEventName, matcher: &Option<String>, handler: &NormalizedPromptHandler) -> String {
    format!("{event_name:?}|{matcher:?}|{handler:?}")
}

fn prompt_handler(fail_closed: bool) -> PromptConfig {
    PromptConfig {
        prompt: "Review $$ARGUMENTS".to_string(),
        filter: None,
        model: Some("gpt-test".to_string()),
        reasoning_effort: Some(ReasoningEffort::High),
        timeout_sec: None,
        status_message: Some("Reviewing tool use".to_string()),
        fail_closed,
    }
}

fn prompt_handler_with_filter(filter: PromptHookFilterConfig) -> PromptConfig {
    PromptConfig {
        prompt: "Review $$ARGUMENTS".to_string(),
        filter: Some(filter),
        model: None,
        reasoning_effort: None,
        timeout_sec: None,
        status_message: None,
        fail_closed: false,
    }
}

fn bare(prompt: String) -> PromptConfig {
    PromptConfig {
        prompt,
        filter: None,
        model: None,
        reasoning_effort: None,
        timeout_sec: None,
        status_message: None,
        fail_closed: false,
    }
}

#[test]
fn supported_prompt_hooks_enter_runtime_and_list_metadata() {
    let mut out = discovered();
    for event_name in [
        HookEventName::PreToolUse,
        HookEventName::PermissionRequest,
        HookEventName::PreCompact,
        HookEventName::SessionStart,
        HookEventName::UserPromptSubmit,
        HookEventName::SubagentStart,
    ] {
        append_group(&mut out, &source(), event_name, 0, Some("^Bash$"), vec![prompt_handler(true)], false);
    }
    assert_eq!(out.warnings, Vec::<String>::new());
    assert_eq!(out.handlers.len(), 6);
    assert_eq!(out.hook_entries.len(), 6);
    for (handler, hook_entry) in out.handlers.iter().zip(&out.hook_entries) {
        assert_eq!(handler.event_name, hook_entry.event_name);
        assert_eq!(
            handler.kind,
            ConfiguredHandlerKind::Prompt {
                prompt: "Review $$ARGUMENTS".to_string(),
                filter: None,
                model: Some("gpt-test".to_string()),
                reasoning_effort: Some(ReasoningEffort::High),
                timeout_sec: 30,
                fail_closed: true,
            }
        );
        assert_eq!(hook_entry.handler, HookListEntryHandler::Prompt);
        assert_eq!(hook_entry.prompt.as_deref(), Some("Review $$ARGUMENTS"));
        assert_eq!(hook_entry.model.as_deref(), Some("gpt-test"));
        assert_eq!(hook_entry.reasoning_effort, Some(ReasoningEffort::High));
        assert_eq!(hook_entry.timeout_sec, 30);
        assert_eq!(hook_entry.fail_closed, Some(true));
        assert_eq!(hook_entry.trust_status, HookTrustStatus::Managed);
    }
    assert_ne!(out.hook_entries[0].current_hash, out.hook_entries[1].current_hash);
    assert_ne!(out.hook_entries[1].current_hash, out.hook_entries[2].current_hash);
}

#[test]
fn prompt_reasoning_effort_changes_normalized_hook_hash() {
    let mut out = discovered();
    let mut low_effort = prompt_handler(false);
    low_effort.reasoning_effort = Some(ReasoningEffort::Low);
    append_group(&mut out, &source(), HookEventName::PreToolUse, 0, None, vec![prompt_handler(false)], false);
    append_group(&mut out, &source(), HookEventName::PreToolUse, 1, None, vec![low_effort], false);
    assert_eq!(out.warnings, Vec::<String>::new());
    assert_ne!(out.hook_entries[0].current_hash, out.hook_entries[1].current_hash);
}

#[test]
fn prompt_filter_normalization_uses_default_timeout_and_hashes_normalized_values() {
    let mut out = discovered();
    let filter = |command: &str, timeout_sec: Option<u64>| {
        prompt_handler_with_filter(PromptHookFilterConfig {
            command: command.to_string(),
            command_windows: None,
            timeout_sec,
        })
    };
    append_group(
        &mut out,
        &source(),
        HookEventName::PreToolUse,
        0,
        None,
        vec![
            filter("echo filter", None),
            filter("echo filter", Some(5)),
            filter("echo another-filter", Some(5)),
            filter("echo filter", Some(6)),
        ],
        false,
    );
    assert_eq!(out.warnings, Vec::<String>::new());
    assert_eq!(out.handlers.len(), 4);
    assert_eq!(out.hook_entries.len(), 4);
    for handler in &out.handlers[..2] {
        assert_eq!(
            handler.kind,
            ConfiguredHandlerKind::Prompt {
                prompt: "Review $$ARGUMENTS".to_string(),
                filter: Some(ConfiguredPromptFilter {
                    command: "echo filter".to_string(),
                    timeout_sec: 5,
                }),
                model: None,
                reasoning_effort: None,
                timeout_sec: 30,
                fail_closed: false,
            }
        );
    }
    assert_eq!(out.hook_entries[0].current_hash, out.hook_entries[1].current_hash);
    assert_ne!(out.hook_entries[0].current_hash, out.hook_entries[2].current_hash);
    assert_ne!(out.hook_entries[0].current_hash, out.hook_entries[3].current_hash);
}

#[test]
fn invalid_prompt_filter_timeout_skips_only_that_handler() {
    let mut out = discovered();
    append_group(
        &mut out,
        &source(),
        HookEventName::PreToolUse,
        0,
        None,
        vec![
            prompt_handler_with_filter(PromptHookFilterConfig {
                command: "echo invalid".to_string(),
                command_windows: None,
                timeout_sec: Some(61),
            }),
            prompt_handler_with_filter(PromptHookFilterConfig {
                command: "echo valid".to_string(),
                command_windows: None,
                timeout_sec: Some(1),
            }),
        ],
        false,
    );
    assert_eq!(out.handlers.len(), 1);
    assert_eq!(out.hook_entries.len(), 1);
    assert_eq!(
        out.handlers[0].kind,
        ConfiguredHandlerKind::Prompt {
            prompt: "Review $$ARGUMENTS".to_string(),
            filter: Some(ConfiguredPromptFilter { command: "echo valid".to_string(), timeout_sec: 1 }),
            model: None,
            reasoning_effort: None,
            timeout_sec: 30,
            fail_closed: false,
        }
    );
    assert_eq!(
        out.warnings,
        vec!["skipping prompt hook with invalid filter timeout in /tmp/hooks.json".to_string()]
    );
}

#[test]
fn prompt_filter_uses_platform_command_override() {
    for windows in [false, true] {
        let mut out = discovered();
        append_group(
            &mut out,
            &source(),
            HookEventName::PreToolUse,
            0,
            None,
            vec![prompt_handler_with_filter(PromptHookFilterConfig {
                command: "echo unix".to_string(),
                command_windows: Some("echo windows".to_string()),
                timeout_sec: None,
            })],
            windows,
        );
        assert_eq!(out.warnings, Vec::<String>::new());
        let ConfiguredHandlerKind::Prompt { filter: Some(filter), .. } = &out.handlers[0].kind else {
            panic!("prompt filter handler")
        };
        assert_eq!(filter.command, if windows { "echo windows" } else { "echo unix" });
        assert_eq!(filter.timeout_sec, 5);
    }
}

#[test]
fn invalid_prompt_handlers_are_skipped_without_dropping_valid_siblings() {
    let mut out = discovered();
    let oversized_prompt = "é".repeat(8 * 1024 + 1);
    let mut bad_model = bare("Review $$ARGUMENTS".to_string());
    bad_model.model = Some(" gpt-test".to_string());
    let mut bad_timeout = bare("Review $$ARGUMENTS".to_string());
    bad_timeout.timeout_sec = Some(601);
    let valid = PromptConfig {
        prompt: "Review $$ARGUMENTS".to_string(),
        filter: None,
        model: Some("gpt-test".to_string()),
        reasoning_effort: Some(ReasoningEffort::High),
        timeout_sec: Some(1),
        status_message: Some("  ".to_string()),
        fail_closed: true,
    };
    append_group(
        &mut out,
        &source(),
        HookEventName::PreToolUse,
        0,
        None,
        vec![bare(String::new()), bare(oversized_prompt), bad_model, bad_timeout, valid],
        false,
    );

    assert_eq!(out.warnings.len(), 4);
    assert_eq!(out.handlers.len(), 1);
    assert_eq!(out.handlers[0].display_order, 0);
    assert_eq!(
        out.handlers[0].kind,
        ConfiguredHandlerKind::Prompt {
            prompt: "Review $$ARGUMENTS".to_string(),
            filter: None,
            model: Some("gpt-test".to_string()),
            reasoning_effort: Some(ReasoningEffort::High),
            timeout_sec: 1,
            fail_closed: true,
        }
    );
    assert_eq!(out.handlers[0].status_message, None);
    assert_eq!(out.hook_entries.len(), 1);
    assert_eq!(out.hook_entries[0].display_order, 0);
    assert_eq!(out.hook_entries[0].prompt.as_deref(), Some("Review $$ARGUMENTS"));
    assert_eq!(out.hook_entries[0].model.as_deref(), Some("gpt-test"));
    assert_eq!(out.hook_entries[0].reasoning_effort, Some(ReasoningEffort::High));
    assert_eq!(out.hook_entries[0].status_message, None);
    assert_eq!(out.hook_entries[0].timeout_sec, 1);
    assert_eq!(out.hook_entries[0].fail_closed, Some(true));
    assert_eq!(
        out.warnings,
        vec![
            "skipping invalid hook prompt in /tmp/hooks.json".to_string(),
            "skipping invalid hook prompt in /tmp/hooks.json".to_string(),
            "skipping invalid prompt hook model in /tmp/hooks.json".to_string(),
            "skipping invalid prompt hook timeout in /tmp/hooks.json".to_string(),
        ]
    );
}

#[test]
fn unsupported_events_skip_each_prompt_handler_without_lifecycle_or_metadata() {
    let mut out = discovered();
    for event_name in [
        HookEventName::PostToolUse,
        HookEventName::PostCompact,
        HookEventName::SubagentStop,
        HookEventName::Stop,
    ] {
        append_group(
            &mut out,
            &source(),
            event_name,
            0,
            None,
            vec![prompt_handler(false), prompt_handler(true)],
            false,
        );
    }
    assert!(out.handlers.is_empty());
    assert!(out.hook_entries.is_empty());
    assert_eq!(out.display_order, 0);
    let mut expected = Vec::new();
    for event_name in ["PostToolUse", "PostCompact", "SubagentStop", "Stop"] {
        for _ in 0..2 {
            expected.push(format!(
                "skipping prompt hook in /tmp/hooks.json: prompt hooks are not supported for {event_name}"
            ));
        }
    }
    assert_eq!(out.warnings, expected);
}

#[test]
fn untrusted_handlers_are_listed_but_not_registered() {
    let mut unmanaged = source();
    unmanaged.is_managed = false;
    unmanaged.env = vec![("ROOT".to_string(), "/repo".to_string())];
    let mut out = discovered();
    let normalized = normalize_prompt_handler(
        HookEventName::PreToolUse,
        "Review".to_string(),
        Some(PromptHookFilterConfig {
            command: "${ROOT}/filter ${ROOT}".to_string(),
            command_windows: None,
            timeout_sec: None,
        }),
        None,
        None,
        None,
        None,
        false,
        false,
        "/tmp/hooks.json",
    )
    .expect("valid");
    register_prompt_handler(
        &mut out.handlers,
        &mut out.hook_entries,
        &mut out.display_order,
        &unmanaged,
        HookEventName::PreToolUse,
        Some("^Bash$".to_string()),
        "k".to_string(),
        normalized,
        true,
        HookTrustStatus::Untrusted,
        "h".to_string(),
    );
    assert!(out.handlers.is_empty());
    assert_eq!(out.hook_entries.len(), 1);
    assert_eq!(out.hook_entries[0].trust_status, HookTrustStatus::Untrusted);
    assert_eq!(out.hook_entries[0].matcher.as_deref(), Some("^Bash$"));
    assert_eq!(
        out.hook_entries[0].filter,
        Some(PromptHookFilterConfig {
            command: "/repo/filter /repo".to_string(),
            command_windows: None,
            timeout_sec: Some(5),
        })
    );
    assert_eq!(out.display_order, 1);
}

#[test]
fn filter_normalization_and_substitution() {
    assert_eq!(
        normalize_prompt_filter(
            PromptHookFilterConfig { command: "  ".to_string(), command_windows: None, timeout_sec: None },
            false,
            "p",
        ),
        Err("skipping prompt hook with empty filter command in p".to_string())
    );
    assert_eq!(
        normalize_prompt_filter(
            PromptHookFilterConfig { command: "x".to_string(), command_windows: None, timeout_sec: Some(60) },
            true,
            "p",
        ),
        Ok(ConfiguredPromptFilter { command: "x".to_string(), timeout_sec: 60 })
    );
    assert_eq!(
        substitute_filter_command(
            "${A}-${B}-${A}".to_string(),
            &vec![("A".to_string(), "1".to_string()), ("B".to_string(), "2".to_string())]
        ),
        "1-2-1"
    );
}

#[test]
fn appended_handler_keeps_matcher_source_and_environment() {
    let mut out = discovered();
    let mut source = source();
    source.env = vec![("ROOT".to_string(), "/repo".to_string())];
    source.plugin_id = Some("plugin".to_string());
    let accepted = append_prompt_handler(
        &mut out.handlers,
        &mut out.hook_entries,
        &mut out.warnings,
        &mut out.display_order,
        &source,
        HookEventName::PreToolUse,
        2,
        3,
        Some("^Bash$".to_string()),
        "Review".to_string(),
        None,
        None,
        None,
        None,
        None,
        false,
        false,
        &|_: HookEventName, _: &Option<String>, n: &NormalizedPromptHandler| {
            format!("hash-of-{}", n.prompt)
        },
        &|key: &String, hash: &String| {
            assert_eq!(key, "/tmp/hooks.json:pre_tool_use:2:3");
            assert_eq!(hash, "hash-of-Review");
            (true, HookTrustStatus::Managed)
        },
    );
    assert!(accepted);
    assert!(out.warnings.is_empty());
    assert_eq!(out.handlers.len(), 1);
    let handler = &out.handlers[0];
    assert_eq!(handler.matcher.as_deref(), Some("^Bash$"));
    assert_eq!(handler.source_path, "/tmp/hooks.json");
    assert_eq!(handler.source, HookSource::System);
    assert_eq!(handler.env, vec![("ROOT".to_string(), "/repo".to_string())]);
    let entry = &out.hook_entries[0];
    assert_eq!(entry.key, "/tmp/hooks.json:pre_tool_use:2:3");
    assert_eq!(entry.current_hash, "hash-of-Review");
    assert_eq!(entry.matcher.as_deref(), Some("^Bash$"));
    assert_eq!(entry.plugin_id.as_deref(), Some("plugin"));
    assert_eq!(entry.additional_context_limit, None);

    let refused = append_prompt_handler(
        &mut out.handlers,
        &mut out.hook_entries,
        &mut out.warnings,
        &mut out.display_order,
        &source,
        HookEventName::PreToolUse,
        2,
        4,
        None,
        "   ".to_string(),
        None,
        None,
        None,
        None,
        None,
        false,
        false,
        &|_: HookEventName, _: &Option<String>, _: &NormalizedPromptHandler| "h".to_string(),
        &|_: &String, _: &String| (true, HookTrustStatus::Managed),
    );
    assert!(!refused);
    assert_eq!(out.warnings, vec!["skipping invalid hook prompt in /tmp/hooks.json".to_string()]);
    assert_eq!(out.handlers.len(), 1);
    assert_eq!(out.display_order, 1);
}
