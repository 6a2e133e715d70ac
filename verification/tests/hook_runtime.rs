use codex_policy::hooks::command::{
    arrange_async_entries, build_command, command_completion, CollectedOutput, CommandOutcome,
    CommandShell, ProcessResult,
};
use codex_policy::hooks::filter::{
    command_timeout_error, filter_timeout_error, prompt_filter_of, prompt_filter_outcome,
    PromptFilterDecision, PromptFilterFailure, PromptFilterOutcome, PromptFilterOutput,
    FILTER_OUTPUT_LIMIT,
};
use codex_policy::hooks::handler::{
    max_permission_request_timeout, ConfiguredHandler, ConfiguredHandlerKind,
    ConfiguredPromptFilter, HookExecutionMode, HookSource,
};
use codex_policy::hooks::outcome::{HookOutputEntry, HookOutputEntryKind};
use codex_policy::hooks::spill::{
    approx_token_count, bounded_formatted_preview, needs_spill, spilled_output_footer,
    truncate_to_approx_token_limit, AdditionalContextLimit, DEFAULT_HOOK_OUTPUT_TOKEN_LIMIT,
};
use codex_policy::hooks::HookEventName;

fn pairs(items: &[(&str, &str)]) -> Vec<(String, String)> {
    items.iter().map(|(k, v)| (k.to_string(), v.to_string())).collect()
}

#[test]
fn command_uses_configured_or_login_shell_and_merged_environment() {
    let shell = CommandShell { program: String::new(), args: Vec::new() };
    let environment = pairs(&[("SHELL", "/bin/zsh"), ("PATH", "/usr/bin"), ("HOME", "/home/u")]);
    let env = pairs(&[("PATH", "/opt/bin"), ("HOOK", "1")]);
    let plan = build_command(&shell, "echo hi", &environment, &env);
    assert_eq!(plan.program, "/bin/zsh");
    assert_eq!(plan.args, vec!["-lc".to_string(), "echo hi".to_string()]);
    let lookup = |name: &str| {
        plan.env.iter().filter(|(k, _)| k == name).map(|(_, v)| v.clone()).collect::<Vec<_>>()
    };
    assert_eq!(lookup("PATH"), vec!["/opt/bin".to_string()]);
    assert_eq!(lookup("HOOK"), vec!["1".to_string()]);
    assert_eq!(lookup("HOME"), vec!["/home/u".to_string()]);
    assert_eq!(plan.env.len(), 4);

    let no_shell = build_command(&shell, "true", &Vec::new(), &Vec::new());
    assert_eq!(no_shell.program, "/bin/sh");

    let configured = CommandShell { program: "sh".to_string(), args: vec!["-c".to_string()] };
    let plan = build_command(&configured, "exit 3", &environment, &Vec::new());
    assert_eq!(plan.program, "sh");
    assert_eq!(plan.args, vec!["-c".to_string(), "exit 3".to_string()]);
}

#[test]
fn collected_output_keeps_the_prefix_within_the_limit() {
    let mut out = CollectedOutput::new();
    out.push_chunk(b"hello ", Some(8));
    out.push_chunk(b"world", Some(8));
    out.push_chunk(b"!", Some(8));
    out.finish(Some(8));
    assert_eq!(out.bytes, b"hello wo".to_vec());
    assert_eq!(out.total_len, 12);
    assert!(out.exceeded);

    let mut unlimited = CollectedOutput::new();
    unlimited.push_chunk(b"abc", None);
    unlimited.push_chunk(b"def", None);
    unlimited.finish(None);
    assert_eq!(unlimited.bytes, b"abcdef".to_vec());
    assert!(!unlimited.exceeded);
}

fn exited(code: Option<i32>, stdout: &[u8], stderr: &[u8], limit: Option<usize>) -> ProcessResult {
    let mut out = CollectedOutput::new();
    out.push_chunk(stdout, limit);
    out.finish(limit);
    let mut err = CollectedOutput::new();
    err.push_chunk(stderr, limit);
    err.finish(limit);
    ProcessResult::Exited { exit_code: code, stdout: out, stderr: err }
}

#[test]
fn command_completions() {
    let c = command_completion(exited(Some(0), b"ok\xff", b"", None), None, command_timeout_error(5));
    assert_eq!(c.exit_code, Some(0));
    assert_eq!(c.stdout, "ok\u{fffd}");
    assert_eq!(c.error, None);
    assert_eq!(c.outcome, CommandOutcome::Completed);

    let c = command_completion(exited(Some(0), b"0123456789", b"ab", Some(4)), Some(4), String::new());
    assert_eq!(c.stdout, "0123");
    assert_eq!(c.stdout_len, 10);
    assert_eq!(c.error.as_deref(), Some("hook output exceeded 4 bytes (stdout: 10, stderr: 2)"));
    assert_eq!(c.outcome, CommandOutcome::OutputLimit);
    assert_eq!(c.outcome.label(), "output_limit");

    let c = command_completion(ProcessResult::TimedOut, None, command_timeout_error(5));
    assert_eq!(c.error.as_deref(), Some("hook timed out after 5s"));
    assert_eq!(c.outcome, CommandOutcome::Timeout);
    assert_eq!(c.exit_code, None);

    let c = command_completion(ProcessResult::StdinFailed("broken pipe".to_string()), None, String::new());
    assert_eq!(c.error.as_deref(), Some("failed to write hook stdin: broken pipe"));
    let c = command_completion(ProcessResult::PipesUnavailable, None, String::new());
    assert_eq!(c.error.as_deref(), Some("hook output pipes are unavailable"));
    assert_eq!(c.outcome, CommandOutcome::PipeError);
    let c = command_completion(ProcessResult::SpawnFailed("no such file".to_string()), None, String::new());
    assert_eq!(c.outcome, CommandOutcome::SpawnError);
    assert_eq!(c.error.as_deref(), Some("no such file"));
}

fn entry(kind: HookOutputEntryKind, text: &str) -> HookOutputEntry {
    HookOutputEntry { kind, text: text.to_string() }
}

#[test]
fn async_entries_put_warnings_last_and_drop_control_effects() {
    let entries = vec![
        entry(HookOutputEntryKind::Warning, "w1"),
        entry(HookOutputEntryKind::Context, "c1"),
        entry(HookOutputEntryKind::Stop, "s"),
        entry(HookOutputEntryKind::Error, "e1"),
        entry(HookOutputEntryKind::Feedback, "f"),
        entry(HookOutputEntryKind::Warning, "w2"),
    ];
    assert_eq!(
        arrange_async_entries(entries),
        vec![
            entry(HookOutputEntryKind::Context, "c1"),
            entry(HookOutputEntryKind::Error, "e1"),
            entry(HookOutputEntryKind::Warning, "w1"),
            entry(HookOutputEntryKind::Warning, "w2"),
        ]
    );
}

fn completion_with(exit_code: Option<i32>, stdout: &str) -> codex_policy::hooks::command::CommandRunCompletion {
    command_completion(
        exited(exit_code, stdout.as_bytes(), b"", Some(FILTER_OUTPUT_LIMIT)),
        Some(FILTER_OUTPUT_LIMIT),
        filter_timeout_error(5),
    )
}

#[test]
fn prompt_filter_accepts_strict_run_and_skip_json() {
    let run = PromptFilterOutput { version: 1, decision: PromptFilterDecision::Run };
    let skip = PromptFilterOutput { version: 1, decision: PromptFilterDecision::Skip };
    assert_eq!(
        prompt_filter_outcome(&completion_with(Some(0), r#"{"version":1,"decision":"run"}"#), Some(run)),
        (PromptFilterOutcome::Run, None)
    );
    assert_eq!(
        prompt_filter_outcome(&completion_with(Some(0), r#"{"version":1,"decision":"skip"}"#), Some(skip)),
        (PromptFilterOutcome::Skip, None)
    );
}

#[test]
fn prompt_filter_falls_back_for_invalid_or_unsuccessful_output() {
    let skip = PromptFilterOutput { version: 1, decision: PromptFilterDecision::Skip };
    assert_eq!(
        prompt_filter_outcome(&completion_with(Some(0), "{\"version\":1,\"decision\":\"skip\"} trailing"), None),
        (PromptFilterOutcome::Run, Some(PromptFilterFailure::InvalidOutput))
    );
    assert_eq!(
        prompt_filter_outcome(&completion_with(Some(1), "{}"), Some(skip)),
        (PromptFilterOutcome::Run, Some(PromptFilterFailure::NonzeroExit))
    );
    assert_eq!(
        prompt_filter_outcome(&completion_with(Some(0), "  "), Some(skip)),
        (PromptFilterOutcome::Run, Some(PromptFilterFailure::EmptyOutput))
    );
    let v2 = PromptFilterOutput { version: 2, decision: PromptFilterDecision::Skip };
    assert_eq!(
        prompt_filter_outcome(&completion_with(Some(0), "{}"), Some(v2)),
        (PromptFilterOutcome::Run, Some(PromptFilterFailure::UnsupportedVersion))
    );
    assert_eq!(PromptFilterFailure::UnsupportedVersion.category(), "unsupported_version");
}

#[test]
fn prompt_filter_falls_back_for_timeout_and_unbounded_streams() {
    let skip = PromptFilterOutput { version: 1, decision: PromptFilterDecision::Skip };
    let timed_out = command_completion(ProcessResult::TimedOut, Some(FILTER_OUTPUT_LIMIT), filter_timeout_error(5));
    assert_eq!(timed_out.error.as_deref(), Some("prompt hook filter timed out after 5s"));
    assert_eq!(
        prompt_filter_outcome(&timed_out, Some(skip)),
        (PromptFilterOutcome::Run, Some(PromptFilterFailure::Command(CommandOutcome::Timeout)))
    );
    let flood = "x".repeat(FILTER_OUTPUT_LIMIT + 1);
    let flooded = completion_with(Some(0), &flood);
    assert_eq!(
        prompt_filter_outcome(&flooded, Some(skip)),
        (PromptFilterOutcome::Run, Some(PromptFilterFailure::Command(CommandOutcome::OutputLimit)))
    );
    assert_eq!(PromptFilterFailure::Command(CommandOutcome::Timeout).category(), "timeout");
}

fn handler(kind: ConfiguredHandlerKind, event_name: HookEventName) -> ConfiguredHandler {
    ConfiguredHandler {
        event_name,
        matcher: None,
        kind,
        status_message: None,
        additional_context_limit: DEFAULT_HOOK_OUTPUT_TOKEN_LIMIT,
        source_path: "/tmp/hooks.json".to_string(),
        source: HookSource::Project,
        display_order: 3,
        env: Vec::new(),
    }
}

#[test]
fn handler_run_ids_modes_and_filters() {
    let filter = ConfiguredPromptFilter { command: "echo f".to_string(), timeout_sec: 2 };
    let prompt = handler(
        ConfiguredHandlerKind::Prompt {
            prompt: "p".to_string(),
            filter: Some(filter.clone()),
            model: None,
            reasoning_effort: None,
            timeout_sec: 40,
            fail_closed: false,
        },
        HookEventName::PermissionRequest,
    );
    assert_eq!(prompt_filter_of(&prompt), Some(&filter));
    let background = handler(
        ConfiguredHandlerKind::Command { command: "x".to_string(), timeout_sec: 90, run_async: true },
        HookEventName::PermissionRequest,
    );
    assert_eq!(prompt_filter_of(&background), None);
    assert_eq!(background.execution_mode(), HookExecutionMode::Async);
    assert!(!background.can_apply_control_effects());
    assert_eq!(prompt.execution_mode(), HookExecutionMode::Sync);
    assert!(prompt.can_apply_control_effects());
    assert_eq!(prompt.run_id(), "permission-request:3:/tmp/hooks.json");
    assert_eq!(prompt.event_name_label(), "permission-request");
    let sync_command = handler(
        ConfiguredHandlerKind::Command { command: "y".to_string(), timeout_sec: 70, run_async: false },
        HookEventName::PermissionRequest,
    );
    let other_event = handler(
        ConfiguredHandlerKind::Command { command: "z".to_string(), timeout_sec: 500, run_async: false },
        HookEventName::PreToolUse,
    );
    assert_eq!(
        max_permission_request_timeout(&[prompt.clone(), background, sync_command, other_event]),
        70
    );
    assert_eq!(max_permission_request_timeout(&[]), 0);
}

#[test]
fn spill_decisions_and_truncation() {
    assert_eq!(AdditionalContextLimit::default().token_limit, DEFAULT_HOOK_OUTPUT_TOKEN_LIMIT);
    assert_eq!(AdditionalContextLimit::from_config(Some(0)).token_limit, 0);
    assert_eq!(approx_token_count("abcde"), 2);
    assert_eq!(approx_token_count("é"), 1);
    let limit = AdditionalContextLimit::from_config(Some(2));
    assert!(!needs_spill("12345678", limit));
    assert!(needs_spill("123456789", limit));
    assert!(!needs_spill(&"x".repeat(100_000), AdditionalContextLimit::from_config(Some(0))));
    assert_eq!(truncate_to_approx_token_limit("héllo wörld", 2), "héllo w");
    assert_eq!(truncate_to_approx_token_limit("short", 10), "short");
    assert_eq!(truncate_to_approx_token_limit("abc", 0), "");
    assert_eq!(spilled_output_footer("/tmp/x.txt"), "\n\nFull hook output saved to: /tmp/x.txt");
}

#[test]
fn bounded_preview_fits_the_budget() {
    let text = "a".repeat(1000);
    let suffix = spilled_output_footer("/tmp/out.txt");
    let truncate = |tokens: usize| truncate_to_approx_token_limit(&text, tokens);
    let preview = bounded_formatted_preview(&suffix, 50, &truncate);
    assert!(approx_token_count(&preview) <= 50);
    assert!(preview.ends_with(&suffix));
    assert!(preview.starts_with("aaaa"));
    // Only the longest fitting cut is chosen: one more token does not fit.
    let body = preview.len() - suffix.len();
    let mut longer = truncate(body / 4 + 1);
    longer.push_str(&suffix);
    assert!(approx_token_count(&longer) > 50);

    let tiny = bounded_formatted_preview(&suffix, 3, &truncate);
    assert_eq!(tiny, suffix.trim_start());
}

#[test]
fn bounded_preview_keeps_the_largest_body_that_fits() {
    let truncate = |tokens: usize| "a".repeat(4 * tokens);
    assert_eq!(bounded_formatted_preview("", 10, &truncate), "a".repeat(40));
    assert_eq!(bounded_formatted_preview("ab", 10, &truncate), format!("{}ab", "a".repeat(36)));
}
