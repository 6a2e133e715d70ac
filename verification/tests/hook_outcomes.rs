use codex_policy::hooks::handler::{
    ConfiguredHandler, ConfiguredHandlerKind, HookSource, ReasoningEffort,
};
use codex_policy::hooks::outcome::{
    classify_completion, output_looks_like_json, parse_approval_review_route_completed,
    parse_permission_request_completed, resolve_approval_review_route_decision,
    resolve_permission_request_decision, ApprovalReviewRouteDecision,
    ApprovalReviewRouteHandlerData, HookOutputEntryKind, HookRunOutput, HookRunStatus,
    ParsedHookOutput, PermissionRequestDecision, EMPTY_PROMPT_OUTPUT_ERROR,
};
use codex_policy::hooks::HookEventName;

const RUNTIME_FAILURE: &str = "model request failed";
const TIMEOUT_FAILURE: &str = "prompt hook timed out after 30s";

fn handler(event_name: HookEventName, kind: ConfiguredHandlerKind) -> ConfiguredHandler {
    ConfiguredHandler {
        event_name,
        matcher: Some("^Bash$".to_string()),
        kind,
        status_message: None,
        additional_context_limit: 2500,
        source_path: "/tmp/hooks.json".to_string(),
        source: HookSource::User,
        display_order: 0,
        env: Vec::new(),
    }
}

fn prompt_kind(fail_closed: bool) -> ConfiguredHandlerKind {
    ConfiguredHandlerKind::Prompt {
        prompt: "Review $$ARGUMENTS".to_string(),
        filter: None,
        model: None,
        reasoning_effort: None,
        timeout_sec: 30,
        fail_closed,
    }
}

fn command_kind() -> ConfiguredHandlerKind {
    ConfiguredHandlerKind::Command {
        command: "echo hook".to_string(),
        timeout_sec: 5,
        run_async: false,
    }
}

fn failed_run(error: &str) -> HookRunOutput {
    HookRunOutput { exit_code: None, stdout: String::new(), error: Some(error.to_string()) }
}

fn run_result(exit_code: Option<i32>, stdout: &str) -> HookRunOutput {
    HookRunOutput { exit_code, stdout: stdout.to_string(), error: None }
}

fn parsed<D>(decision: Option<D>) -> Option<ParsedHookOutput<D>> {
    Some(ParsedHookOutput { system_message: None, invalid_reason: None, decision })
}

fn route_data(decision: Option<ApprovalReviewRouteDecision>) -> ApprovalReviewRouteHandlerData {
    ApprovalReviewRouteHandlerData { decision, force_user: false }
}

#[test]
fn approval_review_route_approval_review_route_uses_last_non_continue_reviewer() {
    let handler_data = [
        route_data(Some(ApprovalReviewRouteDecision::AutoReview)),
        route_data(None),
        route_data(Some(ApprovalReviewRouteDecision::User)),
    ];
    assert_eq!(
        resolve_approval_review_route_decision(&handler_data),
        Some(ApprovalReviewRouteDecision::User)
    );
}

#[test]
fn approval_review_route_approval_review_route_returns_none_when_handlers_continue() {
    let handler_data = [route_data(None), route_data(None)];
    assert_eq!(resolve_approval_review_route_decision(&handler_data), None);
}

#[test]
fn approval_review_route_tests_approval_review_route_uses_last_non_continue_reviewer() {
    let handler_data = [
        route_data(Some(ApprovalReviewRouteDecision::AutoReview)),
        route_data(None),
        route_data(Some(ApprovalReviewRouteDecision::User)),
    ];
    assert_eq!(
        resolve_approval_review_route_decision(&handler_data),
        Some(ApprovalReviewRouteDecision::User)
    );
}

#[test]
fn approval_review_route_tests_approval_review_route_returns_none_when_handlers_continue() {
    let handler_data = [route_data(None), route_data(None)];
    assert_eq!(resolve_approval_review_route_decision(&handler_data), None);
}

#[test]
fn fail_closed_prompt_failure_forces_user_over_static_aggregation() {
    let handler_data = [
        ApprovalReviewRouteHandlerData { decision: None, force_user: true },
        route_data(Some(ApprovalReviewRouteDecision::AutoReview)),
    ];
    assert_eq!(
        resolve_approval_review_route_decision(&handler_data),
        Some(ApprovalReviewRouteDecision::User)
    );
}

#[test]
fn command_route_output_still_selects_reviewer() {
    let handler = handler(HookEventName::ApprovalReviewRoute, command_kind());
    let stdout = r#"{"hookSpecificOutput":{"hookEventName":"ApprovalReviewRoute"}}"#;
    let (completed, data) = parse_approval_review_route_completed(
        &handler,
        run_result(Some(0), stdout),
        parsed(Some(ApprovalReviewRouteDecision::User)),
    );
    assert_eq!(
        data,
        ApprovalReviewRouteHandlerData {
            decision: Some(ApprovalReviewRouteDecision::User),
            force_user: false,
        }
    );
    assert_eq!(completed.status, HookRunStatus::Completed);
}

#[test]
fn command_route_failure_still_returns_no_decision() {
    let handler = handler(HookEventName::ApprovalReviewRoute, command_kind());
    let (completed, data) =
        parse_approval_review_route_completed(&handler, run_result(Some(1), ""), None);
    assert_eq!(data, ApprovalReviewRouteHandlerData::default());
    assert_eq!(completed.status, HookRunStatus::Failed);
    assert_eq!(completed.entries[0].text, "ApprovalReviewRoute hook exited with code 1");
}

#[test]
fn command_route_empty_and_non_json_output_remain_completed() {
    for stdout in ["", "not json"] {
        let handler = handler(HookEventName::ApprovalReviewRoute, command_kind());
        let (completed, data) =
            parse_approval_review_route_completed(&handler, run_result(Some(0), stdout), None);
        assert_eq!(data, ApprovalReviewRouteHandlerData::default());
        assert_eq!(completed.status, HookRunStatus::Completed);
    }
}

#[test]
fn fail_closed_route_failure_forces_user() {
    let handler = handler(HookEventName::ApprovalReviewRoute, prompt_kind(true));
    let (completed, data) =
        parse_approval_review_route_completed(&handler, failed_run("review failed"), None);
    assert_eq!(completed.status, HookRunStatus::Failed);
    assert!(data.force_user);
    assert_eq!(
        resolve_approval_review_route_decision(&[data]),
        Some(ApprovalReviewRouteDecision::User)
    );
    let open = handler_with_fail_open_route();
    assert!(!open.force_user);
}

fn handler_with_fail_open_route() -> ApprovalReviewRouteHandlerData {
    let handler = handler(HookEventName::ApprovalReviewRoute, prompt_kind(false));
    parse_approval_review_route_completed(&handler, failed_run("review failed"), None).1
}

#[test]
fn permission_request_deny_overrides_earlier_allow() {
    let decisions = [
        PermissionRequestDecision::Allow,
        PermissionRequestDecision::Deny { message: "repo deny".to_string() },
    ];
    assert_eq!(
        resolve_permission_request_decision(&decisions),
        Some(PermissionRequestDecision::Deny { message: "repo deny".to_string() })
    );
}

#[test]
fn permission_request_returns_allow_when_no_handler_denies() {
    let decisions = [PermissionRequestDecision::Allow, PermissionRequestDecision::Allow];
    assert_eq!(
        resolve_permission_request_decision(&decisions),
        Some(PermissionRequestDecision::Allow)
    );
}

#[test]
fn permission_request_returns_none_when_no_handler_decides() {
    let decisions = Vec::<PermissionRequestDecision>::new();
    assert_eq!(resolve_permission_request_decision(&decisions), None);
}

#[test]
fn permission_request_first_denial_wins() {
    let decisions = [
        PermissionRequestDecision::Deny { message: "first".to_string() },
        PermissionRequestDecision::Allow,
        PermissionRequestDecision::Deny { message: "second".to_string() },
    ];
    assert_eq!(
        resolve_permission_request_decision(&decisions),
        Some(PermissionRequestDecision::Deny { message: "first".to_string() })
    );
}

#[test]
fn failed_prompt_hook_honors_fail_closed_without_changing_failed_status() {
    for failure in [RUNTIME_FAILURE, TIMEOUT_FAILURE] {
        let open = handler(HookEventName::PermissionRequest, prompt_kind(false));
        let closed = handler(HookEventName::PermissionRequest, prompt_kind(true));
        let fail_open = parse_permission_request_completed(&open, failed_run(failure), None);
        let fail_closed = parse_permission_request_completed(&closed, failed_run(failure), None);

        assert_eq!(fail_open.0.status, HookRunStatus::Failed);
        assert_eq!(fail_open.1, None);
        assert_eq!(fail_closed.0.status, HookRunStatus::Failed);
        assert_eq!(
            fail_closed.1,
            Some(PermissionRequestDecision::Deny { message: failure.to_string() })
        );
    }
}

#[test]
fn invalid_prompt_output_honors_failure_policy_and_preserves_failed_status() {
    let open = handler(HookEventName::PermissionRequest, prompt_kind(false));
    let closed = handler(HookEventName::PermissionRequest, prompt_kind(true));
    let fail_open = parse_permission_request_completed(&open, run_result(Some(0), "not json"), None);
    let fail_closed =
        parse_permission_request_completed(&closed, run_result(Some(0), "not json"), None);

    assert_eq!(fail_open.0.status, HookRunStatus::Failed);
    assert_eq!(fail_open.1, None);
    assert_eq!(fail_closed.0.status, HookRunStatus::Failed);
    assert!(matches!(fail_closed.1, Some(PermissionRequestDecision::Deny { .. })));
    assert_eq!(
        fail_closed.1,
        Some(PermissionRequestDecision::Deny {
            message: "hook returned invalid permission-request JSON output".to_string()
        })
    );
}

#[test]
fn valid_prompt_output_uses_permission_request_decision_contract() {
    let closed = handler(HookEventName::PermissionRequest, prompt_kind(true));
    let stdout = r#"{"hookSpecificOutput":{"hookEventName":"PermissionRequest","decision":{"behavior":"allow"}}}"#;
    let result = parse_permission_request_completed(
        &closed,
        run_result(Some(0), stdout),
        parsed(Some(PermissionRequestDecision::Allow)),
    );
    assert_eq!(result.0.status, HookRunStatus::Completed);
    assert_eq!(result.1, Some(PermissionRequestDecision::Allow));
}

#[test]
fn command_failure_remains_fail_open() {
    let command = handler(HookEventName::PermissionRequest, command_kind());
    let result = parse_permission_request_completed(&command, failed_run("command timed out"), None);
    assert_eq!(result.0.status, HookRunStatus::Failed);
    assert_eq!(result.1, None);
}

#[test]
fn empty_prompt_output_fails_but_empty_command_output_completes() {
    let prompt = handler(HookEventName::PreToolUse, prompt_kind(false));
    let c = classify_completion::<u8>(
        prompt.handler_type(),
        HookEventName::PreToolUse,
        run_result(Some(0), "  \n"),
        None,
    );
    assert_eq!(c.status, HookRunStatus::Failed);
    assert_eq!(c.entries[0].kind, HookOutputEntryKind::Error);
    assert_eq!(c.entries[0].text, EMPTY_PROMPT_OUTPUT_ERROR);

    let command = handler(HookEventName::PreToolUse, command_kind());
    let c = classify_completion::<u8>(
        command.handler_type(),
        HookEventName::PreToolUse,
        run_result(Some(0), ""),
        None,
    );
    assert_eq!(c.status, HookRunStatus::Completed);
    assert!(c.entries.is_empty());
}

#[test]
fn classify_reports_warnings_invalid_output_and_missing_exit_code() {
    let command = handler(HookEventName::PostToolUse, command_kind());
    let c = classify_completion(
        command.handler_type(),
        HookEventName::PostToolUse,
        run_result(Some(0), "{\"x\":1}"),
        Some(ParsedHookOutput {
            system_message: Some("careful".to_string()),
            invalid_reason: Some("bad field".to_string()),
            decision: Some(3u8),
        }),
    );
    assert_eq!(c.status, HookRunStatus::Failed);
    assert_eq!(c.decision, None);
    assert_eq!(c.entries.len(), 2);
    assert_eq!(c.entries[0].kind, HookOutputEntryKind::Warning);
    assert_eq!(c.entries[0].text, "careful");
    assert_eq!(c.entries[1].text, "bad field");

    let c = classify_completion::<u8>(
        command.handler_type(),
        HookEventName::PostToolUse,
        run_result(Some(0), "  [1, 2"),
        None,
    );
    assert_eq!(c.status, HookRunStatus::Failed);
    assert_eq!(c.entries[0].text, "hook returned invalid post-tool-use JSON output");

    let c = classify_completion::<u8>(
        command.handler_type(),
        HookEventName::SessionStart,
        run_result(None, ""),
        None,
    );
    assert_eq!(c.entries[0].text, "SessionStart hook exited without an exit code");

    let c = classify_completion::<u8>(
        command.handler_type(),
        HookEventName::Stop,
        run_result(Some(-2), ""),
        None,
    );
    assert_eq!(c.entries[0].text, "Stop hook exited with code -2");
}

#[test]
fn json_detection_skips_leading_whitespace() {
    assert!(output_looks_like_json(" \n{\"a\":1}"));
    assert!(output_looks_like_json("[1]"));
    assert!(!output_looks_like_json("not json"));
    assert!(!output_looks_like_json("   "));
}

#[test]
fn handler_accessors_follow_kind() {
    let prompt = handler(HookEventName::PermissionRequest, prompt_kind(true));
    assert!(prompt.fail_closed());
    assert_eq!(prompt.timeout_sec(), 30);
    let command = handler(HookEventName::PermissionRequest, command_kind());
    assert!(!command.fail_closed());
    assert_eq!(command.timeout_sec(), 5);
    let _ = ReasoningEffort::High;
}

#[test]
fn unparsed_output_fails_prompt_hooks_and_only_json_like_command_output() {
    let prompt = handler(HookEventName::PreToolUse, prompt_kind(false));
    let c = classify_completion::<u8>(
        prompt.handler_type(),
        HookEventName::PreToolUse,
        run_result(Some(0), "looks fine to me"),
        None,
    );
    assert_eq!(c.status, HookRunStatus::Failed);
    assert_eq!(c.decision, None);
    assert_eq!(c.entries[0].text, "hook returned invalid pre-tool-use JSON output");

    let command = handler(HookEventName::PreToolUse, command_kind());
    let c = classify_completion::<u8>(
        command.handler_type(),
        HookEventName::PreToolUse,
        run_result(Some(0), "looks fine to me"),
        None,
    );
    assert_eq!(c.status, HookRunStatus::Completed);
    let c = classify_completion::<u8>(
        command.handler_type(),
        HookEventName::PreToolUse,
        run_result(Some(0), "{\"decision\":"),
        None,
    );
    assert_eq!(c.status, HookRunStatus::Failed);
}
