use codex_policy::hooks::handler::{
    ConfiguredHandler, ConfiguredHandlerKind, HookSource, ReasoningEffort,
};
use codex_policy::hooks::outcome::HookRunOutput;
use codex_policy::hooks::prompt::{
    hook_event_name_label, output_schema_for, prepare_prompt_run, prompt_run_output,
    render_prompt, supports_event, HookOutputSchemas, PromptHookRequest, PromptReply, PROMPT_ARGUMENTS_PLACEHOLDER, PROMPT_HOOK_EVENT_JSON_LIMIT,
    UNTRUSTED_EVENT_JSON_PREFIX, UNTRUSTED_EVENT_JSON_SUFFIX,
};
use codex_policy::hooks::HookEventName;

fn schemas() -> HookOutputSchemas {
    HookOutputSchemas {
        pre_tool_use: "{\"title\":\"pre-tool-use\"}".to_string(),
        permission_request: "{\"title\":\"permission-request\"}".to_string(),
        approval_review_route: "{\"title\":\"approval-review-route\"}".to_string(),
        pre_compact: "{\"title\":\"pre-compact\"}".to_string(),
        session_start: "{\"title\":\"session-start\"}".to_string(),
        user_prompt_submit: "{\"title\":\"user-prompt-submit\"}".to_string(),
        subagent_start: "{\"title\":\"subagent-start\"}".to_string(),
    }
}

#[test]
fn prompt_rendering_replaces_every_arguments_placeholder() {
    let event_json = r#"{"hook_event_name":"PreToolUse"}"#;
    let untrusted_event_json =
        format!("<untrusted-hook-event-json>\n{event_json}\n</untrusted-hook-event-json>");
    assert_eq!(
        render_prompt("Before $$ARGUMENTS after $$ARGUMENTS", event_json),
        Ok(format!("Before {untrusted_event_json} after {untrusted_event_json}"))
    );
}

#[test]
fn prompt_rendering_appends_fixed_untrusted_envelope() {
    let untrusted_event_json = "<untrusted-hook-event-json>\n{}\n</untrusted-hook-event-json>";
    assert_eq!(
        render_prompt("Review the event.", "{}"),
        Ok(format!("Review the event.\n\n{untrusted_event_json}"))
    );
    assert_eq!(
        render_prompt("Review $$ARGUMENTS", "{}"),
        Ok(format!("Review {untrusted_event_json}"))
    );
}

#[test]
fn prompt_rendering_escapes_event_json_envelope_delimiters() {
    let closing_tag = UNTRUSTED_EVENT_JSON_SUFFIX.trim_start_matches('\n');
    let mut object = serde_json::Map::new();
    object.insert("value".to_string(), serde_json::Value::String(closing_tag.to_string()));
    let event = serde_json::Value::Object(object);
    let event_json = serde_json::to_string(&event).expect("serialize event");

    for prompt in [PROMPT_ARGUMENTS_PLACEHOLDER, "Review the event."] {
        let rendered = render_prompt(prompt, &event_json).expect("render prompt");

        assert_eq!(rendered.matches(closing_tag).count(), 1);
        let (_, enclosed) = rendered
            .split_once(UNTRUSTED_EVENT_JSON_PREFIX)
            .expect("untrusted event prefix");
        let (escaped_event_json, trailing) = enclosed
            .split_once(UNTRUSTED_EVENT_JSON_SUFFIX)
            .expect("untrusted event suffix");
        assert_eq!(trailing, "");
        let parsed_event = serde_json::from_str::<serde_json::Value>(escaped_event_json)
            .expect("parse escaped event JSON");
        assert_eq!(parsed_event, event);
    }
}

#[test]
fn prompt_rendering_rejects_oversized_event_and_total_input() {
    let limit = PROMPT_HOOK_EVENT_JSON_LIMIT as usize;
    assert!(render_prompt("$$ARGUMENTS", &"x".repeat(limit + 1)).is_err());
    assert!(render_prompt(&"word ".repeat(40_000), "{}").is_err());
}

#[test]
fn prompt_rendering_error_messages() {
    assert_eq!(
        render_prompt("$$ARGUMENTS", &"x".repeat(65_537)),
        Err("prompt hook event JSON exceeds the 65536-byte limit".to_string())
    );
    assert!(render_prompt("$$ARGUMENTS", &"x".repeat(30_000)).is_ok());
    // 40_000 bytes of prompt, the envelope of "{}" (59 bytes) and "\n\n".
    assert_eq!(
        render_prompt(&"word ".repeat(8_000), "{}"),
        Err("prompt hook input is estimated at 10016 tokens, exceeding the 8192-token limit"
            .to_string())
    );
}

fn prompt_handler(event_name: HookEventName) -> ConfiguredHandler {
    ConfiguredHandler {
        event_name,
        matcher: None,
        kind: ConfiguredHandlerKind::Prompt {
            prompt: "Review $$ARGUMENTS".to_string(),
            filter: None,
            model: Some("gpt-override".to_string()),
            reasoning_effort: Some(ReasoningEffort::High),
            timeout_sec: 30,
            fail_closed: false,
        },
        status_message: None,
        additional_context_limit: 2500,
        source_path: "/tmp/hooks.json".to_string(),
        source: HookSource::User,
        display_order: 0,
        env: Vec::new(),
    }
}

#[test]
fn prompt_runner_receives_rendered_prompt_model_and_effort() {
    for event_name in [
        HookEventName::PreToolUse,
        HookEventName::PermissionRequest,
        HookEventName::ApprovalReviewRoute,
        HookEventName::PreCompact,
        HookEventName::SessionStart,
        HookEventName::UserPromptSubmit,
        HookEventName::SubagentStart,
    ] {
        let request = prepare_prompt_run(&prompt_handler(event_name), true, "{}", &schemas()).expect("request");
        assert_eq!(
            request,
            PromptHookRequest {
                rendered_prompt:
                    "Review <untrusted-hook-event-json>\n{}\n</untrusted-hook-event-json>"
                        .to_string(),
                model: Some("gpt-override".to_string()),
                reasoning_effort: Some(ReasoningEffort::High),
                event_name,
                output_schema: output_schema_for(&schemas(), event_name).expect("schema"),
            }
        );
    }
}

#[test]
fn prompt_runner_receives_each_event_output_schema() {
    let schemas = schemas();
    let expected = [
        (HookEventName::PreToolUse, &schemas.pre_tool_use),
        (HookEventName::PermissionRequest, &schemas.permission_request),
        (HookEventName::ApprovalReviewRoute, &schemas.approval_review_route),
        (HookEventName::PreCompact, &schemas.pre_compact),
        (HookEventName::SessionStart, &schemas.session_start),
        (HookEventName::UserPromptSubmit, &schemas.user_prompt_submit),
        (HookEventName::SubagentStart, &schemas.subagent_start),
    ];
    for (event_name, schema) in expected {
        let request =
            prepare_prompt_run(&prompt_handler(event_name), true, "{}", &schemas).expect("request");
        assert_eq!(&request.output_schema, schema);
    }
    assert_eq!(output_schema_for(&schemas, HookEventName::Stop), None);
    assert_eq!(output_schema_for(&schemas, HookEventName::PostToolUse), None);
}

#[test]
fn prompt_run_fails_without_runner_or_for_unsupported_event() {
    assert_eq!(
        prepare_prompt_run(&prompt_handler(HookEventName::PreToolUse), false, "{}", &schemas()),
        Err("prompt hook cannot run because no prompt runner is configured".to_string())
    );
    assert_eq!(
        prepare_prompt_run(&prompt_handler(HookEventName::Stop), true, "{}", &schemas()),
        Err("prompt hooks are not supported for Stop".to_string())
    );
    let mut command = prompt_handler(HookEventName::PreToolUse);
    command.kind = ConfiguredHandlerKind::Command {
        command: "echo".to_string(),
        timeout_sec: 1,
        run_async: false,
    };
    assert_eq!(
        prepare_prompt_run(&command, true, "{}", &schemas()),
        Err("command handler cannot run as a prompt hook".to_string())
    );
    assert!(!supports_event(HookEventName::PostCompact));
    assert_eq!(hook_event_name_label(HookEventName::SubagentStop), "SubagentStop");
}

#[test]
fn prompt_replies_become_run_results() {
    assert_eq!(
        prompt_run_output(PromptReply::Answered("{}".to_string()), 30),
        HookRunOutput { exit_code: Some(0), stdout: "{}".to_string(), error: None }
    );
    assert_eq!(
        prompt_run_output(PromptReply::Failed("review failed".to_string()), 30),
        HookRunOutput {
            exit_code: None,
            stdout: String::new(),
            error: Some("review failed".to_string())
        }
    );
    assert_eq!(
        prompt_run_output(PromptReply::TimedOut, 45),
        HookRunOutput {
            exit_code: None,
            stdout: String::new(),
            error: Some("prompt hook timed out after 45s".to_string())
        }
    );
}
