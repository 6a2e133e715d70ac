use codex_policy::hooks::{
    durable_hook_key, hook_event_key_label, hook_key, is_valid_hook_id, resolve_hook_key,
    HookEventName, ResolvedHookKey,
};

#[test]
fn resolve_hook_key_uses_durable_id_when_valid() {
    let mut seen: Vec<String> = Vec::new();
    let resolved = resolve_hook_key(
        "/tmp/config.toml",
        HookEventName::PreToolUse,
        1,
        0,
        Some("grok-build-0.1"),
        &mut seen,
    )
    .expect("id should resolve");
    assert_eq!(resolved.key, "/tmp/config.toml:pre_tool_use:grok-build-0.1");
    assert_eq!(resolved.legacy_key, "/tmp/config.toml:pre_tool_use:1:0");
}

#[test]
fn resolve_hook_key_rejects_duplicate_ids() {
    let mut seen = vec!["dup".to_string()];
    let err = resolve_hook_key(
        "/tmp/config.toml",
        HookEventName::PreToolUse,
        0,
        0,
        Some("dup"),
        &mut seen,
    )
    .expect_err("duplicate id should fail");
    assert!(err.contains("duplicate hook id"));
}

#[derive(Debug, PartialEq, Eq)]
struct HookStateTomlProbe {
    enabled: bool,
}

#[test]
fn resolved_hook_key_prefers_durable_lookup() {
    let resolved = ResolvedHookKey {
        key: "/tmp/config.toml:pre_tool_use:named".to_string(),
        legacy_key: "/tmp/config.toml:pre_tool_use:0:0".to_string(),
    };
    let states = vec![
        (resolved.legacy_key.clone(), HookStateTomlProbe { enabled: true }),
        (resolved.key.clone(), HookStateTomlProbe { enabled: false }),
    ];
    assert_eq!(resolved.lookup(&states).map(|state| state.enabled), Some(false));
}

#[test]
fn lookup_falls_back_to_legacy_key() {
    let resolved = ResolvedHookKey {
        key: "/tmp/config.toml:pre_tool_use:named".to_string(),
        legacy_key: "/tmp/config.toml:pre_tool_use:0:0".to_string(),
    };
    let states = vec![(resolved.legacy_key.clone(), 7u32)];
    assert_eq!(resolved.lookup(&states), Some(&7));
    let none: Vec<(String, u32)> = vec![("other".to_string(), 1)];
    assert_eq!(resolved.lookup(&none), None);
}

#[test]
fn missing_or_blank_id_keeps_positional_key() {
    let mut seen: Vec<String> = Vec::new();
    let resolved =
        resolve_hook_key("src", HookEventName::Stop, 2, 3, None, &mut seen).expect("positional");
    assert_eq!(resolved.key, "src:stop:2:3");
    assert_eq!(resolved.legacy_key, "src:stop:2:3");
    let blank = resolve_hook_key("src", HookEventName::Stop, 2, 3, Some("   "), &mut seen)
        .expect("blank id is positional");
    assert_eq!(blank.key, "src:stop:2:3");
    assert!(seen.is_empty());
}

#[test]
fn invalid_hook_id_is_rejected_with_debug_quoted_id() {
    let mut seen: Vec<String> = Vec::new();
    let err = resolve_hook_key("src", HookEventName::PreToolUse, 0, 0, Some(" a:b "), &mut seen)
        .expect_err("colon is not allowed");
    assert_eq!(err, "invalid hook id \"a:b\": use letters, digits, '.', '_', or '-'");
    assert!(seen.is_empty());
}

#[test]
fn durable_id_is_accepted_once_per_source_event() {
    let mut seen: Vec<String> = Vec::new();
    let first = resolve_hook_key("src", HookEventName::PostToolUse, 0, 0, Some(" id-1 "), &mut seen)
        .expect("first use");
    assert_eq!(first.key, "src:post_tool_use:id-1");
    assert_eq!(seen, vec!["id-1".to_string()]);
    let err = resolve_hook_key("src", HookEventName::PostToolUse, 0, 1, Some("id-1"), &mut seen)
        .expect_err("second use");
    assert_eq!(
        err,
        "duplicate hook id \"id-1\" for event post_tool_use; falling back to positional key"
    );
}

#[test]
fn hook_keys_and_ids() {
    assert_eq!(hook_key("k", HookEventName::ApprovalReviewRoute, 0, 12), "k:approval_review_route:0:12");
    assert_eq!(durable_hook_key("k", HookEventName::UserPromptSubmit, "x"), "k:user_prompt_submit:x");
    assert_eq!(hook_event_key_label(HookEventName::SubagentStop), "subagent_stop");
    assert!(is_valid_hook_id("Ab9._-"));
    assert!(!is_valid_hook_id(""));
    assert!(!is_valid_hook_id("a b"));
    assert!(!is_valid_hook_id("é"));
}
