use codex_policy::prompts::{
    check_auto_review_placeholders, check_goal_placeholders, escape_xml_text,
    AutoReviewPromptTemplateError, GoalPromptTemplateError, GoalPromptValues, ThreadGoal,
};
use codex_policy::text::{
    decimal_string, replace_str, str_is_blank, trim_str, utf8_len_of,
};

#[test]
fn override_auto_review_prompt_rejects_unknown_placeholder() {
    // The template `review {{ action }}` names the placeholder `action`.
    let err = check_auto_review_placeholders(&["action".to_string()])
        .expect_err("auto-review prompt placeholders are not part of the v1 contract");
    assert_eq!(
        err.message(),
        "auto-review prompt template contains unknown placeholder `action`"
    );
    assert_eq!(err, AutoReviewPromptTemplateError::UnknownPlaceholder { name: "action".to_string() });
}

#[test]
fn literal_auto_review_prompt_has_no_placeholders() {
    assert_eq!(check_auto_review_placeholders(&[]), Ok(()));
}

#[test]
fn goal_templates_accept_only_goal_values() {
    let names: Vec<String> =
        ["objective", "tokens_used", "token_budget", "remaining_tokens", "time_used_seconds"]
            .iter()
            .map(|s| s.to_string())
            .collect();
    assert_eq!(check_goal_placeholders(&names), Ok(()));
    let err = check_goal_placeholders(&[
        "objective".to_string(),
        "deadline".to_string(),
        "other".to_string(),
    ])
    .expect_err("unknown placeholder");
    assert_eq!(err, GoalPromptTemplateError::UnknownPlaceholder { name: "deadline".to_string() });
    assert_eq!(err.message(), "goal prompt template contains unknown placeholder `deadline`");
    assert_eq!(GoalPromptTemplateError::Parse("bad".to_string()).message(), "bad");
}

#[test]
fn goal_values_escape_and_clamp() {
    let goal = ThreadGoal {
        objective: "fix <a> & b".to_string(),
        tokens_used: 1500,
        token_budget: Some(1000),
        time_used_seconds: 42,
    };
    let values = GoalPromptValues::new(&goal);
    assert_eq!(values.objective, "fix &lt;a&gt; &amp; b");
    assert_eq!(values.tokens_used, "1500");
    assert_eq!(values.token_budget, "1000");
    assert_eq!(values.remaining_tokens, "0");
    assert_eq!(values.time_used_seconds, "42");
    assert_eq!(values.value_for("objective"), "fix &lt;a&gt; &amp; b");
    assert_eq!(values.value_for("remaining_tokens"), "0");

    let open = GoalPromptValues::new(&ThreadGoal {
        objective: String::new(),
        tokens_used: -3,
        token_budget: None,
        time_used_seconds: 0,
    });
    assert_eq!(open.token_budget, "none");
    assert_eq!(open.remaining_tokens, "unbounded");
    assert_eq!(open.tokens_used, "-3");

    let budgeted = GoalPromptValues::new(&ThreadGoal {
        objective: "x".to_string(),
        tokens_used: 250,
        token_budget: Some(1000),
        time_used_seconds: 1,
    });
    assert_eq!(budgeted.value_for("remaining_tokens"), "750");
    assert_eq!(escape_xml_text("<>&\"'"), "&lt;&gt;&amp;\"'");
}

#[test]
fn text_helpers() {
    assert_eq!(trim_str("\t a b \n"), "a b");
    assert!(str_is_blank(" \u{3000}\n"));
    assert!(!str_is_blank(" x "));
    assert_eq!(replace_str("aXbXXc", "X", "--"), "a--b----c");
    assert_eq!(replace_str("aaa", "aa", "b"), "ba");
    assert_eq!(decimal_string(0), "0");
    assert_eq!(decimal_string(18446744073709551615), "18446744073709551615");
    assert_eq!(utf8_len_of("aé€😀"), 10);
}
