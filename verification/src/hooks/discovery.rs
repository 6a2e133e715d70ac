//! Prompt-hook discovery: validating and normalizing a configured prompt
//! handler, and recording it in the hook listing and the runtime list.

use super::HookEventName;
use super::handler::{
    ConfiguredHandler, ConfiguredHandlerKind, ConfiguredPromptFilter, HookListEntryHandler,
    HookSource, ReasoningEffort,
};
use super::prompt::{event_config_name, hook_event_name_label, prompt_event, supports_event};
use crate::text::{
    owned, push_str, replace_all, replace_str, str_eq, str_is_blank, is_blank, trim, trim_str,
    utf8_len, utf8_len_of,
};
use vstd::prelude::*;

verus! {

/// Most bytes of prompt text a prompt hook may have.
pub const MAX_PROMPT_BYTES: u64 = 16384;

/// Time limit of a prompt hook when none is configured.
pub const DEFAULT_PROMPT_TIMEOUT_SEC: u64 = 30;

/// Time limit of a prompt filter when none is configured.
pub const DEFAULT_FILTER_TIMEOUT_SEC: u64 = 5;

/// A prompt filter as configured.
#[derive(Clone, Debug, PartialEq, Eq)]
pub struct PromptHookFilterConfig {
    pub command: String,
    pub command_windows: Option<String>,
    pub timeout_sec: Option<u64>,
}

/// Whether the user trusts a hook's current definition.
#[derive(Clone, Copy, Debug, PartialEq, Eq, Structural)]
pub enum HookTrustStatus {
    Managed,
    Trusted,
    Untrusted,
    Modified,
}

/// Where a group of handlers was configured.
#[derive(Clone, Debug, PartialEq, Eq)]
pub struct HookHandlerSource {
    /// The configuration file, as displayed.
    pub path: String,
    pub key_source: String,
    pub source: HookSource,
    pub is_managed: bool,
    pub bypass_hook_trust: bool,
    /// Variables that filter commands may refer to as `${NAME}`.
    pub env: Vec<(String, String)>,
    pub plugin_id: Option<String>,
}

/// A hook as a hook listing shows it.
#[derive(Clone, Debug, PartialEq, Eq)]
pub struct HookListEntry {
    pub key: String,
    pub event_name: HookEventName,
    pub handler: HookListEntryHandler,
    pub matcher: Option<String>,
    pub prompt: Option<String>,
    pub model: Option<String>,
    pub reasoning_effort: Option<ReasoningEffort>,
    pub filter: Option<PromptHookFilterConfig>,
    pub fail_closed: Option<bool>,
    pub timeout_sec: u64,
    pub status_message: Option<String>,
    pub additional_context_limit: Option<usize>,
    pub source_path: String,
    pub source: HookSource,
    pub plugin_id: Option<String>,
    pub display_order: i64,
    pub enabled: bool,
    pub is_managed: bool,
    pub current_hash: String,
    pub trust_status: HookTrustStatus,
}

/// A prompt handler after validation, with defaults filled in.
#[derive(Clone, Debug, PartialEq, Eq)]
pub struct NormalizedPromptHandler {
    pub prompt: String,
    pub filter: Option<ConfiguredPromptFilter>,
    pub model: Option<String>,
    pub reasoning_effort: Option<ReasoningEffort>,
    pub timeout_sec: u64,
    pub status_message: Option<String>,
    pub fail_closed: bool,
}

/// The optional text as text.
pub open spec fn opt_view(s: Option<String>) -> Option<Seq<char>> {
    match s {
        Some(s) => Some(s@),
        None => None,
    }
}

/// The filter command for the platform: the Windows override on Windows when set.
pub open spec fn platform_command(filter: PromptHookFilterConfig, windows: bool) -> Seq<char> {
    if windows {
        match filter.command_windows {
            Some(c) => c@,
            None => filter.command@,
        }
    } else {
        filter.command@
    }
}

/// What normalizing a filter gives: (command, timeout) or the warning.
pub open spec fn spec_normalize_filter(
    filter: PromptHookFilterConfig,
    windows: bool,
    path: Seq<char>,
) -> Result<(Seq<char>, u64), Seq<char>> {
    let command = platform_command(filter, windows);
    if is_blank(command) {
        Err("skipping prompt hook with empty filter command in "@ + path)
    } else if filter.timeout_sec matches Some(t) && !(1 <= t && t <= 60) {
        Err("skipping prompt hook with invalid filter timeout in "@ + path)
    } else {
        Ok(
            (
                command,
                match filter.timeout_sec {
                    Some(t) => t,
                    None => DEFAULT_FILTER_TIMEOUT_SEC,
                },
            ),
        )
    }
}

/// A filter without a time limit normalizes exactly as the same filter with
/// the default limit, so the two hash alike.
pub proof fn lemma_default_filter_timeout_normalizes_alike(
    command: String,
    command_windows: Option<String>,
    windows: bool,
    path: Seq<char>,
)
    ensures
        spec_normalize_filter(
            PromptHookFilterConfig { command, command_windows, timeout_sec: None },
            windows,
            path,
        ) == spec_normalize_filter(
            PromptHookFilterConfig {
                command,
                command_windows,
                timeout_sec: Some(DEFAULT_FILTER_TIMEOUT_SEC),
            },
            windows,
            path,
        ),
{
}

/// Normalization keeps the filter's effective command and time limit:
/// accepted filters that differ in either normalize differently.
pub proof fn lemma_filter_normalization_keeps_differences(
    f: PromptHookFilterConfig,
    g: PromptHookFilterConfig,
    windows: bool,
    path: Seq<char>,
)
    requires
        spec_normalize_filter(f, windows, path) is Ok,
        spec_normalize_filter(g, windows, path) is Ok,
        platform_command(f, windows) != platform_command(g, windows) || match (
            f.timeout_sec,
            g.timeout_sec,
        ) {
            (Some(a), Some(b)) => a != b,
            (Some(a), None) => a != DEFAULT_FILTER_TIMEOUT_SEC,
            (None, Some(b)) => b != DEFAULT_FILTER_TIMEOUT_SEC,
            (None, None) => false,
        },
    ensures
        spec_normalize_filter(f, windows, path) != spec_normalize_filter(g, windows, path),
{
}

/// Two configurations of a prompt handler that differ only in reasoning
/// effort normalize differently when both are accepted.
pub proof fn lemma_normalization_keeps_reasoning_effort(
    event_name: HookEventName,
    prompt: Seq<char>,
    filter: Option<PromptHookFilterConfig>,
    model: Option<Seq<char>>,
    effort_a: Option<ReasoningEffort>,
    effort_b: Option<ReasoningEffort>,
    timeout_sec: Option<u64>,
    status_message: Option<Seq<char>>,
    fail_closed: bool,
    windows: bool,
    path: Seq<char>,
)
    requires
        effort_a != effort_b,
        spec_normalize_prompt_handler(
            event_name,
            prompt,
            filter,
            model,
            effort_a,
            timeout_sec,
            status_message,
            fail_closed,
            windows,
            path,
        ) is Ok,
    ensures
        spec_normalize_prompt_handler(
            event_name,
            prompt,
            filter,
            model,
            effort_a,
            timeout_sec,
            status_message,
            fail_closed,
            windows,
            path,
        ) != spec_normalize_prompt_handler(
            event_name,
            prompt,
            filter,
            model,
            effort_b,
            timeout_sec,
            status_message,
            fail_closed,
            windows,
            path,
        ),
{
}

/// Validates a prompt filter and fills in its default time limit.
pub fn normalize_prompt_filter(filter: PromptHookFilterConfig, windows: bool, path: &str) -> (r: Result<
    ConfiguredPromptFilter,
    String,
>)
    ensures
        match r {
            Ok(f) => spec_normalize_filter(filter, windows, path@) == Ok::<(Seq<char>, u64), Seq<char>>(
                (f.command@, f.timeout_sec),
            ),
            Err(w) => spec_normalize_filter(filter, windows, path@) == Err::<(Seq<char>, u64), Seq<char>>(
                w@,
            ),
        },
{
    let ghost original = filter;
    let command = if windows {
        match filter.command_windows {
            Some(c) => c,
            None => filter.command,
        }
    } else {
        filter.command
    };
    assert(command@ == platform_command(original, windows));
    if str_is_blank(command.as_str()) {
        let mut w = owned("skipping prompt hook with empty filter command in ");
        push_str(&mut w, path);
        return Err(w);
    }
    match filter.timeout_sec {
        Some(t) => {
            if t < 1 || t > 60 {
                let mut w = owned("skipping prompt hook with invalid filter timeout in ");
                push_str(&mut w, path);
                return Err(w);
            }
            Ok(ConfiguredPromptFilter { command, timeout_sec: t })
        },
        None => Ok(ConfiguredPromptFilter { command, timeout_sec: DEFAULT_FILTER_TIMEOUT_SEC }),
    }
}

/// A normalized handler as (prompt, filter, model, effort, timeout, status message, fail closed).
pub open spec fn normalized_view(n: NormalizedPromptHandler) -> (
    Seq<char>,
    Option<(Seq<char>, u64)>,
    Option<Seq<char>>,
    Option<ReasoningEffort>,
    u64,
    Option<Seq<char>>,
    bool,
) {
    (
        n.prompt@,
        match n.filter {
            Some(f) => Some((f.command@, f.timeout_sec)),
            None => None,
        },
        opt_view(n.model),
        n.reasoning_effort,
        n.timeout_sec,
        opt_view(n.status_message),
        n.fail_closed,
    )
}

/// What validating a prompt handler gives: the normalized handler or the
/// warning that explains why it is skipped.
pub open spec fn spec_normalize_prompt_handler(
    event_name: HookEventName,
    prompt: Seq<char>,
    filter: Option<PromptHookFilterConfig>,
    model: Option<Seq<char>>,
    reasoning_effort: Option<ReasoningEffort>,
    timeout_sec: Option<u64>,
    status_message: Option<Seq<char>>,
    fail_closed: bool,
    windows: bool,
    path: Seq<char>,
) -> Result<
    (
        Seq<char>,
        Option<(Seq<char>, u64)>,
        Option<Seq<char>>,
        Option<ReasoningEffort>,
        u64,
        Option<Seq<char>>,
        bool,
    ),
    Seq<char>,
> {
    if !prompt_event(event_name) {
        Err("skipping prompt hook in "@ + path + ": prompt hooks are not supported for "@
            + event_config_name(event_name))
    } else if is_blank(prompt) || utf8_len(prompt) > MAX_PROMPT_BYTES {
        Err("skipping invalid hook prompt in "@ + path)
    } else if model matches Some(m) && (is_blank(m) || trim(m) != m) {
        Err("skipping invalid prompt hook model in "@ + path)
    } else {
        let normalized_filter: Result<Option<(Seq<char>, u64)>, Seq<char>> = match filter {
            Some(f) => match spec_normalize_filter(f, windows, path) {
                Ok(nf) => Ok(Some(nf)),
                Err(w) => Err(w),
            },
            None => Ok(None),
        };
        match normalized_filter {
            Err(w) => Err(w),
            Ok(nf) => if timeout_sec matches Some(t) && !(1 <= t && t <= 600) {
                Err("skipping invalid prompt hook timeout in "@ + path)
            } else {
                Ok(
                    (
                        prompt,
                        nf,
                        model,
                        reasoning_effort,
                        match timeout_sec {
                            Some(t) => t,
                            None => DEFAULT_PROMPT_TIMEOUT_SEC,
                        },
                        match status_message {
                            Some(s) => if is_blank(s) {
                                None
                            } else {
                                Some(s)
                            },
                            None => None,
                        },
                        fail_closed,
                    ),
                )
            },
        }
    }
}

/// Validates a configured prompt handler: the event must support prompt
/// hooks, the prompt must be non-blank and at most 16 KiB, a model name must
/// be non-blank without surrounding white space, a filter must be valid and
/// a time limit must lie in 1..=600 seconds. Defaults: 30 seconds; a blank
/// status message is dropped.
pub fn normalize_prompt_handler(
    event_name: HookEventName,
    prompt: String,
    filter: Option<PromptHookFilterConfig>,
    model: Option<String>,
    reasoning_effort: Option<ReasoningEffort>,
    timeout_sec: Option<u64>,
    status_message: Option<String>,
    fail_closed: bool,
    windows: bool,
    path: &str,
) -> (r: Result<NormalizedPromptHandler, String>)
    ensures
        match r {
            Ok(n) => spec_normalize_prompt_handler(
                event_name,
                prompt@,
                filter,
                opt_view(model),
                reasoning_effort,
                timeout_sec,
                opt_view(status_message),
                fail_closed,
                windows,
                path@,
            ) == Ok::<
                (
                    Seq<char>,
                    Option<(Seq<char>, u64)>,
                    Option<Seq<char>>,
                    Option<ReasoningEffort>,
                    u64,
                    Option<Seq<char>>,
                    bool,
                ),
                Seq<char>,
            >(normalized_view(n)),
            Err(w) => spec_normalize_prompt_handler(
                event_name,
                prompt@,
                filter,
                opt_view(model),
                reasoning_effort,
                timeout_sec,
                opt_view(status_message),
                fail_closed,
                windows,
                path@,
            ) == Err::<
                (
                    Seq<char>,
                    Option<(Seq<char>, u64)>,
                    Option<Seq<char>>,
                    Option<ReasoningEffort>,
                    u64,
                    Option<Seq<char>>,
                    bool,
                ),
                Seq<char>,
            >(w@),
        },
{
    if !supports_event(event_name) {
        let mut w = owned("skipping prompt hook in ");
        push_str(&mut w, path);
        push_str(&mut w, ": prompt hooks are not supported for ");
        push_str(&mut w, hook_event_name_label(event_name));
        return Err(w);
    }
    if str_is_blank(prompt.as_str()) || utf8_len_of(prompt.as_str()) > MAX_PROMPT_BYTES as u128 {
        let mut w = owned("skipping invalid hook prompt in ");
        push_str(&mut w, path);
        return Err(w);
    }
    let model_invalid = match &model {
        Some(m) => {
            let trimmed = trim_str(m.as_str());
            str_is_blank(m.as_str()) || !str_eq(trimmed.as_str(), m.as_str())
        },
        None => false,
    };
    if model_invalid {
        let mut w = owned("skipping invalid prompt hook model in ");
        push_str(&mut w, path);
        return Err(w);
    }
    let normalized_filter = match filter {
        Some(f) => match normalize_prompt_filter(f, windows, path) {
            Ok(nf) => Some(nf),
            Err(w) => {
                return Err(w);
            },
        },
        None => None,
    };
    let timeout = match timeout_sec {
        Some(t) => {
            if t < 1 || t > 600 {
                let mut w = owned("skipping invalid prompt hook timeout in ");
                push_str(&mut w, path);
                return Err(w);
            }
            t
        },
        None => DEFAULT_PROMPT_TIMEOUT_SEC,
    };
    let status = match status_message {
        Some(s) => {
            if str_is_blank(s.as_str()) {
                None
            } else {
                Some(s)
            }
        },
        None => None,
    };
    Ok(
        NormalizedPromptHandler {
            prompt,
            filter: normalized_filter,
            model,
            reasoning_effort,
            timeout_sec: timeout,
            status_message: status,
            fail_closed,
        },
    )
}

/// The placeholder `${name}` of a source variable.
pub open spec fn env_placeholder(name: Seq<char>) -> Seq<char> {
    "${"@ + name + "}"@
}

/// A filter command with each source variable's placeholder replaced by its
/// value, variables taken in order.
pub open spec fn substitute_env(command: Seq<char>, env: Seq<(Seq<char>, Seq<char>)>) -> Seq<char>
    decreases env.len(),
{
    if env.len() == 0 {
        command
    } else {
        substitute_env(
            replace_all(command, env_placeholder(env[0].0), env[0].1),
            env.drop_first(),
        )
    }
}

/// The variables as (name, value) text pairs.
pub open spec fn vars_view(env: Seq<(String, String)>) -> Seq<(Seq<char>, Seq<char>)> {
    env.map_values(|e: (String, String)| (e.0@, e.1@))
}

/// Replaces the `${NAME}` placeholders of the source's variables in a filter command.
pub fn substitute_filter_command(command: String, env: &Vec<(String, String)>) -> (r: String)
    ensures
        r@ == substitute_env(command@, vars_view(env@)),
{
    let ghost all = vars_view(env@);
    let mut current = command;
    let mut i: usize = 0;
    assert(all.subrange(0, all.len() as int) =~= all);
    while i < env.len()
        invariant
            i <= env@.len(),
            all == vars_view(env@),
            substitute_env(command@, all) == substitute_env(
                current@,
                all.subrange(i as int, all.len() as int),
            ),
        decreases env@.len() - i,
    {
        let ghost rest = all.subrange(i as int, all.len() as int);
        assert(rest.drop_first() =~= all.subrange(i + 1, all.len() as int));
        assert(rest[0] == all[i as int]);
        let mut placeholder = owned("${");
        push_str(&mut placeholder, env[i].0.as_str());
        push_str(&mut placeholder, "}");
        proof {
            reveal_strlit("${");
            reveal_strlit("}");
        }
        current = replace_str(current.as_str(), placeholder.as_str(), env[i].1.as_str());
        i = i + 1;
    }
    current
}

/// Whether a listed handler also enters the runtime list: it must be
/// enabled, and managed or trusted unless trust checks are bypassed.
pub open spec fn registers(enabled: bool, bypass_hook_trust: bool, trust_status: HookTrustStatus) -> bool {
    enabled && (bypass_hook_trust || trust_status == HookTrustStatus::Managed || trust_status
        == HookTrustStatus::Trusted)
}

fn clone_opt(s: &Option<String>) -> (r: Option<String>)
    ensures
        r == *s,
{
    match s {
        Some(v) => Some(v.clone()),
        None => None,
    }
}

/// What recording a normalized prompt handler does to the runtime list,
/// the hook listing and the display order: the listing gains the handler's
/// entry (its filter command after variable substitution), the runtime list
/// gains the handler when it `registers`, and the display order advances.
pub open spec fn prompt_handler_recorded(
    old_handlers: Seq<ConfiguredHandler>,
    new_handlers: Seq<ConfiguredHandler>,
    old_entries: Seq<HookListEntry>,
    new_entries: Seq<HookListEntry>,
    old_order: i64,
    new_order: i64,
    source: HookHandlerSource,
    event_name: HookEventName,
    matcher: Option<String>,
    key: String,
    handler: NormalizedPromptHandler,
    enabled: bool,
    trust_status: HookTrustStatus,
    current_hash: String,
) -> bool {
    &&& new_order == old_order + 1
    &&& new_entries.len() == old_entries.len() + 1
    &&& new_entries.drop_last() == old_entries
    &&& ({
        let e = new_entries.last();
        &&& e.key == key
        &&& e.event_name == event_name
        &&& e.handler == HookListEntryHandler::Prompt
        &&& e.prompt == Some(handler.prompt)
        &&& e.model == handler.model
        &&& e.reasoning_effort == handler.reasoning_effort
        &&& e.fail_closed == Some(handler.fail_closed)
        &&& e.timeout_sec == handler.timeout_sec
        &&& e.status_message == handler.status_message
        &&& e.display_order == old_order
        &&& e.enabled == enabled
        &&& e.trust_status == trust_status
        &&& e.current_hash == current_hash
        &&& e.is_managed == source.is_managed
        &&& e.matcher == matcher
        &&& e.source_path == source.path
        &&& e.source == source.source
        &&& e.plugin_id == source.plugin_id
        &&& e.additional_context_limit is None
        &&& match handler.filter {
            Some(f) => e.filter matches Some(lf) && lf.command@ == substitute_env(
                f.command@,
                vars_view(source.env@),
            ) && lf.timeout_sec == Some(f.timeout_sec) && lf.command_windows is None,
            None => e.filter is None,
        }
    })
    &&& registers(enabled, source.bypass_hook_trust, trust_status) ==> {
        &&& new_handlers.len() == old_handlers.len() + 1
        &&& new_handlers.drop_last() == old_handlers
        &&& new_handlers.last().event_name == event_name
        &&& new_handlers.last().display_order == old_order
        &&& new_handlers.last().status_message == handler.status_message
        &&& new_handlers.last().matcher == matcher
        &&& new_handlers.last().source_path == source.path
        &&& new_handlers.last().source == source.source
        &&& new_handlers.last().env@ == source.env@
        &&& new_handlers.last().additional_context_limit
            == crate::hooks::spill::DEFAULT_HOOK_OUTPUT_TOKEN_LIMIT
        &&& new_handlers.last().kind matches ConfiguredHandlerKind::Prompt {
            prompt,
            filter,
            model,
            reasoning_effort,
            timeout_sec,
            fail_closed,
        } && prompt == handler.prompt && model == handler.model && reasoning_effort
            == handler.reasoning_effort && timeout_sec == handler.timeout_sec && fail_closed
            == handler.fail_closed && match handler.filter {
            Some(f) => filter matches Some(rf) && rf.command@ == substitute_env(
                f.command@,
                vars_view(source.env@),
            ) && rf.timeout_sec == f.timeout_sec,
            None => filter is None,
        }
    }
    &&& !registers(enabled, source.bypass_hook_trust, trust_status) ==> new_handlers == old_handlers
}

/// Records a normalized prompt handler: always in the hook listing (with
/// its filter command after variable substitution), and in the runtime list
/// when it `registers`; the display order then advances.
pub fn register_prompt_handler(
    handlers: &mut Vec<ConfiguredHandler>,
    hook_entries: &mut Vec<HookListEntry>,
    display_order: &mut i64,
    source: &HookHandlerSource,
    event_name: HookEventName,
    matcher: Option<String>,
    key: String,
    handler: NormalizedPromptHandler,
    enabled: bool,
    trust_status: HookTrustStatus,
    current_hash: String,
)
    requires
        *old(display_order) < i64::MAX,
    ensures
        prompt_handler_recorded(
            old(handlers)@,
            final(handlers)@,
            old(hook_entries)@,
            final(hook_entries)@,
            *old(display_order),
            *final(display_order),
            *source,
            event_name,
            matcher,
            key,
            handler,
            enabled,
            trust_status,
            current_hash,
        ),
{
    let effective_filter = match &handler.filter {
        Some(f) => Some(
            ConfiguredPromptFilter {
                command: substitute_filter_command(f.command.clone(), &source.env),
                timeout_sec: f.timeout_sec,
            },
        ),
        None => None,
    };
    let listed_filter = match &effective_filter {
        Some(f) => Some(
            PromptHookFilterConfig {
                command: f.command.clone(),
                command_windows: None,
                timeout_sec: Some(f.timeout_sec),
            },
        ),
        None => None,
    };
    let order = *display_order;
    hook_entries.push(
        HookListEntry {
            key,
            event_name,
            handler: HookListEntryHandler::Prompt,
            matcher: clone_opt(&matcher),
            prompt: Some(handler.prompt.clone()),
            model: clone_opt(&handler.model),
            reasoning_effort: handler.reasoning_effort,
            filter: listed_filter,
            fail_closed: Some(handler.fail_closed),
            timeout_sec: handler.timeout_sec,
            status_message: clone_opt(&handler.status_message),
            additional_context_limit: None,
            source_path: source.path.clone(),
            source: source.source,
            plugin_id: clone_opt(&source.plugin_id),
            display_order: order,
            enabled,
            is_managed: source.is_managed,
            current_hash,
            trust_status,
        },
    );
    let trusted = trust_status == HookTrustStatus::Managed || trust_status
        == HookTrustStatus::Trusted;
    if enabled && (source.bypass_hook_trust || trusted) {
        let mut env: Vec<(String, String)> = Vec::new();
        let mut i: usize = 0;
        while i < source.env.len()
            invariant
                i <= source.env@.len(),
                env@ == source.env@.subrange(0, i as int),
            decreases source.env@.len() - i,
        {
            env.push((source.env[i].0.clone(), source.env[i].1.clone()));
            i = i + 1;
            assert(env@ =~= source.env@.subrange(0, i as int));
        }
        assert(source.env@.subrange(0, source.env@.len() as int) =~= source.env@);
        handlers.push(
            ConfiguredHandler {
                event_name,
                matcher,
                kind: ConfiguredHandlerKind::Prompt {
                    prompt: handler.prompt,
                    filter: effective_filter,
                    model: handler.model,
                    reasoning_effort: handler.reasoning_effort,
                    timeout_sec: handler.timeout_sec,
                    fail_closed: handler.fail_closed,
                },
                status_message: handler.status_message,
                additional_context_limit: crate::hooks::spill::DEFAULT_HOOK_OUTPUT_TOKEN_LIMIT,
                source_path: source.path.clone(),
                source: source.source,
                display_order: order,
                env,
            },
        );
    }
    *display_order = order + 1;
    proof {
        assert(hook_entries@.drop_last() =~= old(hook_entries)@);
        if !registers(enabled, source.bypass_hook_trust, trust_status) {
            assert(handlers@ =~= old(handlers)@);
        } else {
            assert(handlers@.drop_last() =~= old(handlers)@);
        }
    }
}


/// Validates one configured prompt handler and records it, as discovery does
/// for each prompt handler of a matcher group. A refused handler leaves its
/// warning and changes nothing else. An accepted one is recorded under its
/// positional key, with the hash that `hook_hash` gives of its event,
/// matcher and normalized definition, and the enabled flag and trust status
/// that `hook_state` gives for that key and hash.
pub fn append_prompt_handler<H, T>(
    handlers: &mut Vec<ConfiguredHandler>,
    hook_entries: &mut Vec<HookListEntry>,
    warnings: &mut Vec<String>,
    display_order: &mut i64,
    source: &HookHandlerSource,
    event_name: HookEventName,
    group_index: usize,
    handler_index: usize,
    matcher: Option<String>,
    prompt: String,
    filter: Option<PromptHookFilterConfig>,
    model: Option<String>,
    reasoning_effort: Option<ReasoningEffort>,
    timeout_sec: Option<u64>,
    status_message: Option<String>,
    fail_closed: bool,
    windows: bool,
    hook_hash: &H,
    hook_state: &T,
) -> (accepted: bool) where
    H: Fn(HookEventName, &Option<String>, &NormalizedPromptHandler) -> String,
    T: Fn(&String, &String) -> (bool, HookTrustStatus),

    requires
        spec_normalize_prompt_handler(
            event_name,
            prompt@,
            filter,
            opt_view(model),
            reasoning_effort,
            timeout_sec,
            opt_view(status_message),
            fail_closed,
            windows,
            source.path@,
        ) is Ok ==> *old(display_order) < i64::MAX,
        forall|e: HookEventName, m: &Option<String>, n: &NormalizedPromptHandler|
            hook_hash.requires((e, m, n)),
        forall|k: &String, h: &String| hook_state.requires((k, h)),
    ensures
        match spec_normalize_prompt_handler(
            event_name,
            prompt@,
            filter,
            opt_view(model),
            reasoning_effort,
            timeout_sec,
            opt_view(status_message),
            fail_closed,
            windows,
            source.path@,
        ) {
            Err(w) => {
                &&& !accepted
                &&& final(warnings)@.len() == old(warnings)@.len() + 1
                &&& final(warnings)@.drop_last() == old(warnings)@
                &&& final(warnings)@.last()@ == w
                &&& final(handlers)@ == old(handlers)@
                &&& final(hook_entries)@ == old(hook_entries)@
                &&& *final(display_order) == *old(display_order)
            },
            Ok(v) => {
                &&& accepted
                &&& final(warnings)@ == old(warnings)@
                &&& exists|
                    n: NormalizedPromptHandler,
                    key: String,
                    hash: String,
                    enabled: bool,
                    trust: HookTrustStatus,
                |
                    #![trigger prompt_handler_recorded(old(handlers)@, final(handlers)@, old(hook_entries)@, final(hook_entries)@, *old(display_order), *final(display_order), *source, event_name, matcher, key, n, enabled, trust, hash)]
                    {
                        &&& normalized_view(n) == v
                        &&& key@ == super::spec_hook_key(
                            source.key_source@,
                            event_name,
                            group_index as nat,
                            handler_index as nat,
                        )
                        &&& call_ensures(*hook_hash, (event_name, &matcher, &n), hash)
                        &&& call_ensures(*hook_state, (&key, &hash), (enabled, trust))
                        &&& prompt_handler_recorded(
                            old(handlers)@,
                            final(handlers)@,
                            old(hook_entries)@,
                            final(hook_entries)@,
                            *old(display_order),
                            *final(display_order),
                            *source,
                            event_name,
                            matcher,
                            key,
                            n,
                            enabled,
                            trust,
                            hash,
                        )
                    }
            },
        },
{
    let normalized = normalize_prompt_handler(
        event_name,
        prompt,
        filter,
        model,
        reasoning_effort,
        timeout_sec,
        status_message,
        fail_closed,
        windows,
        source.path.as_str(),
    );
    match normalized {
        Err(w) => {
            warnings.push(w);
            false
        },
        Ok(n) => {
            let hash = hook_hash(event_name, &matcher, &n);
            let key = super::hook_key(
                source.key_source.as_str(),
                event_name,
                group_index,
                handler_index,
            );
            let (enabled, trust) = hook_state(&key, &hash);
            let ghost n0 = n;
            let ghost matcher0 = matcher;
            let ghost key0 = key;
            let ghost hash0 = hash;
            register_prompt_handler(
                handlers,
                hook_entries,
                display_order,
                source,
                event_name,
                matcher,
                key,
                n,
                enabled,
                trust,
                hash,
            );
            assert(call_ensures(*hook_hash, (event_name, &matcher0, &n0), hash0));
            assert(call_ensures(*hook_state, (&key0, &hash0), (enabled, trust)));
            true
        },
    }
}

} // verus!
