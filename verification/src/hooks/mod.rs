//! Lifecycle hooks: event names, the keys under which per-hook state is
//! persisted, and the rules that decide how configured handlers run and what
//! their output means.

pub mod command;
pub mod discovery;
pub mod filter;
pub mod handler;
pub mod outcome;
pub mod prompt;
pub mod spill;

use crate::text::{push_decimal, push_str, str_eq, trim, trim_str, decimal};
use vstd::prelude::*;

verus! {

/// The lifecycle events that hooks can subscribe to.
#[derive(Clone, Copy, Debug, PartialEq, Eq, Hash, Structural)]
pub enum HookEventName {
    PreToolUse,
    PermissionRequest,
    ApprovalReviewRoute,
    PostToolUse,
    PreCompact,
    PostCompact,
    SessionStart,
    SessionEnd,
    UserPromptSubmit,
    SubagentStart,
    SubagentStop,
    Stop,
}

/// The label of an event in persisted hook-state keys.
pub open spec fn key_label(event_name: HookEventName) -> Seq<char> {
    match event_name {
        HookEventName::PreToolUse => "pre_tool_use"@,
        HookEventName::PermissionRequest => "permission_request"@,
        HookEventName::ApprovalReviewRoute => "approval_review_route"@,
        HookEventName::PostToolUse => "post_tool_use"@,
        HookEventName::PreCompact => "pre_compact"@,
        HookEventName::PostCompact => "post_compact"@,
        HookEventName::SessionStart => "session_start"@,
        HookEventName::SessionEnd => "session_end"@,
        HookEventName::UserPromptSubmit => "user_prompt_submit"@,
        HookEventName::SubagentStart => "subagent_start"@,
        HookEventName::SubagentStop => "subagent_stop"@,
        HookEventName::Stop => "stop"@,
    }
}

/// Returns the hook event label used in persisted hook-state keys.
pub fn hook_event_key_label(event_name: HookEventName) -> (r: &'static str)
    ensures
        r@ == key_label(event_name),
        r@ == snake_case(prompt::event_config_name(event_name)),
{
    proof {
        lemma_key_label_is_snake_case(event_name);
    }
    match event_name {
        HookEventName::PreToolUse => "pre_tool_use",
        HookEventName::PermissionRequest => "permission_request",
        HookEventName::ApprovalReviewRoute => "approval_review_route",
        HookEventName::PostToolUse => "post_tool_use",
        HookEventName::PreCompact => "pre_compact",
        HookEventName::PostCompact => "post_compact",
        HookEventName::SessionStart => "session_start",
        HookEventName::SessionEnd => "session_end",
        HookEventName::UserPromptSubmit => "user_prompt_submit",
        HookEventName::SubagentStart => "subagent_start",
        HookEventName::SubagentStop => "subagent_stop",
        HookEventName::Stop => "stop",
    }
}

/// A character in lower case (ASCII letters only).
pub open spec fn ascii_lower(c: char) -> char {
    if 'A' <= c && c <= 'Z' {
        ((c as u32) + 32) as char
    } else {
        c
    }
}

/// The snake_case form of a CamelCase name: every capital letter but the
/// first is preceded by an underscore, and all letters are lower case.
pub open spec fn snake_case(name: Seq<char>) -> Seq<char>
    decreases name.len(),
{
    if name.len() == 0 {
        Seq::empty()
    } else if 'A' <= name.last() && name.last() <= 'Z' && name.len() > 1 {
        snake_case(name.drop_last()) + seq!['_', ascii_lower(name.last())]
    } else {
        snake_case(name.drop_last()).push(ascii_lower(name.last()))
    }
}

/// The key label of an event is the snake_case form of its name as
/// configuration files spell it: `SessionStart` gives `session_start`.
pub proof fn lemma_key_label_is_snake_case(e: HookEventName)
    ensures
        key_label(e) == snake_case(prompt::event_config_name(e)),
{
    match e {
        HookEventName::PreToolUse => lemma_snake_case_pre_tool_use(),
        HookEventName::PermissionRequest => lemma_snake_case_permission_request(),
        HookEventName::ApprovalReviewRoute => lemma_snake_case_approval_review_route(),
        HookEventName::PostToolUse => lemma_snake_case_post_tool_use(),
        HookEventName::PreCompact => lemma_snake_case_pre_compact(),
        HookEventName::PostCompact => lemma_snake_case_post_compact(),
        HookEventName::SessionStart => lemma_snake_case_session_start(),
        HookEventName::SessionEnd => lemma_snake_case_session_end(),
        HookEventName::UserPromptSubmit => lemma_snake_case_user_prompt_submit(),
        HookEventName::SubagentStart => lemma_snake_case_subagent_start(),
        HookEventName::SubagentStop => lemma_snake_case_subagent_stop(),
        HookEventName::Stop => lemma_snake_case_stop(),
    }
}

proof fn lemma_snake_case_pre_tool_use()
    ensures
        snake_case("PreToolUse"@) == "pre_tool_use"@,
{
    reveal_with_fuel(snake_case, 22);
    reveal_strlit("PreToolUse");
    reveal_strlit("pre_tool_use");
    assert(snake_case("PreToolUse"@) =~= "pre_tool_use"@);
}

proof fn lemma_snake_case_permission_request()
    ensures
        snake_case("PermissionRequest"@) == "permission_request"@,
{
    reveal_with_fuel(snake_case, 22);
    reveal_strlit("PermissionRequest");
    reveal_strlit("permission_request");
    assert(snake_case("PermissionRequest"@) =~= "permission_request"@);
}

proof fn lemma_snake_case_approval_review_route()
    ensures
        snake_case("ApprovalReviewRoute"@) == "approval_review_route"@,
{
    reveal_with_fuel(snake_case, 22);
    reveal_strlit("ApprovalReviewRoute");
    reveal_strlit("approval_review_route");
    assert(snake_case("ApprovalReviewRoute"@) =~= "approval_review_route"@);
}

proof fn lemma_snake_case_post_tool_use()
    ensures
        snake_case("PostToolUse"@) == "post_tool_use"@,
{
    reveal_with_fuel(snake_case, 22);
    reveal_strlit("PostToolUse");
    reveal_strlit("post_tool_use");
    assert(snake_case("PostToolUse"@) =~= "post_tool_use"@);
}

proof fn lemma_snake_case_pre_compact()
    ensures
        snake_case("PreCompact"@) == "pre_compact"@,
{
    reveal_with_fuel(snake_case, 22);
    reveal_strlit("PreCompact");
    reveal_strlit("pre_compact");
    assert(snake_case("PreCompact"@) =~= "pre_compact"@);
}

proof fn lemma_snake_case_post_compact()
    ensures
        snake_case("PostCompact"@) == "post_compact"@,
{
    reveal_with_fuel(snake_case, 22);
    reveal_strlit("PostCompact");
    reveal_strlit("post_compact");
    assert(snake_case("PostCompact"@) =~= "post_compact"@);
}

proof fn lemma_snake_case_session_start()
    ensures
        snake_case("SessionStart"@) == "session_start"@,
{
    reveal_with_fuel(snake_case, 22);
    reveal_strlit("SessionStart");
    reveal_strlit("session_start");
    assert(snake_case("SessionStart"@) =~= "session_start"@);
}

proof fn lemma_snake_case_session_end()
    ensures
        snake_case("SessionEnd"@) == "session_end"@,
{
    reveal_with_fuel(snake_case, 22);
    reveal_strlit("SessionEnd");
    reveal_strlit("session_end");
    assert(snake_case("SessionEnd"@) =~= "session_end"@);
}

proof fn lemma_snake_case_user_prompt_submit()
    ensures
        snake_case("UserPromptSubmit"@) == "user_prompt_submit"@,
{
    reveal_with_fuel(snake_case, 22);
    reveal_strlit("UserPromptSubmit");
    reveal_strlit("user_prompt_submit");
    assert(snake_case("UserPromptSubmit"@) =~= "user_prompt_submit"@);
}

proof fn lemma_snake_case_subagent_start()
    ensures
        snake_case("SubagentStart"@) == "subagent_start"@,
{
    reveal_with_fuel(snake_case, 22);
    reveal_strlit("SubagentStart");
    reveal_strlit("subagent_start");
    assert(snake_case("SubagentStart"@) =~= "subagent_start"@);
}

proof fn lemma_snake_case_subagent_stop()
    ensures
        snake_case("SubagentStop"@) == "subagent_stop"@,
{
    reveal_with_fuel(snake_case, 22);
    reveal_strlit("SubagentStop");
    reveal_strlit("subagent_stop");
    assert(snake_case("SubagentStop"@) =~= "subagent_stop"@);
}

proof fn lemma_snake_case_stop()
    ensures
        snake_case("Stop"@) == "stop"@,
{
    reveal_with_fuel(snake_case, 22);
    reveal_strlit("Stop");
    reveal_strlit("stop");
    assert(snake_case("Stop"@) =~= "stop"@);
}

/// Distinct events have distinct key labels, so the positional keys of
/// hooks of different events never collide.
pub proof fn lemma_key_label_injective(a: HookEventName, b: HookEventName)
    ensures
        key_label(a) == key_label(b) ==> a == b,
{
    reveal_strlit("pre_tool_use");
    reveal_strlit("permission_request");
    reveal_strlit("approval_review_route");
    reveal_strlit("post_tool_use");
    reveal_strlit("pre_compact");
    reveal_strlit("post_compact");
    reveal_strlit("session_start");
    reveal_strlit("session_end");
    reveal_strlit("user_prompt_submit");
    reveal_strlit("subagent_start");
    reveal_strlit("subagent_stop");
    reveal_strlit("stop");
    // The length and first two characters already tell all labels apart.
    assert forall|e: HookEventName| #[trigger] label_fingerprint(key_label(e)) == match e {
        HookEventName::PreToolUse => (12nat, 'p', 'r'),
        HookEventName::PermissionRequest => (18nat, 'p', 'e'),
        HookEventName::ApprovalReviewRoute => (21nat, 'a', 'p'),
        HookEventName::PostToolUse => (13nat, 'p', 'o'),
        HookEventName::PreCompact => (11nat, 'p', 'r'),
        HookEventName::PostCompact => (12nat, 'p', 'o'),
        HookEventName::SessionStart => (13nat, 's', 'e'),
        HookEventName::SessionEnd => (11nat, 's', 'e'),
        HookEventName::UserPromptSubmit => (18nat, 'u', 's'),
        HookEventName::SubagentStart => (14nat, 's', 'u'),
        HookEventName::SubagentStop => (13nat, 's', 'u'),
        HookEventName::Stop => (4nat, 's', 't'),
    } by {}
    assert(label_fingerprint(key_label(a)) == label_fingerprint(key_label(b)) ==> a == b);
}

/// The length and the first two characters of a label.
spec fn label_fingerprint(label: Seq<char>) -> (nat, char, char) {
    (label.len(), label[0], label[1])
}

/// The positional key `source:event:group:handler`.
pub open spec fn spec_hook_key(
    key_source: Seq<char>,
    event_name: HookEventName,
    group_index: nat,
    handler_index: nat,
) -> Seq<char> {
    key_source + ":"@ + key_label(event_name) + ":"@ + decimal(group_index) + ":"@ + decimal(
        handler_index,
    )
}

/// The durable key `source:event:id`.
pub open spec fn spec_durable_hook_key(
    key_source: Seq<char>,
    event_name: HookEventName,
    id: Seq<char>,
) -> Seq<char> {
    key_source + ":"@ + key_label(event_name) + ":"@ + id
}

/// Builds the legacy positional config-state key for one discovered hook handler.
pub fn hook_key(key_source: &str, event_name: HookEventName, group_index: usize, handler_index: usize) -> (r:
    String)
    ensures
        r@ == spec_hook_key(key_source@, event_name, group_index as nat, handler_index as nat),
{
    let mut r = String::new();
    push_str(&mut r, key_source);
    push_str(&mut r, ":");
    push_str(&mut r, hook_event_key_label(event_name));
    push_str(&mut r, ":");
    push_decimal(&mut r, group_index as u64);
    push_str(&mut r, ":");
    push_decimal(&mut r, handler_index as u64);
    r
}

/// Builds a durable config-state key when the handler declares a stable `id`.
pub fn durable_hook_key(key_source: &str, event_name: HookEventName, id: &str) -> (r: String)
    ensures
        r@ == spec_durable_hook_key(key_source@, event_name, id@),
{
    let mut r = String::new();
    push_str(&mut r, key_source);
    push_str(&mut r, ":");
    push_str(&mut r, hook_event_key_label(event_name));
    push_str(&mut r, ":");
    push_str(&mut r, id);
    r
}

/// Characters allowed in a durable hook id: ASCII letters, digits, `.`, `_` and `-`.
pub open spec fn is_hook_id_char(c: char) -> bool {
    ||| ('a' <= c && c <= 'z')
    ||| ('A' <= c && c <= 'Z')
    ||| ('0' <= c && c <= '9')
    ||| c == '.'
    ||| c == '_'
    ||| c == '-'
}

/// A non-empty id made only of allowed characters (so never a `:`, which
/// separates key segments).
pub open spec fn valid_hook_id(id: Seq<char>) -> bool {
    id.len() > 0 && forall|i: int| 0 <= i < id.len() ==> is_hook_id_char(#[trigger] id[i])
}

/// Returns true when `id` is a non-empty durable hook identifier.
///
/// Allowed characters: ASCII letters, digits, `.`, `_`, and `-`. Colon is rejected because it
/// separates key segments.
pub fn is_valid_hook_id(id: &str) -> (b: bool)
    ensures
        b == valid_hook_id(id@),
{
    let n = id.unicode_len();
    if n == 0 {
        return false;
    }
    let mut i: usize = 0;
    while i < n
        invariant
            n == id@.len(),
            i <= n,
            forall|j: int| 0 <= j < i ==> is_hook_id_char(#[trigger] id@[j]),
        decreases n - i,
    {
        let c = id.get_char(i);
        let ok = ('a' <= c && c <= 'z') || ('A' <= c && c <= 'Z') || ('0' <= c && c <= '9') || c
            == '.' || c == '_' || c == '-';
        if !ok {
            return false;
        }
        i = i + 1;
    }
    true
}

/// The Debug rendering of a string: quoted, with escapes.
pub uninterp spec fn debug_quoted(s: Seq<char>) -> Seq<char>;

/// Renders `s` as `format!("{s:?}")` does. The result is named by
/// `debug_quoted`; the one fact stated of it is that text made only of
/// hook-id characters, which `char::escape_debug` leaves alone, comes back
/// between double quotes unchanged.
#[verifier::external_body]
fn debug_str(s: &str) -> (r: String)
    ensures
        r@ == debug_quoted(s@),
        (forall|i: int| 0 <= i < s@.len() ==> is_hook_id_char(#[trigger] s@[i])) ==> r@ == seq!['"']
            + s@ + seq!['"'],
{
    format!("{:?}", s)
}

/// Resolved persisted key plus the legacy positional key used for dual-read migration.
#[derive(Debug, Clone, PartialEq, Eq)]
pub struct ResolvedHookKey {
    pub key: String,
    pub legacy_key: String,
}

/// The value stored under `key`: that of its first entry.
pub open spec fn state_for<V>(states: Seq<(String, V)>, key: Seq<char>) -> Option<V>
    decreases states.len(),
{
    if states.len() == 0 {
        None
    } else if states[0].0@ == key {
        Some(states[0].1)
    } else {
        state_for(states.drop_first(), key)
    }
}

impl ResolvedHookKey {
    /// What a lookup finds: the state under the durable key, else (when the
    /// keys differ) the state under the legacy key.
    pub open spec fn spec_lookup<V>(&self, states: Seq<(String, V)>) -> Option<V> {
        match state_for(states, self.key@) {
            Some(v) => Some(v),
            None => if self.key@ == self.legacy_key@ {
                None
            } else {
                state_for(states, self.legacy_key@)
            },
        }
    }

    /// Looks the handler's state up, preferring the durable key.
    pub fn lookup<'a, V>(&self, states: &'a [(String, V)]) -> (r: Option<&'a V>)
        ensures
            match r {
                Some(v) => self.spec_lookup(states@) == Some(*v),
                None => self.spec_lookup(states@) is None,
            },
    {
        match find_state(states, self.key.as_str()) {
            Some(v) => Some(v),
            None => {
                if str_eq(self.key.as_str(), self.legacy_key.as_str()) {
                    None
                } else {
                    find_state(states, self.legacy_key.as_str())
                }
            },
        }
    }
}

fn find_state<'a, V>(states: &'a [(String, V)], key: &str) -> (r: Option<&'a V>)
    ensures
        match r {
            Some(v) => state_for(states@, key@) == Some(*v),
            None => state_for(states@, key@) is None,
        },
{
    let mut i: usize = 0;
    assert(states@.subrange(0, states@.len() as int) =~= states@);
    while i < states.len()
        invariant
            i <= states@.len(),
            state_for(states@, key@) == state_for(states@.subrange(i as int, states@.len() as int), key@),
        decreases states@.len() - i,
    {
        let ghost rest = states@.subrange(i as int, states@.len() as int);
        assert(rest.drop_first() =~= states@.subrange(i + 1, states@.len() as int));
        assert(rest[0] == states@[i as int]);
        if str_eq(states[i].0.as_str(), key) {
            return Some(&states[i].1);
        }
        i = i + 1;
    }
    None
}

/// The ids in a seen-set, as text.
pub open spec fn seen_view(seen: Seq<String>) -> Seq<Seq<char>> {
    seen.map_values(|s: String| s@)
}

/// The configured id after trimming, when it is not blank.
pub open spec fn effective_id(configured_id: Option<Seq<char>>) -> Option<Seq<char>> {
    match configured_id {
        Some(id) => if trim(id).len() == 0 {
            None
        } else {
            Some(trim(id))
        },
        None => None,
    }
}

/// The message for an id with characters that are not allowed.
pub open spec fn invalid_id_message(id: Seq<char>) -> Seq<char> {
    "invalid hook id "@ + debug_quoted(id) + ": use letters, digits, '.', '_', or '-'"@
}

/// The message for an id that this source already used for the event.
pub open spec fn duplicate_id_message(id: Seq<char>, event_name: HookEventName) -> Seq<char> {
    "duplicate hook id \""@ + id + "\" for event "@ + key_label(event_name)
        + "; falling back to positional key"@
}

/// What resolving a hook key gives: the (key, legacy key) pair or an error
/// message, and the seen-set afterwards.
pub open spec fn spec_resolve_hook_key(
    key_source: Seq<char>,
    event_name: HookEventName,
    group_index: nat,
    handler_index: nat,
    configured_id: Option<Seq<char>>,
    seen: Seq<Seq<char>>,
) -> (Result<(Seq<char>, Seq<char>), Seq<char>>, Seq<Seq<char>>) {
    let legacy = spec_hook_key(key_source, event_name, group_index, handler_index);
    match effective_id(configured_id) {
        None => (Ok((legacy, legacy)), seen),
        Some(id) => if !valid_hook_id(id) {
            (Err(invalid_id_message(id)), seen)
        } else if seen.contains(id) {
            (Err(duplicate_id_message(id, event_name)), seen)
        } else {
            (Ok((spec_durable_hook_key(key_source, event_name, id), legacy)), seen.push(id))
        },
    }
}

/// `spec_resolve_hook_key` on the arguments of `resolve_hook_key`.
pub open spec fn resolve_for(
    key_source: &str,
    event_name: HookEventName,
    group_index: usize,
    handler_index: usize,
    configured_id: Option<&str>,
    seen: Seq<String>,
) -> (Result<(Seq<char>, Seq<char>), Seq<char>>, Seq<Seq<char>>) {
    spec_resolve_hook_key(
        key_source@,
        event_name,
        group_index as nat,
        handler_index as nat,
        match configured_id {
            Some(id) => Some(id@),
            None => None,
        },
        seen_view(seen),
    )
}

fn seen_contains(seen: &Vec<String>, id: &str) -> (b: bool)
    ensures
        b == seen_view(seen@).contains(id@),
{
    let mut i: usize = 0;
    while i < seen.len()
        invariant
            i <= seen@.len(),
            forall|j: int| 0 <= j < i ==> (#[trigger] seen@[j])@ != id@,
        decreases seen@.len() - i,
    {
        if str_eq(seen[i].as_str(), id) {
            assert(seen_view(seen@)[i as int] == id@);
            return true;
        }
        i = i + 1;
    }
    proof {
        if seen_view(seen@).contains(id@) {
            let j = choose|j: int| 0 <= j < seen_view(seen@).len() && seen_view(seen@)[j] == id@;
            assert(seen@[j]@ == id@);
        }
    }
    false
}

/// Chooses a durable or positional hook-state key and tracks per-source event id uniqueness.
pub fn resolve_hook_key(
    key_source: &str,
    event_name: HookEventName,
    group_index: usize,
    handler_index: usize,
    configured_id: Option<&str>,
    seen_ids: &mut Vec<String>,
) -> (r: Result<ResolvedHookKey, String>)
    ensures
        seen_view(final(seen_ids)@) == resolve_for(
            key_source,
            event_name,
            group_index,
            handler_index,
            configured_id,
            old(seen_ids)@,
        ).1,
        match r {
            Ok(k) => resolve_for(
                key_source,
                event_name,
                group_index,
                handler_index,
                configured_id,
                old(seen_ids)@,
            ).0 == Ok::<(Seq<char>, Seq<char>), Seq<char>>((k.key@, k.legacy_key@)),
            Err(e) => resolve_for(
                key_source,
                event_name,
                group_index,
                handler_index,
                configured_id,
                old(seen_ids)@,
            ).0 == Err::<(Seq<char>, Seq<char>), Seq<char>>(e@),
        },
{
    let legacy_key = hook_key(key_source, event_name, group_index, handler_index);
    let raw_id = match configured_id {
        Some(id) => trim_str(id),
        None => {
            let key = legacy_key.clone();
            return Ok(ResolvedHookKey { key, legacy_key });
        },
    };
    if raw_id.unicode_len() == 0 {
        let key = legacy_key.clone();
        return Ok(ResolvedHookKey { key, legacy_key });
    }
    if !is_valid_hook_id(raw_id.as_str()) {
        let mut message = String::new();
        push_str(&mut message, "invalid hook id ");
        let quoted = debug_str(raw_id.as_str());
        push_str(&mut message, quoted.as_str());
        push_str(&mut message, ": use letters, digits, '.', '_', or '-'");
        return Err(message);
    }
    if seen_contains(seen_ids, raw_id.as_str()) {
        let mut message = String::new();
        push_str(&mut message, "duplicate hook id \"");
        push_str(&mut message, raw_id.as_str());
        push_str(&mut message, "\" for event ");
        push_str(&mut message, hook_event_key_label(event_name));
        push_str(&mut message, "; falling back to positional key");
        return Err(message);
    }
    let key = durable_hook_key(key_source, event_name, raw_id.as_str());
    let ghost before = seen_ids@;
    seen_ids.push(raw_id);
    assert(seen_view(seen_ids@) =~= seen_view(before).push(trim(configured_id.unwrap()@)));
    Ok(ResolvedHookKey { key, legacy_key })
}

/// A durable id is accepted at most once per seen-set: once a key resolved
/// to it, resolving the same id again against the updated set is refused.
pub proof fn lemma_durable_id_accepted_once(
    key_source: Seq<char>,
    event_name: HookEventName,
    group_index: nat,
    handler_index: nat,
    other_group_index: nat,
    other_handler_index: nat,
    id: Seq<char>,
    seen: Seq<Seq<char>>,
)
    requires
        valid_hook_id(trim(id)),
        spec_resolve_hook_key(key_source, event_name, group_index, handler_index, Some(id), seen).0 is Ok,
    ensures
        spec_resolve_hook_key(
            key_source,
            event_name,
            other_group_index,
            other_handler_index,
            Some(id),
            spec_resolve_hook_key(key_source, event_name, group_index, handler_index, Some(id), seen).1,
        ).0 is Err,
{
    let after = spec_resolve_hook_key(key_source, event_name, group_index, handler_index, Some(id), seen).1;
    assert(after == seen.push(trim(id)));
    assert(after[seen.len() as int] == trim(id));
}

/// Without a usable configured id the key is the positional one, and the
/// legacy key is always the positional one.
pub proof fn lemma_legacy_key_is_positional(
    key_source: Seq<char>,
    event_name: HookEventName,
    group_index: nat,
    handler_index: nat,
    configured_id: Option<Seq<char>>,
    seen: Seq<Seq<char>>,
)
    ensures
        spec_resolve_hook_key(key_source, event_name, group_index, handler_index, configured_id, seen).0 matches Ok(
            (key, legacy),
        ) ==> legacy == spec_hook_key(key_source, event_name, group_index, handler_index),
        effective_id(configured_id) is None ==> spec_resolve_hook_key(
            key_source,
            event_name,
            group_index,
            handler_index,
            configured_id,
            seen,
        ).0 == Ok::<(Seq<char>, Seq<char>), Seq<char>>(
            (
                spec_hook_key(key_source, event_name, group_index, handler_index),
                spec_hook_key(key_source, event_name, group_index, handler_index),
            ),
        ),
{
}

} // verus!
