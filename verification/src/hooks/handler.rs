//! Configured hook handlers: what kind of work each runs, how it runs and
//! which of them a permission request waits for.

use super::HookEventName;
use crate::text::{push_signed_decimal, push_str, signed_decimal};
use vstd::prelude::*;

verus! {

/// Where a hook was configured.
#[derive(Clone, Copy, Debug, PartialEq, Eq, Hash, Structural)]
pub enum HookSource {
    System,
    User,
    Project,
    Plugin,
}

/// Whether a hook runs inline with the event or in the background.
#[derive(Clone, Copy, Debug, PartialEq, Eq, Structural)]
pub enum HookExecutionMode {
    Sync,
    Async,
}

/// The kind of work a hook handler does.
#[derive(Clone, Copy, Debug, PartialEq, Eq, Structural)]
pub enum HookHandlerType {
    Command,
    McpTool,
    Prompt,
}

/// How much reasoning a prompt hook asks of the model.
#[derive(Clone, Copy, Debug, PartialEq, Eq, Structural)]
pub enum ReasoningEffort {
    Disabled,
    Minimal,
    Low,
    Medium,
    High,
    XHigh,
}

/// A command that decides, before a prompt hook runs, whether the model is consulted.
#[derive(Clone, Debug, PartialEq, Eq)]
pub struct ConfiguredPromptFilter {
    pub command: String,
    pub timeout_sec: u64,
}

/// What a configured handler runs.
#[derive(Clone, Debug, PartialEq, Eq)]
pub enum ConfiguredHandlerKind {
    Command { command: String, timeout_sec: u64, run_async: bool },
    McpTool { server: String, tool: String, timeout_sec: u64 },
    Prompt {
        prompt: String,
        filter: Option<ConfiguredPromptFilter>,
        model: Option<String>,
        reasoning_effort: Option<ReasoningEffort>,
        timeout_sec: u64,
        fail_closed: bool,
    },
}

/// A hook handler as discovered in configuration.
#[derive(Clone, Debug, PartialEq, Eq)]
pub struct ConfiguredHandler {
    pub event_name: HookEventName,
    pub matcher: Option<String>,
    pub kind: ConfiguredHandlerKind,
    pub status_message: Option<String>,
    /// Most characters of additional context that one run may contribute.
    pub additional_context_limit: usize,
    /// The configuration file, as displayed.
    pub source_path: String,
    pub source: HookSource,
    pub display_order: i64,
    /// Environment entries, in configuration order.
    pub env: Vec<(String, String)>,
}

/// How a handler appears in a hook listing.
#[derive(Clone, Debug, PartialEq, Eq)]
pub enum HookListEntryHandler {
    Command { command: String, run_async: bool },
    McpTool { server: String, tool: String },
    Prompt,
    Agent,
}

/// The label of an event in hook run ids.
pub open spec fn run_label(event_name: HookEventName) -> Seq<char> {
    match event_name {
        HookEventName::PreToolUse => "pre-tool-use"@,
        HookEventName::PermissionRequest => "permission-request"@,
        HookEventName::ApprovalReviewRoute => "approval-review-route"@,
        HookEventName::PostToolUse => "post-tool-use"@,
        HookEventName::PreCompact => "pre-compact"@,
        HookEventName::PostCompact => "post-compact"@,
        HookEventName::SessionStart => "session-start"@,
        HookEventName::SessionEnd => "session-end"@,
        HookEventName::UserPromptSubmit => "user-prompt-submit"@,
        HookEventName::SubagentStart => "subagent-start"@,
        HookEventName::SubagentStop => "subagent-stop"@,
        HookEventName::Stop => "stop"@,
    }
}

impl ConfiguredHandler {
    pub open spec fn spec_execution_mode(&self) -> HookExecutionMode {
        match self.kind {
            ConfiguredHandlerKind::Command { run_async: true, .. } => HookExecutionMode::Async,
            _ => HookExecutionMode::Sync,
        }
    }

    pub open spec fn spec_timeout_sec(&self) -> u64 {
        match self.kind {
            ConfiguredHandlerKind::Command { timeout_sec, .. } => timeout_sec,
            ConfiguredHandlerKind::McpTool { timeout_sec, .. } => timeout_sec,
            ConfiguredHandlerKind::Prompt { timeout_sec, .. } => timeout_sec,
        }
    }

    pub open spec fn spec_handler_type(&self) -> HookHandlerType {
        match self.kind {
            ConfiguredHandlerKind::Command { .. } => HookHandlerType::Command,
            ConfiguredHandlerKind::McpTool { .. } => HookHandlerType::McpTool,
            ConfiguredHandlerKind::Prompt { .. } => HookHandlerType::Prompt,
        }
    }

    pub open spec fn spec_fail_closed(&self) -> bool {
        match self.kind {
            ConfiguredHandlerKind::Prompt { fail_closed, .. } => fail_closed,
            _ => false,
        }
    }

    /// Background command hooks run asynchronously; every other handler runs inline.
    pub fn execution_mode(&self) -> (m: HookExecutionMode)
        ensures
            m == self.spec_execution_mode(),
    {
        match &self.kind {
            ConfiguredHandlerKind::Command { run_async, .. } => {
                if *run_async {
                    HookExecutionMode::Async
                } else {
                    HookExecutionMode::Sync
                }
            },
            ConfiguredHandlerKind::McpTool { .. } => HookExecutionMode::Sync,
            ConfiguredHandlerKind::Prompt { .. } => HookExecutionMode::Sync,
        }
    }

    /// Only synchronous hooks can apply control effects.
    pub fn can_apply_control_effects(&self) -> (b: bool)
        ensures
            b == (self.spec_execution_mode() == HookExecutionMode::Sync),
    {
        self.execution_mode() == HookExecutionMode::Sync
    }

    /// The handler's own time limit in seconds.
    pub fn timeout_sec(&self) -> (t: u64)
        ensures
            t == self.spec_timeout_sec(),
    {
        match &self.kind {
            ConfiguredHandlerKind::Command { timeout_sec, .. } => *timeout_sec,
            ConfiguredHandlerKind::McpTool { timeout_sec, .. } => *timeout_sec,
            ConfiguredHandlerKind::Prompt { timeout_sec, .. } => *timeout_sec,
        }
    }

    /// The run id `event:display_order:source_path`.
    pub fn run_id(&self) -> (r: String)
        ensures
            r@ == run_label(self.event_name) + ":"@ + signed_decimal(self.display_order as int) + ":"@
                + self.source_path@,
    {
        let mut r = String::new();
        push_str(&mut r, self.event_name_label());
        push_str(&mut r, ":");
        push_signed_decimal(&mut r, self.display_order);
        push_str(&mut r, ":");
        push_str(&mut r, self.source_path.as_str());
        r
    }

    /// The event's label in run ids.
    pub fn event_name_label(&self) -> (r: &'static str)
        ensures
            r@ == run_label(self.event_name),
    {
        match self.event_name {
            HookEventName::PreToolUse => "pre-tool-use",
            HookEventName::PermissionRequest => "permission-request",
            HookEventName::ApprovalReviewRoute => "approval-review-route",
            HookEventName::PostToolUse => "post-tool-use",
            HookEventName::PreCompact => "pre-compact",
            HookEventName::PostCompact => "post-compact",
            HookEventName::SessionStart => "session-start",
            HookEventName::SessionEnd => "session-end",
            HookEventName::UserPromptSubmit => "user-prompt-submit",
            HookEventName::SubagentStart => "subagent-start",
            HookEventName::SubagentStop => "subagent-stop",
            HookEventName::Stop => "stop",
        }
    }

    pub fn handler_type(&self) -> (t: HookHandlerType)
        ensures
            t == self.spec_handler_type(),
    {
        match &self.kind {
            ConfiguredHandlerKind::Command { .. } => HookHandlerType::Command,
            ConfiguredHandlerKind::McpTool { .. } => HookHandlerType::McpTool,
            ConfiguredHandlerKind::Prompt { .. } => HookHandlerType::Prompt,
        }
    }

    /// Whether a failure of this handler must be treated as a refusal.
    pub fn fail_closed(&self) -> (b: bool)
        ensures
            b == self.spec_fail_closed(),
    {
        match &self.kind {
            ConfiguredHandlerKind::Prompt { fail_closed, .. } => *fail_closed,
            ConfiguredHandlerKind::Command { .. } => false,
            ConfiguredHandlerKind::McpTool { .. } => false,
        }
    }
}

/// `a + b`, or `u64::MAX` when that does not fit.
pub open spec fn saturating_sum(a: u64, b: u64) -> u64 {
    if a + b > u64::MAX {
        u64::MAX
    } else {
        (a + b) as u64
    }
}

/// Whether a permission request waits for this handler.
pub open spec fn waits_for(h: ConfiguredHandler) -> bool {
    h.event_name == HookEventName::PermissionRequest && h.spec_execution_mode()
        == HookExecutionMode::Sync
}

/// How long a permission request may wait for one handler: its own limit
/// plus that of its prompt filter, if it has one.
pub open spec fn request_wait(h: ConfiguredHandler) -> u64 {
    let filter_timeout: u64 = match h.kind {
        ConfiguredHandlerKind::Prompt { filter: Some(f), .. } => f.timeout_sec,
        _ => 0,
    };
    saturating_sum(h.spec_timeout_sec(), filter_timeout)
}

/// The longest wait over the handlers that a permission request waits for (0 for none).
pub open spec fn longest_wait(hs: Seq<ConfiguredHandler>) -> u64
    decreases hs.len(),
{
    if hs.len() == 0 {
        0
    } else {
        let rest = longest_wait(hs.drop_last());
        if waits_for(hs.last()) && request_wait(hs.last()) > rest {
            request_wait(hs.last())
        } else {
            rest
        }
    }
}

proof fn lemma_longest_wait(hs: Seq<ConfiguredHandler>)
    ensures
        forall|i: int| 0 <= i < hs.len() && waits_for(#[trigger] hs[i]) ==> request_wait(hs[i])
            <= longest_wait(hs),
        longest_wait(hs) == 0 || exists|i: int|
            0 <= i < hs.len() && waits_for(#[trigger] hs[i]) && request_wait(hs[i])
                == longest_wait(hs),
    decreases hs.len(),
{
    if hs.len() > 0 {
        lemma_longest_wait(hs.drop_last());
        assert forall|i: int| 0 <= i < hs.len() && waits_for(#[trigger] hs[i]) implies request_wait(
            hs[i],
        ) <= longest_wait(hs) by {
            if i < hs.len() - 1 {
                assert(hs.drop_last()[i] == hs[i]);
            }
        }
        if longest_wait(hs) != 0 {
            if waits_for(hs.last()) && request_wait(hs.last()) > longest_wait(hs.drop_last()) {
                assert(hs[hs.len() - 1] == hs.last());
            } else {
                let i = choose|i: int|
                    0 <= i < hs.drop_last().len() && waits_for(#[trigger] hs.drop_last()[i])
                        && request_wait(hs.drop_last()[i]) == longest_wait(hs.drop_last());
                assert(hs[i] == hs.drop_last()[i]);
            }
        }
    }
}

/// A permission request waits for each of its synchronous handlers for the
/// handler's own limit, and for a prompt handler with a filter also for the
/// filter's limit (the sum capped at `u64::MAX`): the longest wait covers
/// every such handler, and with a single handler it is that handler's wait.
pub proof fn lemma_permission_wait_covers_each_handler(hs: Seq<ConfiguredHandler>, i: int)
    requires
        0 <= i < hs.len(),
        hs[i].event_name == HookEventName::PermissionRequest,
    ensures
        match hs[i].kind {
            ConfiguredHandlerKind::Prompt { timeout_sec, filter: Some(f), .. } => {
                let both = if timeout_sec + f.timeout_sec > u64::MAX {
                    u64::MAX as int
                } else {
                    timeout_sec + f.timeout_sec
                };
                &&& longest_wait(hs) >= both
                &&& hs.len() == 1 ==> longest_wait(hs) == both
            },
            ConfiguredHandlerKind::Prompt { timeout_sec, filter: None, .. } => longest_wait(hs) >= timeout_sec && (hs.len()
                == 1 ==> longest_wait(hs) == timeout_sec),
            ConfiguredHandlerKind::McpTool { timeout_sec, .. } => longest_wait(hs) >= timeout_sec && (hs.len() == 1
                ==> longest_wait(hs) == timeout_sec),
            ConfiguredHandlerKind::Command { timeout_sec, run_async, .. } => !run_async ==> longest_wait(hs)
                >= timeout_sec && (hs.len() == 1 ==> longest_wait(hs) == timeout_sec),
        },
{
    lemma_longest_wait(hs);
    assert(hs.len() == 1 ==> hs.drop_last() =~= Seq::<ConfiguredHandler>::empty());
}

fn request_wait_of(h: &ConfiguredHandler) -> (t: u64)
    ensures
        t == request_wait(*h),
{
    let filter_timeout: u64 = match &h.kind {
        ConfiguredHandlerKind::Prompt { filter: Some(f), .. } => f.timeout_sec,
        _ => 0,
    };
    let own = h.timeout_sec();
    if own > u64::MAX - filter_timeout {
        u64::MAX
    } else {
        own + filter_timeout
    }
}

/// The longest time, in seconds, that a permission request may wait for its
/// synchronous hooks (0 when none applies): no waited-for handler gets more
/// time than this, and when it is not 0 one of them needs all of it.
pub fn max_permission_request_timeout(handlers: &[ConfiguredHandler]) -> (secs: u64)
    ensures
        secs == longest_wait(handlers@),
        forall|i: int|
            0 <= i < handlers@.len() && waits_for(#[trigger] handlers@[i]) ==> request_wait(
                handlers@[i],
            ) <= secs,
        secs == 0 || exists|i: int|
            0 <= i < handlers@.len() && waits_for(#[trigger] handlers@[i]) && request_wait(
                handlers@[i],
            ) == secs,
        forall|i: int|
            #![trigger handlers@[i]]
            0 <= i < handlers@.len() && handlers@[i].event_name == HookEventName::PermissionRequest
                ==> {
                let hs = handlers@;
                match hs[i].kind {
                    ConfiguredHandlerKind::Prompt { timeout_sec, filter: Some(f), .. } => {
                        let both = if timeout_sec + f.timeout_sec > u64::MAX {
                            u64::MAX as int
                        } else {
                            timeout_sec + f.timeout_sec
                        };
                        &&& secs >= both
                        &&& hs.len() == 1 ==> secs == both
                    },
                    ConfiguredHandlerKind::Prompt { timeout_sec, filter: None, .. } => secs >= timeout_sec && (hs.len()
                        == 1 ==> secs == timeout_sec),
                    ConfiguredHandlerKind::McpTool { timeout_sec, .. } => secs >= timeout_sec && (hs.len() == 1
                        ==> secs == timeout_sec),
                    ConfiguredHandlerKind::Command { timeout_sec, run_async, .. } => !run_async ==> secs
                        >= timeout_sec && (hs.len() == 1 ==> secs == timeout_sec),
                }
            },
{
    let mut best: u64 = 0;
    let mut i: usize = 0;
    while i < handlers.len()
        invariant
            i <= handlers@.len(),
            best == longest_wait(handlers@.subrange(0, i as int)),
        decreases handlers@.len() - i,
    {
        let h = &handlers[i];
        proof {
            let sub = handlers@.subrange(0, i + 1);
            assert(sub.drop_last() =~= handlers@.subrange(0, i as int));
            assert(sub.last() == handlers@[i as int]);
        }
        if h.event_name == HookEventName::PermissionRequest && h.can_apply_control_effects() {
            let wait = request_wait_of(h);
            if wait > best {
                best = wait;
            }
        }
        i = i + 1;
    }
    proof {
        assert(handlers@.subrange(0, handlers@.len() as int) =~= handlers@);
        lemma_longest_wait(handlers@);
    }
    best
}

} // verus!
