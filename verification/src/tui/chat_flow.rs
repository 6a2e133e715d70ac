//! How the chat view routes feature items: which lifecycle handler an item
//! goes to, which spawn request a finished spawn is shown with, and whether
//! a finished mailbox action updates the active row.

use super::collab::{CollabAgentTool, CollabAgentToolCallStatus};
use super::collab_cells::SpawnRequestSummary;
use crate::text::str_eq;
use vstd::prelude::*;

verus! {

/// Whether an item arrives as started or as a status update.
#[derive(Clone, Copy, Debug, PartialEq, Eq, Structural)]
pub enum FeatureItemLifecycle {
    Started,
    Status,
}

/// The feature-owned kinds of thread items, with what routing reads of them.
#[derive(Clone, Copy, Debug, PartialEq, Eq, Structural)]
pub enum FeatureItem {
    AgentMailboxAction { in_progress: bool },
    MemoryMutation { in_progress: bool },
    CollabAgentToolCall,
    SubAgentActivity,
    Other,
}

/// The handler an item goes to.
#[derive(Clone, Copy, Debug, PartialEq, Eq, Structural)]
pub enum FeatureItemRoute {
    MailboxActionStarted,
    MailboxActionCompleted,
    MemoryMutationStarted,
    MemoryMutationCompleted,
    CollabAgentToolCall,
    SubAgentActivity,
    /// Not a feature item: the caller handles it.
    NotHandled,
}

/// Mailbox actions and memory mutations start when they arrive as started
/// or are still in progress, and complete otherwise.
pub open spec fn spec_route(item: FeatureItem, lifecycle: FeatureItemLifecycle) -> FeatureItemRoute {
    match item {
        FeatureItem::AgentMailboxAction { in_progress } => if lifecycle
            == FeatureItemLifecycle::Started || in_progress {
            FeatureItemRoute::MailboxActionStarted
        } else {
            FeatureItemRoute::MailboxActionCompleted
        },
        FeatureItem::MemoryMutation { in_progress } => if lifecycle == FeatureItemLifecycle::Started
            || in_progress {
            FeatureItemRoute::MemoryMutationStarted
        } else {
            FeatureItemRoute::MemoryMutationCompleted
        },
        FeatureItem::CollabAgentToolCall => FeatureItemRoute::CollabAgentToolCall,
        FeatureItem::SubAgentActivity => FeatureItemRoute::SubAgentActivity,
        FeatureItem::Other => FeatureItemRoute::NotHandled,
    }
}

/// Every feature item but `Other` is handled: collaboration calls and
/// sub-agent activities go to their own handlers whatever their lifecycle,
/// and mailbox actions and memory mutations start when they arrive as
/// started or are still in progress, and complete otherwise.
pub proof fn lemma_feature_items_are_handled(item: FeatureItem, lifecycle: FeatureItemLifecycle)
    ensures
        ({
            let r = spec_route(item, lifecycle);
            &&& (r == FeatureItemRoute::NotHandled <==> item == FeatureItem::Other)
            &&& (item == FeatureItem::SubAgentActivity ==> r == FeatureItemRoute::SubAgentActivity)
            &&& (item == FeatureItem::CollabAgentToolCall ==> r == FeatureItemRoute::CollabAgentToolCall)
            &&& (item is AgentMailboxAction ==> (r == FeatureItemRoute::MailboxActionStarted <==> (
            lifecycle == FeatureItemLifecycle::Started || item->AgentMailboxAction_in_progress)) && (
            r == FeatureItemRoute::MailboxActionCompleted <==> (lifecycle
                == FeatureItemLifecycle::Status && !item->AgentMailboxAction_in_progress)))
            &&& (item is MemoryMutation ==> (r == FeatureItemRoute::MemoryMutationStarted <==> (
            lifecycle == FeatureItemLifecycle::Started || item->MemoryMutation_in_progress)) && (r
                == FeatureItemRoute::MemoryMutationCompleted <==> (lifecycle
                == FeatureItemLifecycle::Status && !item->MemoryMutation_in_progress)))
        }),
{
}

/// Routes a feature item to its lifecycle handler.
pub fn route_feature_item(item: FeatureItem, lifecycle: FeatureItemLifecycle) -> (r: FeatureItemRoute)
    ensures
        r == spec_route(item, lifecycle),
        r == FeatureItemRoute::NotHandled <==> item == FeatureItem::Other,
        item == FeatureItem::SubAgentActivity ==> r == FeatureItemRoute::SubAgentActivity,
        item == FeatureItem::CollabAgentToolCall ==> r == FeatureItemRoute::CollabAgentToolCall,
        item is AgentMailboxAction ==> (r == FeatureItemRoute::MailboxActionStarted <==> (lifecycle
            == FeatureItemLifecycle::Started || item->AgentMailboxAction_in_progress)) && (r
            == FeatureItemRoute::MailboxActionCompleted <==> (lifecycle == FeatureItemLifecycle::Status
            && !item->AgentMailboxAction_in_progress)),
        item is MemoryMutation ==> (r == FeatureItemRoute::MemoryMutationStarted <==> (lifecycle
            == FeatureItemLifecycle::Started || item->MemoryMutation_in_progress)) && (r
            == FeatureItemRoute::MemoryMutationCompleted <==> (lifecycle == FeatureItemLifecycle::Status
            && !item->MemoryMutation_in_progress)),
{
    proof {
        lemma_feature_items_are_handled(item, lifecycle);
    }
    let started = lifecycle == FeatureItemLifecycle::Started;
    match item {
        FeatureItem::AgentMailboxAction { in_progress } => {
            if started || in_progress {
                FeatureItemRoute::MailboxActionStarted
            } else {
                FeatureItemRoute::MailboxActionCompleted
            }
        },
        FeatureItem::MemoryMutation { in_progress } => {
            if started || in_progress {
                FeatureItemRoute::MemoryMutationStarted
            } else {
                FeatureItemRoute::MemoryMutationCompleted
            }
        },
        FeatureItem::CollabAgentToolCall => FeatureItemRoute::CollabAgentToolCall,
        FeatureItem::SubAgentActivity => FeatureItemRoute::SubAgentActivity,
        FeatureItem::Other => FeatureItemRoute::NotHandled,
    }
}

/// What a finished mailbox action does to the transcript.
#[derive(Clone, Copy, Debug, PartialEq, Eq, Structural)]
pub enum MailboxCompletion {
    /// The active row shows this action: it is updated in place.
    UpdateActive,
    /// A new row is added to the history.
    InsertHistory,
}

/// A finished mailbox action updates the active row when that row shows the
/// same action, and is added as a new row otherwise.
pub fn mailbox_action_completion(active_action_id: Option<&str>, completed_id: &str) -> (r:
    MailboxCompletion)
    ensures
        r == if active_action_id matches Some(a) && a@ == completed_id@ {
            MailboxCompletion::UpdateActive
        } else {
            MailboxCompletion::InsertHistory
        },
{
    match active_action_id {
        Some(a) => if str_eq(a, completed_id) {
            MailboxCompletion::UpdateActive
        } else {
            MailboxCompletion::InsertHistory
        },
        None => MailboxCompletion::InsertHistory,
    }
}

// ---------------------------------------------------------------------------
// Pending spawn requests
// ---------------------------------------------------------------------------

/// The requests by call id that entries hold: later entries win.
pub open spec fn requests_of(entries: Seq<(String, SpawnRequestSummary)>) -> Map<
    Seq<char>,
    SpawnRequestSummary,
>
    decreases entries.len(),
{
    if entries.len() == 0 {
        Map::empty()
    } else {
        requests_of(entries.drop_last()).insert(entries.last().0@, entries.last().1)
    }
}

/// No call id has two entries.
pub open spec fn distinct_ids(entries: Seq<(String, SpawnRequestSummary)>) -> bool {
    forall|i: int, j: int| 0 <= i < j < entries.len() ==> (#[trigger] entries[i]).0@ != (#[trigger] entries[j]).0@
}

proof fn lemma_requests_lookup(entries: Seq<(String, SpawnRequestSummary)>, key: Seq<char>)
    requires
        distinct_ids(entries),
    ensures
        requests_of(entries).contains_key(key) <==> exists|i: int| 0 <= i < entries.len() && (#[trigger] entries[i]).0@ == key,
        forall|i: int| 0 <= i < entries.len() && (#[trigger] entries[i]).0@ == key ==> requests_of(entries)[key] == entries[i].1,
    decreases entries.len(),
{
    if entries.len() > 0 {
        let init = entries.drop_last();
        lemma_requests_lookup(init, key);
        assert forall|i: int| 0 <= i < entries.len() && (#[trigger] entries[i]).0@ == key implies requests_of(entries)[key] == entries[i].1 by {
            if i < entries.len() - 1 {
                assert(init[i] == entries[i]);
                assert(entries[i].0@ != entries[entries.len() - 1].0@);
            }
        }
        if requests_of(entries).contains_key(key) && entries.last().0@ != key {
            let i = choose|i: int| 0 <= i < init.len() && (#[trigger] init[i]).0@ == key;
            assert(entries[i] == init[i]);
        }
        if exists|i: int| 0 <= i < entries.len() && (#[trigger] entries[i]).0@ == key {
            let i = choose|i: int| 0 <= i < entries.len() && (#[trigger] entries[i]).0@ == key;
            if i < entries.len() - 1 {
                assert(init[i] == entries[i]);
            }
        }
    }
}

proof fn lemma_requests_update(entries: Seq<(String, SpawnRequestSummary)>, i: int, value: SpawnRequestSummary)
    requires
        distinct_ids(entries),
        0 <= i < entries.len(),
    ensures
        requests_of(entries.update(i, (entries[i].0, value))) == requests_of(entries).insert(
            entries[i].0@,
            value,
        ),
    decreases entries.len(),
{
    let n = entries.len();
    let updated = entries.update(i, (entries[i].0, value));
    if i == n - 1 {
        assert(updated.drop_last() =~= entries.drop_last());
        assert(requests_of(updated) =~= requests_of(entries).insert(entries[i].0@, value));
    } else {
        let init = entries.drop_last();
        assert(distinct_ids(init)) by {
            assert forall|a: int, b: int| 0 <= a < b < init.len() implies (#[trigger] init[a]).0@ != (#[trigger] init[b]).0@ by {
                assert(init[a] == entries[a] && init[b] == entries[b]);
            }
        }
        lemma_requests_update(init, i, value);
        assert(updated.drop_last() =~= init.update(i, (init[i].0, value)));
        assert(entries[i].0@ != entries[n - 1].0@);
        assert(requests_of(updated) =~= requests_of(entries).insert(entries[i].0@, value));
    }
}

proof fn lemma_requests_remove(entries: Seq<(String, SpawnRequestSummary)>, i: int)
    requires
        distinct_ids(entries),
        0 <= i < entries.len(),
    ensures
        requests_of(entries.remove(i)) == requests_of(entries).remove(entries[i].0@),
        distinct_ids(entries.remove(i)),
    decreases entries.len(),
{
    let n = entries.len();
    let removed = entries.remove(i);
    let key = entries[i].0@;
    assert(distinct_ids(removed)) by {
        assert forall|a: int, b: int| 0 <= a < b < removed.len() implies (#[trigger] removed[a]).0@ != (#[trigger] removed[b]).0@ by {
            let a0 = if a < i { a } else { a + 1 };
            let b0 = if b < i { b } else { b + 1 };
            assert(removed[a] == entries[a0] && removed[b] == entries[b0]);
        }
    }
    let init = entries.drop_last();
    if i == n - 1 {
        assert(removed =~= init);
        lemma_requests_lookup(init, key);
        assert forall|j: int| 0 <= j < init.len() implies (#[trigger] init[j]).0@ != key by {
            assert(init[j] == entries[j]);
        }
        assert(!requests_of(init).contains_key(key));
        assert(requests_of(removed) =~= requests_of(entries).remove(key));
    } else {
        assert(distinct_ids(init)) by {
            assert forall|a: int, b: int| 0 <= a < b < init.len() implies (#[trigger] init[a]).0@ != (#[trigger] init[b]).0@ by {
                assert(init[a] == entries[a] && init[b] == entries[b]);
            }
        }
        lemma_requests_remove(init, i);
        assert(removed.drop_last() =~= init.remove(i));
        assert(removed.last() == entries.last());
        assert(entries[i].0@ != entries[n - 1].0@);
        assert(requests_of(removed) =~= requests_of(entries).remove(key));
    }
}

/// Spawn requests seen while a spawn call was running, by call id, until
/// the call finishes.
pub struct PendingSpawnRequests {
    entries: Vec<(String, SpawnRequestSummary)>,
}

impl PendingSpawnRequests {
    #[verifier::type_invariant]
    spec fn well_formed(self) -> bool {
        distinct_ids(self.entries@)
    }

    /// The pending requests by call id.
    pub closed spec fn view(&self) -> Map<Seq<char>, SpawnRequestSummary> {
        requests_of(self.entries@)
    }

    /// No pending requests.
    pub fn new() -> (p: PendingSpawnRequests)
        ensures
            p.view() == Map::<Seq<char>, SpawnRequestSummary>::empty(),
    {
        PendingSpawnRequests { entries: Vec::new() }
    }

    fn position(&self, call_id: &str) -> (r: Option<usize>)
        ensures
            match r {
                Some(i) => i < self.entries@.len() && self.entries@[i as int].0@ == call_id@,
                None => forall|i: int| 0 <= i < self.entries@.len() ==> (#[trigger] self.entries@[i]).0@ != call_id@,
            },
    {
        let mut i: usize = 0;
        while i < self.entries.len()
            invariant
                i <= self.entries@.len(),
                forall|j: int| 0 <= j < i ==> (#[trigger] self.entries@[j]).0@ != call_id@,
            decreases self.entries@.len() - i,
        {
            if str_eq(self.entries[i].0.as_str(), call_id) {
                return Some(i);
            }
            i = i + 1;
        }
        None
    }

    fn insert(&mut self, call_id: &str, request: SpawnRequestSummary)
        ensures
            final(self).view() == old(self).view().insert(call_id@, request),
    {
        proof {
            use_type_invariant(&*self);
        }
        match self.position(call_id) {
            Some(i) => {
                let ghost before = self.entries@;
                let key = self.entries[i].0.clone();
                proof {
                    lemma_requests_update(before, i as int, request);
                    assert(before.update(i as int, (before[i as int].0, request)) =~= before.update(i as int, (key, request)));
                }
                let mut entries: Vec<(String, SpawnRequestSummary)> = Vec::new();
                std::mem::swap(&mut entries, &mut self.entries);
                entries.set(i, (key, request));
                proof {
                    assert(distinct_ids(entries@)) by {
                        assert forall|a: int, b: int| 0 <= a < b < entries@.len() implies (#[trigger] entries@[a]).0@ != (#[trigger] entries@[b]).0@ by {
                            assert(entries@[a].0@ == before[a].0@ && entries@[b].0@ == before[b].0@);
                        }
                    }
                }
                self.entries = entries;
            },
            None => {
                let ghost before = self.entries@;
                let mut entries: Vec<(String, SpawnRequestSummary)> = Vec::new();
                std::mem::swap(&mut entries, &mut self.entries);
                entries.push((crate::text::owned(call_id), request));
                proof {
                    assert(entries@.drop_last() =~= before);
                    assert(distinct_ids(entries@)) by {
                        assert forall|a: int, b: int| 0 <= a < b < entries@.len() implies (#[trigger] entries@[a]).0@ != (#[trigger] entries@[b]).0@ by {
                            if b < before.len() {
                                assert(entries@[a] == before[a] && entries@[b] == before[b]);
                            } else {
                                assert(entries@[a] == before[a]);
                            }
                        }
                    }
                }
                self.entries = entries;
            },
        }
    }

    fn remove(&mut self, call_id: &str) -> (r: Option<SpawnRequestSummary>)
        ensures
            r == if old(self).view().contains_key(call_id@) {
                Some(old(self).view()[call_id@])
            } else {
                None::<SpawnRequestSummary>
            },
            final(self).view() == old(self).view().remove(call_id@),
    {
        proof {
            use_type_invariant(&*self);
            lemma_requests_lookup(self.entries@, call_id@);
        }
        match self.position(call_id) {
            Some(i) => {
                let ghost before = self.entries@;
                proof {
                    lemma_requests_remove(before, i as int);
                }
                let mut entries: Vec<(String, SpawnRequestSummary)> = Vec::new();
                std::mem::swap(&mut entries, &mut self.entries);
                let (_, request) = entries.remove(i);
                self.entries = entries;
                Some(request)
            },
            None => {
                assert(self.view().remove(call_id@) =~= self.view());
                None
            },
        }
    }

    /// Records a collaboration tool call: a spawn call that names its model
    /// and effort keeps its request under its call id; a spawn call that
    /// finished takes its request back out, to be shown with its row.
    pub fn on_tool_call(
        &mut self,
        call_id: &str,
        tool: CollabAgentTool,
        status: CollabAgentToolCallStatus,
        request: Option<SpawnRequestSummary>,
    ) -> (cached: Option<SpawnRequestSummary>)
        ensures
            (cached, final(self).view()) == spec_on_tool_call(
                old(self).view(),
                call_id@,
                tool,
                status,
                request,
            ),
    {
        let spawn = tool == CollabAgentTool::SpawnAgent;
        if spawn {
            match request {
                Some(r) => self.insert(call_id, r),
                None => {},
            }
        }
        if spawn && status != CollabAgentToolCallStatus::InProgress {
            self.remove(call_id)
        } else {
            None
        }
    }
}

/// What recording a tool call gives: the request to show with its row, and
/// the pending requests after it.
pub open spec fn spec_on_tool_call(
    pending: Map<Seq<char>, SpawnRequestSummary>,
    call_id: Seq<char>,
    tool: CollabAgentTool,
    status: CollabAgentToolCallStatus,
    request: Option<SpawnRequestSummary>,
) -> (Option<SpawnRequestSummary>, Map<Seq<char>, SpawnRequestSummary>) {
    let spawn = tool == CollabAgentTool::SpawnAgent;
    let kept = if spawn && request is Some {
        pending.insert(call_id, request->Some_0)
    } else {
        pending
    };
    if spawn && status != CollabAgentToolCallStatus::InProgress {
        (
            if kept.contains_key(call_id) {
                Some(kept[call_id])
            } else {
                None
            },
            kept.remove(call_id),
        )
    } else {
        (None, kept)
    }
}

/// A spawn request seen when a spawn call starts is shown when the call
/// finishes, even when the finished call no longer names it; afterwards
/// nothing is pending under the call's id.
pub proof fn lemma_started_spawn_request_is_shown(
    pending: Map<Seq<char>, SpawnRequestSummary>,
    call_id: Seq<char>,
    request: SpawnRequestSummary,
    finished: CollabAgentToolCallStatus,
)
    requires
        finished != CollabAgentToolCallStatus::InProgress,
    ensures
        ({
            let started = spec_on_tool_call(
                pending,
                call_id,
                CollabAgentTool::SpawnAgent,
                CollabAgentToolCallStatus::InProgress,
                Some(request),
            );
            let done = spec_on_tool_call(
                started.1,
                call_id,
                CollabAgentTool::SpawnAgent,
                finished,
                None,
            );
            &&& started.0 is None
            &&& done.0 == Some(request)
            &&& !done.1.contains_key(call_id)
        }),
{
}

/// Calls of other tools leave the pending requests as they are.
pub proof fn lemma_other_tools_keep_pending(
    pending: Map<Seq<char>, SpawnRequestSummary>,
    call_id: Seq<char>,
    tool: CollabAgentTool,
    status: CollabAgentToolCallStatus,
    request: Option<SpawnRequestSummary>,
)
    requires
        tool != CollabAgentTool::SpawnAgent,
    ensures
        spec_on_tool_call(pending, call_id, tool, status, request) == (
            None::<SpawnRequestSummary>,
            pending,
        ),
{
}

} // verus!
