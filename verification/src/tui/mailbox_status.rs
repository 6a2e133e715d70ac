//! The mailbox counts shown in the status line, kept current from update
//! notifications that may arrive out of order.

use crate::mailbox::AgentMailboxUnreadSnapshot;
use vstd::prelude::*;

verus! {

/// What the status line shows next, given its current mailbox counts and a
/// notification: notifications for other threads are ignored; with the
/// mailbox feature off the counts are cleared; otherwise a notification
/// replaces the counts only when its revision is newer.
pub open spec fn spec_mailbox_status_after(
    current: Option<AgentMailboxUnreadSnapshot>,
    for_this_thread: bool,
    feature_enabled: bool,
    update: AgentMailboxUnreadSnapshot,
) -> Option<AgentMailboxUnreadSnapshot> {
    if !for_this_thread {
        current
    } else if !feature_enabled {
        None
    } else if current matches Some(c) && c.revision >= update.revision {
        current
    } else {
        Some(update)
    }
}

/// Whether the shown counts are at least as new as the update.
pub open spec fn newer_or_same(current: Option<AgentMailboxUnreadSnapshot>, update: AgentMailboxUnreadSnapshot) -> bool {
    current matches Some(c) && c.revision >= update.revision
}

/// Applies a mailbox notification to the status line's counts; returns
/// whether the status line must be redrawn.
pub fn apply_mailbox_update(
    current: &mut Option<AgentMailboxUnreadSnapshot>,
    for_this_thread: bool,
    feature_enabled: bool,
    update: AgentMailboxUnreadSnapshot,
) -> (redraw: bool)
    ensures
        *final(current) == spec_mailbox_status_after(*old(current), for_this_thread, feature_enabled, update),
        redraw == (for_this_thread && (!feature_enabled || !newer_or_same(*old(current), update))),
{
    if !for_this_thread {
        return false;
    }
    if !feature_enabled {
        *current = None;
        return true;
    }
    match current {
        Some(c) => {
            if c.revision >= update.revision {
                return false;
            }
        },
        None => {},
    }
    *current = Some(update);
    true
}

/// The shown revision never goes back while the feature stays on: updates
/// that arrive late do not undo newer counts.
pub proof fn lemma_revision_never_decreases(
    current: Option<AgentMailboxUnreadSnapshot>,
    for_this_thread: bool,
    update: AgentMailboxUnreadSnapshot,
)
    requires
        current is Some,
    ensures
        spec_mailbox_status_after(current, for_this_thread, true, update) matches Some(n)
            && n.revision >= current->Some_0.revision,
{
}

} // verus!
