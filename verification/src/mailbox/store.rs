//! The mailbox store: per-recipient counters, the delivery log and the unread
//! messages, with idempotent enqueue and consuming reads.

use super::{
    AgentMailboxCategory, AgentMailboxEnqueueOutcome, AgentMailboxMessage, AgentMailboxMessageInput,
    AgentMailboxReadOutcome, AgentMailboxReadRequest, AgentMailboxUnreadSnapshot, MailboxError,
    stored_message,
};
use crate::ids::ThreadId;
use crate::text::str_eq;
use vstd::prelude::*;

verus! {

/// Most messages that one read returns.
pub const MAX_AGENT_MAILBOX_READ_LIMIT: usize = 50;

/// Per-recipient bookkeeping: the next sequence number to hand out and a
/// revision that grows on every change of the recipient's unread messages.
#[derive(Clone, Debug, PartialEq, Eq)]
pub struct RecipientRow {
    pub root_thread_id: ThreadId,
    pub recipient_thread_id: ThreadId,
    pub recipient_agent_path: String,
    pub next_sequence: i64,
    pub revision: i64,
}

impl RecipientRow {
    /// A copy of the row.
    pub fn duplicate(&self) -> (r: RecipientRow)
        ensures
            r == *self,
    {
        RecipientRow {
            root_thread_id: self.root_thread_id,
            recipient_thread_id: self.recipient_thread_id,
            recipient_agent_path: self.recipient_agent_path.clone(),
            next_sequence: self.next_sequence,
            revision: self.revision,
        }
    }
}

/// The row with its revision one higher.
pub open spec fn bumped_revision(row: RecipientRow) -> RecipientRow {
    RecipientRow {
        root_thread_id: row.root_thread_id,
        recipient_thread_id: row.recipient_thread_id,
        recipient_agent_path: row.recipient_agent_path,
        next_sequence: row.next_sequence,
        revision: (row.revision + 1) as i64,
    }
}

/// The snapshot of a mailbox that holds nothing and never changed.
pub open spec fn empty_snapshot() -> AgentMailboxUnreadSnapshot {
    AgentMailboxUnreadSnapshot { total: 0, progress: 0, result: 0, action_required: 0, revision: 0 }
}

/// Keeps the rows of every recipient but `recipient`.
pub open spec fn keeps_row(recipient: ThreadId) -> spec_fn(RecipientRow) -> bool {
    |r: RecipientRow| r.recipient_thread_id != recipient
}

/// Keeps the messages to every recipient but `recipient`.
pub open spec fn keeps_message(recipient: ThreadId) -> spec_fn(AgentMailboxMessage) -> bool {
    |m: AgentMailboxMessage| m.recipient_thread_id != recipient
}

/// Whether a message belongs to the mailbox of `recipient` under `root`.
pub open spec fn in_mailbox(m: AgentMailboxMessage, root: ThreadId, recipient: ThreadId) -> bool {
    m.root_thread_id == root && m.recipient_thread_id == recipient
}

/// Whether a row is the bookkeeping of `recipient` under `root`.
pub open spec fn row_is(r: RecipientRow, root: ThreadId, recipient: ThreadId) -> bool {
    r.root_thread_id == root && r.recipient_thread_id == recipient
}

/// The bookkeeping row of `recipient` under `root`, if there is one.
pub open spec fn find_row(rows: Seq<RecipientRow>, root: ThreadId, recipient: ThreadId) -> Option<
    RecipientRow,
>
    decreases rows.len(),
{
    if rows.len() == 0 {
        None
    } else if row_is(rows.last(), root, recipient) {
        Some(rows.last())
    } else {
        find_row(rows.drop_last(), root, recipient)
    }
}

/// The sequence number that the next message to this recipient receives.
pub open spec fn next_sequence_for(rows: Seq<RecipientRow>, root: ThreadId, recipient: ThreadId) -> i64 {
    match find_row(rows, root, recipient) {
        Some(r) => r.next_sequence,
        None => 1,
    }
}

/// The revision of this recipient's mailbox (0 when it has none).
pub open spec fn revision_for(rows: Seq<RecipientRow>, root: ThreadId, recipient: ThreadId) -> i64 {
    match find_row(rows, root, recipient) {
        Some(r) => r.revision,
        None => 0,
    }
}

/// How many unread messages of this mailbox have `category` (any category when `None`).
pub open spec fn count_unread(
    msgs: Seq<AgentMailboxMessage>,
    root: ThreadId,
    recipient: ThreadId,
    category: Option<AgentMailboxCategory>,
) -> nat
    decreases msgs.len(),
{
    if msgs.len() == 0 {
        0
    } else {
        count_unread(msgs.drop_last(), root, recipient, category) + if in_mailbox(
            msgs.last(),
            root,
            recipient,
        ) && (category is None || msgs.last().category == category->0) {
            1nat
        } else {
            0nat
        }
    }
}

/// The snapshot of one mailbox.
pub open spec fn snapshot_for(
    msgs: Seq<AgentMailboxMessage>,
    rows: Seq<RecipientRow>,
    root: ThreadId,
    recipient: ThreadId,
) -> AgentMailboxUnreadSnapshot {
    AgentMailboxUnreadSnapshot {
        total: count_unread(msgs, root, recipient, None) as i64,
        progress: count_unread(msgs, root, recipient, Some(AgentMailboxCategory::Progress)) as i64,
        result: count_unread(msgs, root, recipient, Some(AgentMailboxCategory::Result)) as i64,
        action_required: count_unread(
            msgs,
            root,
            recipient,
            Some(AgentMailboxCategory::ActionRequired),
        ) as i64,
        revision: revision_for(rows, root, recipient),
    }
}

/// Whether a read request selects this message.
pub open spec fn read_selects(request: AgentMailboxReadRequest, m: AgentMailboxMessage) -> bool {
    &&& in_mailbox(m, request.root_thread_id, request.recipient_thread_id)
    &&& (request.sender_thread_id matches Some(s) ==> m.sender_thread_id == s)
    &&& (request.sender_agent_path matches Some(p) ==> m.sender_agent_path@ == p@)
    &&& (request.category matches Some(c) ==> m.category == c)
}

/// Splits the unread messages into the first `limit` that the request
/// selects, in order, and the others, in order.
pub open spec fn split_read(
    msgs: Seq<AgentMailboxMessage>,
    request: AgentMailboxReadRequest,
    limit: nat,
) -> (Seq<AgentMailboxMessage>, Seq<AgentMailboxMessage>)
    decreases msgs.len(),
{
    if msgs.len() == 0 {
        (seq![], seq![])
    } else {
        let (taken, kept) = split_read(msgs.drop_last(), request, limit);
        if taken.len() < limit && read_selects(request, msgs.last()) {
            (taken.push(msgs.last()), kept)
        } else {
            (taken, kept.push(msgs.last()))
        }
    }
}

/// The effective limit of a read.
pub open spec fn read_limit(request: AgentMailboxReadRequest) -> nat {
    if request.limit < MAX_AGENT_MAILBOX_READ_LIMIT {
        request.limit as nat
    } else {
        MAX_AGENT_MAILBOX_READ_LIMIT as nat
    }
}

/// Whether a delivery with this id was recorded.
pub open spec fn delivered(deliveries: Seq<AgentMailboxMessage>, id: Seq<char>) -> bool {
    exists|k: int| 0 <= k < deliveries.len() && (#[trigger] deliveries[k]).id@ == id
}

/// The rows after bumping the counters of one recipient.
pub open spec fn rows_agree_except(
    old_rows: Seq<RecipientRow>,
    new_rows: Seq<RecipientRow>,
    root: ThreadId,
    recipient: ThreadId,
) -> bool {
    forall|r: ThreadId, t: ThreadId|
        !(r == root && t == recipient) ==> #[trigger] find_row(new_rows, r, t) == find_row(
            old_rows,
            r,
            t,
        )
}

/// An in-memory agent mailbox.
pub struct AgentMailboxStore {
    recipients: Vec<RecipientRow>,
    deliveries: Vec<AgentMailboxMessage>,
    messages: Vec<AgentMailboxMessage>,
}

/// Pairwise property over the elements of a sequence, in index order.
pub open spec fn pairwise<T>(s: Seq<T>, p: spec_fn(T, T) -> bool) -> bool {
    forall|i: int, j: int| 0 <= i < j < s.len() ==> p(#[trigger] s[i], #[trigger] s[j])
}

pub open spec fn distinct_rows(a: RecipientRow, b: RecipientRow) -> bool {
    !(a.root_thread_id == b.root_thread_id && a.recipient_thread_id == b.recipient_thread_id)
}

pub open spec fn arrival_ordered(a: AgentMailboxMessage, b: AgentMailboxMessage) -> bool {
    (a.root_thread_id == b.root_thread_id && a.recipient_thread_id == b.recipient_thread_id)
        ==> a.sequence < b.sequence
}

pub open spec fn distinct_ids(a: AgentMailboxMessage, b: AgentMailboxMessage) -> bool {
    a.id@ != b.id@
}

/// No two deliveries share an id.
pub open spec fn delivery_ids_distinct(deliveries: Seq<AgentMailboxMessage>) -> bool {
    pairwise(deliveries, |a: AgentMailboxMessage, b: AgentMailboxMessage| distinct_ids(a, b))
}

/// The unread messages as the store keeps them: each mailbox's messages in
/// ascending sequence (so the first ones a read selects are those with the
/// lowest sequences), and no more of them than an `i64` counts.
pub open spec fn unread_in_arrival_order(msgs: Seq<AgentMailboxMessage>) -> bool {
    &&& pairwise(msgs, |a: AgentMailboxMessage, b: AgentMailboxMessage| arrival_ordered(a, b))
    &&& msgs.len() <= i64::MAX
}

/// Enqueueing a message again returns the message that its first enqueue
/// stored: that enqueue left the stored message as the last delivery, and
/// among deliveries with distinct ids it is the only one with its id.
pub proof fn lemma_repeat_enqueue_finds_first(
    deliveries: Seq<AgentMailboxMessage>,
    stored: AgentMailboxMessage,
    k: int,
)
    requires
        delivery_ids_distinct(deliveries.push(stored)),
        0 <= k < deliveries.len() + 1,
        deliveries.push(stored)[k].id@ == stored.id@,
    ensures
        deliveries.push(stored)[k] == stored,
{
    let all = deliveries.push(stored);
    if k < deliveries.len() {
        assert(distinct_ids(all[k], all[deliveries.len() as int]));
    }
}

/// The invariant of the store.
pub open spec fn store_wf(
    rows: Seq<RecipientRow>,
    deliveries: Seq<AgentMailboxMessage>,
    msgs: Seq<AgentMailboxMessage>,
) -> bool {
    &&& pairwise(rows, |a: RecipientRow, b: RecipientRow| distinct_rows(a, b))
    &&& forall|i: int|
        0 <= i < rows.len() ==> 1 <= (#[trigger] rows[i]).next_sequence && 0 <= rows[i].revision
    &&& forall|i: int|
        0 <= i < msgs.len() ==> {
            let m = #[trigger] msgs[i];
            &&& find_row(rows, m.root_thread_id, m.recipient_thread_id) is Some
            &&& 1 <= m.sequence < find_row(
                rows,
                m.root_thread_id,
                m.recipient_thread_id,
            )->Some_0.next_sequence
        }
    &&& pairwise(msgs, |a: AgentMailboxMessage, b: AgentMailboxMessage| arrival_ordered(a, b))
    &&& pairwise(msgs, |a: AgentMailboxMessage, b: AgentMailboxMessage| distinct_ids(a, b))
    &&& pairwise(deliveries, |a: AgentMailboxMessage, b: AgentMailboxMessage| distinct_ids(a, b))
    &&& forall|i: int| 0 <= i < msgs.len() ==> deliveries.contains(#[trigger] msgs[i])
    &&& msgs.len() <= i64::MAX
}

// ---------------------------------------------------------------------------
// Lemmas about rows
// ---------------------------------------------------------------------------

proof fn lemma_find_row_index(rows: Seq<RecipientRow>, root: ThreadId, recipient: ThreadId, i: int)
    requires
        pairwise(rows, |a: RecipientRow, b: RecipientRow| distinct_rows(a, b)),
        0 <= i < rows.len(),
        row_is(rows[i], root, recipient),
    ensures
        find_row(rows, root, recipient) == Some(rows[i]),
    decreases rows.len(),
{
    if i == rows.len() - 1 {
    } else {
        let last = rows.len() - 1;
        assert(distinct_rows(rows[i], rows[last]));
        let d = rows.drop_last();
        assert forall|a: int, b: int| 0 <= a < b < d.len() implies distinct_rows(
            #[trigger] d[a],
            #[trigger] d[b],
        ) by {
            assert(d[a] == rows[a] && d[b] == rows[b]);
        }
        assert(d[i] == rows[i]);
        lemma_find_row_index(d, root, recipient, i);
    }
}

proof fn lemma_find_row_some(rows: Seq<RecipientRow>, root: ThreadId, recipient: ThreadId)
    requires
        find_row(rows, root, recipient) is Some,
    ensures
        exists|i: int|
            0 <= i < rows.len() && row_is(rows[i], root, recipient) && find_row(rows, root, recipient)
                == Some(#[trigger] rows[i]),
    decreases rows.len(),
{
    if row_is(rows.last(), root, recipient) {
        assert(rows[rows.len() - 1] == rows.last());
    } else {
        lemma_find_row_some(rows.drop_last(), root, recipient);
        let i = choose|i: int|
            0 <= i < rows.drop_last().len() && row_is(rows.drop_last()[i], root, recipient)
                && find_row(rows.drop_last(), root, recipient) == Some(
                #[trigger] rows.drop_last()[i],
            );
        assert(rows[i] == rows.drop_last()[i]);
    }
}

proof fn lemma_find_row_none(rows: Seq<RecipientRow>, root: ThreadId, recipient: ThreadId, i: int)
    requires
        find_row(rows, root, recipient) is None,
        0 <= i < rows.len(),
    ensures
        !row_is(rows[i], root, recipient),
    decreases rows.len(),
{
    if i < rows.len() - 1 {
        assert(rows.drop_last()[i] == rows[i]);
        lemma_find_row_none(rows.drop_last(), root, recipient, i);
    }
}

proof fn lemma_find_row_push(rows: Seq<RecipientRow>, row: RecipientRow, root: ThreadId, recipient: ThreadId)
    ensures
        find_row(rows.push(row), root, recipient) == if row_is(row, root, recipient) {
            Some(row)
        } else {
            find_row(rows, root, recipient)
        },
{
    assert(rows.push(row).drop_last() =~= rows);
}

proof fn lemma_find_row_update(
    rows: Seq<RecipientRow>,
    i: int,
    row: RecipientRow,
    root: ThreadId,
    recipient: ThreadId,
)
    requires
        pairwise(rows, |a: RecipientRow, b: RecipientRow| distinct_rows(a, b)),
        0 <= i < rows.len(),
        row.root_thread_id == rows[i].root_thread_id,
        row.recipient_thread_id == rows[i].recipient_thread_id,
    ensures
        pairwise(rows.update(i, row), |a: RecipientRow, b: RecipientRow| distinct_rows(a, b)),
        find_row(rows.update(i, row), root, recipient) == if row_is(row, root, recipient) {
            Some(row)
        } else {
            find_row(rows, root, recipient)
        },
{
    let u = rows.update(i, row);
    assert forall|a: int, b: int| 0 <= a < b < u.len() implies distinct_rows(
        #[trigger] u[a],
        #[trigger] u[b],
    ) by {
        assert(distinct_rows(rows[a], rows[b]));
    }
    if row_is(row, root, recipient) {
        lemma_find_row_index(u, root, recipient, i);
    } else {
        lemma_find_row_update_other(rows, i, row, root, recipient);
    }
}

proof fn lemma_find_row_update_other(
    rows: Seq<RecipientRow>,
    i: int,
    row: RecipientRow,
    root: ThreadId,
    recipient: ThreadId,
)
    requires
        0 <= i < rows.len(),
        !row_is(row, root, recipient),
        !row_is(rows[i], root, recipient),
    ensures
        find_row(rows.update(i, row), root, recipient) == find_row(rows, root, recipient),
    decreases rows.len(),
{
    let u = rows.update(i, row);
    if i == rows.len() - 1 {
        assert(u.drop_last() =~= rows.drop_last());
    } else {
        assert(u.drop_last() =~= rows.drop_last().update(i, row));
        assert(rows.drop_last()[i] == rows[i]);
        lemma_find_row_update_other(rows.drop_last(), i, row, root, recipient);
    }
}

// ---------------------------------------------------------------------------
// Lemmas about subsequences
// ---------------------------------------------------------------------------

/// `out` picks elements of `src` at strictly increasing indices `idx`.
pub open spec fn picks<T>(src: Seq<T>, out: Seq<T>, idx: Seq<int>) -> bool {
    &&& idx.len() == out.len()
    &&& forall|k: int| 0 <= k < idx.len() ==> 0 <= #[trigger] idx[k] < src.len() && out[k] == src[idx[k]]
    &&& forall|a: int, b: int| 0 <= a < b < idx.len() ==> #[trigger] idx[a] < #[trigger] idx[b]
}

proof fn lemma_picks_push<T>(src: Seq<T>, out: Seq<T>, idx: Seq<int>, i: int)
    requires
        picks(src, out, idx),
        0 <= i < src.len(),
        forall|k: int| 0 <= k < idx.len() ==> #[trigger] idx[k] < i,
    ensures
        picks(src, out.push(src[i]), idx.push(i)),
{
}

// ---------------------------------------------------------------------------
// Counting
// ---------------------------------------------------------------------------

proof fn lemma_count_bound(
    msgs: Seq<AgentMailboxMessage>,
    root: ThreadId,
    recipient: ThreadId,
    category: Option<AgentMailboxCategory>,
)
    ensures
        count_unread(msgs, root, recipient, category) <= msgs.len(),
    decreases msgs.len(),
{
    if msgs.len() > 0 {
        lemma_count_bound(msgs.drop_last(), root, recipient, category);
    }
}

fn category_selected(m: &AgentMailboxMessage, category: Option<AgentMailboxCategory>) -> (b: bool)
    ensures
        b == (category is None || m.category == category->0),
{
    match category {
        None => true,
        Some(c) => m.category == c,
    }
}

fn count_in(
    msgs: &Vec<AgentMailboxMessage>,
    root: ThreadId,
    recipient: ThreadId,
    category: Option<AgentMailboxCategory>,
) -> (n: i64)
    requires
        msgs@.len() <= i64::MAX,
    ensures
        0 <= n,
        n as nat == count_unread(msgs@, root, recipient, category),
{
    let mut n: i64 = 0;
    let mut i: usize = 0;
    while i < msgs.len()
        invariant
            i <= msgs@.len() <= i64::MAX,
            n as nat == count_unread(msgs@.subrange(0, i as int), root, recipient, category),
            0 <= n <= i,
        decreases msgs@.len() - i,
    {
        let m = &msgs[i];
        proof {
            assert(msgs@.subrange(0, i + 1).drop_last() =~= msgs@.subrange(0, i as int));
            assert(msgs@.subrange(0, i + 1).last() == msgs@[i as int]);
            lemma_count_bound(msgs@.subrange(0, i as int), root, recipient, category);
        }
        let hit = m.root_thread_id == root && m.recipient_thread_id == recipient
            && category_selected(m, category);
        proof {
            let sub = msgs@.subrange(0, i + 1);
            assert(count_unread(sub, root, recipient, category) == count_unread(
                sub.drop_last(),
                root,
                recipient,
                category,
            ) + if in_mailbox(sub.last(), root, recipient) && (category is None
                || sub.last().category == category->0) {
                1nat
            } else {
                0nat
            });
            assert(hit == (in_mailbox(sub.last(), root, recipient) && (category is None
                || sub.last().category == category->0)));
        }
        if hit {
            n = n + 1;
        }
        i = i + 1;
    }
    assert(msgs@.subrange(0, msgs@.len() as int) =~= msgs@);
    n
}

fn find_row_index(rows: &Vec<RecipientRow>, root: ThreadId, recipient: ThreadId) -> (r: Option<usize>)
    requires
        pairwise(rows@, |a: RecipientRow, b: RecipientRow| distinct_rows(a, b)),
    ensures
        match r {
            Some(i) => i < rows@.len() && row_is(rows@[i as int], root, recipient) && find_row(
                rows@,
                root,
                recipient,
            ) == Some(rows@[i as int]),
            None => find_row(rows@, root, recipient) is None,
        },
{
    let mut i: usize = 0;
    while i < rows.len()
        invariant
            i <= rows@.len(),
            pairwise(rows@, |a: RecipientRow, b: RecipientRow| distinct_rows(a, b)),
            forall|j: int| 0 <= j < i ==> !row_is(#[trigger] rows@[j], root, recipient),
        decreases rows@.len() - i,
    {
        if rows[i].root_thread_id == root && rows[i].recipient_thread_id == recipient {
            proof {
                lemma_find_row_index(rows@, root, recipient, i as int);
            }
            return Some(i);
        }
        i = i + 1;
    }
    proof {
        if find_row(rows@, root, recipient) is Some {
            lemma_find_row_some(rows@, root, recipient);
        }
    }
    None
}

fn snapshot_in(
    msgs: &Vec<AgentMailboxMessage>,
    rows: &Vec<RecipientRow>,
    root: ThreadId,
    recipient: ThreadId,
) -> (s: AgentMailboxUnreadSnapshot)
    requires
        msgs@.len() <= i64::MAX,
        pairwise(rows@, |a: RecipientRow, b: RecipientRow| distinct_rows(a, b)),
    ensures
        s == snapshot_for(msgs@, rows@, root, recipient),
{
    let revision = match find_row_index(rows, root, recipient) {
        Some(i) => rows[i].revision,
        None => 0,
    };
    let total = count_in(msgs, root, recipient, None);
    let progress = count_in(msgs, root, recipient, Some(AgentMailboxCategory::Progress));
    let result = count_in(msgs, root, recipient, Some(AgentMailboxCategory::Result));
    let action_required = count_in(
        msgs,
        root,
        recipient,
        Some(AgentMailboxCategory::ActionRequired),
    );
    AgentMailboxUnreadSnapshot { total, progress, result, action_required, revision }
}

impl AgentMailboxStore {
    #[verifier::type_invariant]
    closed spec fn inv(self) -> bool {
        store_wf(self.recipients@, self.deliveries@, self.messages@)
    }

    /// The per-recipient rows.
    pub closed spec fn rows(&self) -> Seq<RecipientRow> {
        self.recipients@
    }

    /// Every message ever delivered, read or not.
    pub closed spec fn deliveries(&self) -> Seq<AgentMailboxMessage> {
        self.deliveries@
    }

    /// The unread messages, in arrival order.
    pub closed spec fn unread(&self) -> Seq<AgentMailboxMessage> {
        self.messages@
    }

    /// An empty mailbox store.
    pub fn new() -> (s: AgentMailboxStore)
        ensures
            s.rows() == Seq::<RecipientRow>::empty(),
            s.deliveries() == Seq::<AgentMailboxMessage>::empty(),
            s.unread() == Seq::<AgentMailboxMessage>::empty(),
            delivery_ids_distinct(s.deliveries()),
            unread_in_arrival_order(s.unread()),
    {
        AgentMailboxStore { recipients: Vec::new(), deliveries: Vec::new(), messages: Vec::new() }
    }

    /// The unread counts and revision of one recipient's mailbox.
    pub fn unread_snapshot(&self, root_thread_id: ThreadId, recipient_thread_id: ThreadId) -> (s:
        AgentMailboxUnreadSnapshot)
        ensures
            s == snapshot_for(self.unread(), self.rows(), root_thread_id, recipient_thread_id),
            unread_in_arrival_order(self.unread()),
            delivery_ids_distinct(self.deliveries()),
    {
        proof {
            use_type_invariant(self);
        }
        snapshot_in(&self.messages, &self.recipients, root_thread_id, recipient_thread_id)
    }

    /// Whether inserting a message for this recipient would push a counter past its range.
    pub open spec fn enqueue_overflows(&self, root: ThreadId, recipient: ThreadId) -> bool {
        ||| next_sequence_for(self.rows(), root, recipient) == i64::MAX
        ||| revision_for(self.rows(), root, recipient) == i64::MAX
        ||| self.unread().len() >= i64::MAX
    }

    fn find_delivery(&self, id: &String) -> (r: Option<usize>)
        ensures
            match r {
                Some(k) => k < self.deliveries().len() && self.deliveries()[k as int].id@ == id@,
                None => !delivered(self.deliveries(), id@),
            },
    {
        let mut k: usize = 0;
        while k < self.deliveries.len()
            invariant
                k <= self.deliveries@.len(),
                forall|j: int| 0 <= j < k ==> (#[trigger] self.deliveries@[j]).id@ != id@,
            decreases self.deliveries@.len() - k,
        {
            if self.deliveries[k].id == *id {
                return Some(k);
            }
            k = k + 1;
        }
        None
    }

    /// Delivers a message to its recipient's mailbox. A message whose id was
    /// delivered before is not delivered again: the earlier delivery is
    /// returned with `inserted` false and nothing changes.
    pub fn enqueue(&mut self, message: AgentMailboxMessageInput) -> (r: Result<
        AgentMailboxEnqueueOutcome,
        MailboxError,
    >)
        ensures
            delivery_ids_distinct(final(self).deliveries()),
            unread_in_arrival_order(old(self).unread()),
            unread_in_arrival_order(final(self).unread()),
            delivered(old(self).deliveries(), message.id@) ==> {
                &&& r is Ok
                &&& !r->Ok_0.inserted
                &&& old(self).deliveries().contains(r->Ok_0.message)
                &&& r->Ok_0.message.id@ == message.id@
                &&& forall|k: int|
                    0 <= k < old(self).deliveries().len() && (#[trigger] old(
                        self,
                    ).deliveries()[k]).id@ == message.id@ ==> old(self).deliveries()[k]
                        == r->Ok_0.message
                &&& r->Ok_0.snapshot == snapshot_for(
                    old(self).unread(),
                    old(self).rows(),
                    r->Ok_0.message.root_thread_id,
                    r->Ok_0.message.recipient_thread_id,
                )
                &&& final(self).rows() == old(self).rows()
                &&& final(self).deliveries() == old(self).deliveries()
                &&& final(self).unread() == old(self).unread()
            },
            !delivered(old(self).deliveries(), message.id@) && old(self).enqueue_overflows(
                message.root_thread_id,
                message.recipient_thread_id,
            ) ==> {
                &&& r == Err::<AgentMailboxEnqueueOutcome, MailboxError>(MailboxError::CounterOverflow)
                &&& final(self).rows() == old(self).rows()
                &&& final(self).deliveries() == old(self).deliveries()
                &&& final(self).unread() == old(self).unread()
            },
            !delivered(old(self).deliveries(), message.id@) && !old(self).enqueue_overflows(
                message.root_thread_id,
                message.recipient_thread_id,
            ) ==> {
                let root = message.root_thread_id;
                let recipient = message.recipient_thread_id;
                let sequence = next_sequence_for(old(self).rows(), root, recipient);
                let stored = stored_message(message, sequence);
                &&& r is Ok
                &&& r->Ok_0.inserted
                &&& r->Ok_0.message == stored
                &&& final(self).unread() == old(self).unread().push(stored)
                &&& final(self).deliveries() == old(self).deliveries().push(stored)
                &&& find_row(final(self).rows(), root, recipient) == Some(
                    RecipientRow {
                        root_thread_id: root,
                        recipient_thread_id: recipient,
                        recipient_agent_path: message.recipient_agent_path,
                        next_sequence: (sequence + 1) as i64,
                        revision: (revision_for(old(self).rows(), root, recipient) + 1) as i64,
                    },
                )
                &&& rows_agree_except(old(self).rows(), final(self).rows(), root, recipient)
                &&& r->Ok_0.snapshot == snapshot_for(
                    final(self).unread(),
                    final(self).rows(),
                    root,
                    recipient,
                )
            },
    {
        proof {
            use_type_invariant(&*self);
        }
        if let Some(k) = self.find_delivery(&message.id) {
            let existing = self.deliveries[k].duplicate();
            let snapshot = snapshot_in(
                &self.messages,
                &self.recipients,
                existing.root_thread_id,
                existing.recipient_thread_id,
            );
            assert(self.deliveries@[k as int] == existing);
            proof {
                let d = self.deliveries@;
                assert forall|j: int| 0 <= j < d.len() && (#[trigger] d[j]).id@ == message.id@ implies d[j]
                    == existing by {
                    if j < k {
                        assert(distinct_ids(d[j], d[k as int]));
                    } else if j > k {
                        assert(distinct_ids(d[k as int], d[j]));
                    }
                }
            }
            return Ok(AgentMailboxEnqueueOutcome { inserted: false, message: existing, snapshot });
        }
        let root = message.root_thread_id;
        let recipient = message.recipient_thread_id;
        let index = find_row_index(&self.recipients, root, recipient);
        let (sequence, revision) = match index {
            Some(i) => (self.recipients[i].next_sequence, self.recipients[i].revision),
            None => (1i64, 0i64),
        };
        if sequence == i64::MAX || revision == i64::MAX || self.messages.len() as u64 >= 9223372036854775807u64 {
            return Err(MailboxError::CounterOverflow);
        }
        let ghost old_rows = self.recipients@;
        let ghost old_deliveries = self.deliveries@;
        let ghost old_msgs = self.messages@;
        let ghost input = message;
        let mut current = AgentMailboxStore::new();
        core::mem::swap(self, &mut current);
        let AgentMailboxStore { recipients: mut rows, deliveries: mut deliveries, messages: mut msgs } = current;
        let row = RecipientRow {
            root_thread_id: root,
            recipient_thread_id: recipient,
            recipient_agent_path: message.recipient_agent_path.clone(),
            next_sequence: sequence + 1,
            revision: revision + 1,
        };
        match index {
            Some(i) => {
                proof {
                    assert forall|r: ThreadId, t: ThreadId| #[trigger]
                        find_row(old_rows.update(i as int, row), r, t) == if row_is(row, r, t) {
                            Some(row)
                        } else {
                            find_row(old_rows, r, t)
                        } by {
                        lemma_find_row_update(old_rows, i as int, row, r, t);
                    }
                    lemma_find_row_update(old_rows, i as int, row, root, recipient);
                }
                rows.set(i, row);
            },
            None => {
                proof {
                    assert forall|r: ThreadId, t: ThreadId| #[trigger]
                        find_row(old_rows.push(row), r, t) == if row_is(row, r, t) {
                            Some(row)
                        } else {
                            find_row(old_rows, r, t)
                        } by {
                        lemma_find_row_push(old_rows, row, r, t);
                    }
                    assert forall|a: int, b: int| 0 <= a < b < old_rows.push(row).len() implies distinct_rows(
                        #[trigger] old_rows.push(row)[a],
                        #[trigger] old_rows.push(row)[b],
                    ) by {
                        if b == old_rows.len() {
                            lemma_find_row_none(old_rows, root, recipient, a);
                        }
                    }
                }
                rows.push(row);
            },
        }
        let stored = AgentMailboxMessage {
            id: message.id,
            root_thread_id: message.root_thread_id,
            sender_thread_id: message.sender_thread_id,
            sender_agent_path: message.sender_agent_path,
            recipient_thread_id: message.recipient_thread_id,
            recipient_agent_path: message.recipient_agent_path,
            category: message.category,
            payload: message.payload,
            created_at_ms: message.created_at_ms,
            sequence,
        };
        assert(stored == stored_message(input, sequence));
        deliveries.push(stored.duplicate());
        msgs.push(stored.duplicate());
        proof {
            let new_rows = rows@;
            assert(find_row(new_rows, root, recipient) == Some(row));
            assert forall|r: ThreadId, t: ThreadId| !(r == root && t == recipient) implies #[trigger]
                find_row(new_rows, r, t) == find_row(old_rows, r, t) by {
                assert(!row_is(row, r, t));
            }
            // rows stay distinct and in range
            assert forall|a: int| 0 <= a < new_rows.len() implies 1 <= (
            #[trigger] new_rows[a]).next_sequence && 0 <= new_rows[a].revision by {
                if a < old_rows.len() && new_rows[a] != row {
                    assert(new_rows[a] == old_rows[a]);
                }
            }
            // every unread message has its row, with a smaller sequence
            assert forall|a: int| 0 <= a < msgs@.len() implies {
                let m = #[trigger] msgs@[a];
                &&& find_row(new_rows, m.root_thread_id, m.recipient_thread_id) is Some
                &&& 1 <= m.sequence < find_row(
                    new_rows,
                    m.root_thread_id,
                    m.recipient_thread_id,
                )->Some_0.next_sequence
            } by {
                let m = msgs@[a];
                if a < old_msgs.len() {
                    assert(m == old_msgs[a]);
                    if m.root_thread_id == root && m.recipient_thread_id == recipient {
                        assert(find_row(old_rows, root, recipient) is Some);
                    }
                } else {
                    assert(m == stored);
                }
            }
            assert forall|a: int, b: int| 0 <= a < b < msgs@.len() implies arrival_ordered(
                #[trigger] msgs@[a],
                #[trigger] msgs@[b],
            ) by {
                if b == old_msgs.len() {
                    let m = old_msgs[a];
                    assert(msgs@[a] == m);
                    if m.root_thread_id == root && m.recipient_thread_id == recipient {
                        assert(find_row(old_rows, root, recipient) is Some);
                    }
                } else {
                    assert(arrival_ordered(old_msgs[a], old_msgs[b]));
                }
            }
            assert forall|a: int, b: int| 0 <= a < b < msgs@.len() implies distinct_ids(
                #[trigger] msgs@[a],
                #[trigger] msgs@[b],
            ) by {
                if b == old_msgs.len() {
                    let m = old_msgs[a];
                    assert(old_deliveries.contains(m));
                    let k = choose|k: int| 0 <= k < old_deliveries.len() && old_deliveries[k] == m;
                    assert(old_deliveries[k].id@ != input.id@);
                } else {
                    assert(distinct_ids(old_msgs[a], old_msgs[b]));
                }
            }
            assert forall|a: int, b: int| 0 <= a < b < deliveries@.len() implies distinct_ids(
                #[trigger] deliveries@[a],
                #[trigger] deliveries@[b],
            ) by {
                if b == old_deliveries.len() {
                    assert(old_deliveries[a].id@ != input.id@);
                } else {
                    assert(distinct_ids(old_deliveries[a], old_deliveries[b]));
                }
            }
            assert forall|a: int| 0 <= a < msgs@.len() implies deliveries@.contains(
                #[trigger] msgs@[a],
            ) by {
                if a < old_msgs.len() {
                    assert(old_deliveries.contains(old_msgs[a]));
                    let k = choose|k: int|
                        0 <= k < old_deliveries.len() && old_deliveries[k] == old_msgs[a];
                    assert(deliveries@[k] == old_msgs[a]);
                } else {
                    assert(deliveries@[old_deliveries.len() as int] == stored);
                }
            }
        }
        *self = AgentMailboxStore { recipients: rows, deliveries, messages: msgs };
        let snapshot = snapshot_in(&self.messages, &self.recipients, root, recipient);
        Ok(AgentMailboxEnqueueOutcome { inserted: true, message: stored, snapshot })
    }
}

// ---------------------------------------------------------------------------
// Reads and deletions
// ---------------------------------------------------------------------------

proof fn lemma_picks_extend<T>(src: Seq<T>, x: T, out: Seq<T>, idx: Seq<int>)
    requires
        picks(src, out, idx),
    ensures
        picks(src.push(x), out, idx),
{
    assert forall|k: int| 0 <= k < idx.len() implies 0 <= #[trigger] idx[k] < src.push(x).len()
        && out[k] == src.push(x)[idx[k]] by {
        assert(src.push(x)[idx[k]] == src[idx[k]]);
    }
}

/// The elements that a filter keeps are picked from the sequence in order.
proof fn lemma_filter_picks<T>(s: Seq<T>, pred: spec_fn(T) -> bool) -> (idx: Seq<int>)
    ensures
        picks(s, s.filter(pred), idx),
    decreases s.len(),
{
    reveal(Seq::filter);
    if s.len() == 0 {
        Seq::<int>::empty()
    } else {
        let prev = lemma_filter_picks(s.drop_last(), pred);
        lemma_picks_extend(s.drop_last(), s.last(), s.drop_last().filter(pred), prev);
        assert(s.drop_last().push(s.last()) =~= s);
        if pred(s.last()) {
            lemma_picks_push(s, s.drop_last().filter(pred), prev, s.len() - 1);
            prev.push(s.len() - 1)
        } else {
            prev
        }
    }
}

proof fn lemma_count_without(
    msgs: Seq<AgentMailboxMessage>,
    root: ThreadId,
    recipient: ThreadId,
    category: Option<AgentMailboxCategory>,
)
    ensures
        count_unread(msgs.filter(keeps_message(recipient)), root, recipient, category) == 0,
    decreases msgs.len(),
{
    reveal(Seq::filter);
    if msgs.len() > 0 {
        lemma_count_without(msgs.drop_last(), root, recipient, category);
        let prev = msgs.drop_last().filter(keeps_message(recipient));
        let f = msgs.filter(keeps_message(recipient));
        if keeps_message(recipient)(msgs.last()) {
            assert(f == prev.push(msgs.last()));
            assert(f.drop_last() =~= prev);
        } else {
            assert(f == prev);
        }
    }
}

proof fn lemma_find_row_without(
    rows: Seq<RecipientRow>,
    root: ThreadId,
    t: ThreadId,
    recipient: ThreadId,
)
    ensures
        find_row(rows.filter(keeps_row(recipient)), root, t) == if t == recipient {
            None
        } else {
            find_row(rows, root, t)
        },
    decreases rows.len(),
{
    reveal(Seq::filter);
    if rows.len() > 0 {
        lemma_find_row_without(rows.drop_last(), root, t, recipient);
        let prev = rows.drop_last().filter(keeps_row(recipient));
        let f = rows.filter(keeps_row(recipient));
        if keeps_row(recipient)(rows.last()) {
            assert(f == prev.push(rows.last()));
            assert(f.drop_last() =~= prev);
            assert(f.last() == rows.last());
        } else {
            assert(f == prev);
        }
    }
}

proof fn lemma_split_read_len(msgs: Seq<AgentMailboxMessage>, request: AgentMailboxReadRequest, limit: nat)
    ensures
        split_read(msgs, request, limit).0.len() + split_read(msgs, request, limit).1.len()
            == msgs.len(),
        split_read(msgs, request, limit).0.len() <= limit,
    decreases msgs.len(),
{
    if msgs.len() > 0 {
        lemma_split_read_len(msgs.drop_last(), request, limit);
    }
}

proof fn lemma_split_read_count(
    msgs: Seq<AgentMailboxMessage>,
    request: AgentMailboxReadRequest,
    limit: nat,
)
    ensures
        count_unread(msgs, request.root_thread_id, request.recipient_thread_id, None) == count_unread(
            split_read(msgs, request, limit).1,
            request.root_thread_id,
            request.recipient_thread_id,
            None,
        ) + split_read(msgs, request, limit).0.len(),
    decreases msgs.len(),
{
    if msgs.len() > 0 {
        let root = request.root_thread_id;
        let recipient = request.recipient_thread_id;
        lemma_split_read_count(msgs.drop_last(), request, limit);
        let (taken, kept) = split_read(msgs.drop_last(), request, limit);
        if !(taken.len() < limit && read_selects(request, msgs.last())) {
            assert(kept.push(msgs.last()).drop_last() =~= kept);
            assert(kept.push(msgs.last()).last() == msgs.last());
        }
    }
}

/// Whether a read request selects this message.
fn request_selects(request: &AgentMailboxReadRequest, m: &AgentMailboxMessage) -> (b: bool)
    ensures
        b == read_selects(*request, *m),
{
    if !(m.root_thread_id == request.root_thread_id && m.recipient_thread_id
        == request.recipient_thread_id) {
        return false;
    }
    match request.sender_thread_id {
        Some(sender) => {
            if m.sender_thread_id != sender {
                return false;
            }
        },
        None => {},
    }
    match &request.sender_agent_path {
        Some(path) => {
            if !str_eq(m.sender_agent_path.as_str(), path.as_str()) {
                return false;
            }
        },
        None => {},
    }
    match request.category {
        Some(category) => {
            if m.category != category {
                return false;
            }
        },
        None => {},
    }
    true
}

/// Splits the unread messages as `split_read` does, with the indices that
/// each part was picked at.
fn split_unread(msgs: &Vec<AgentMailboxMessage>, request: &AgentMailboxReadRequest, limit: usize) -> (r: (
    Vec<AgentMailboxMessage>,
    Vec<AgentMailboxMessage>,
    Ghost<Seq<int>>,
    Ghost<Seq<int>>,
))
    ensures
        (r.0@, r.1@) == split_read(msgs@, *request, limit as nat),
        picks(msgs@, r.0@, r.2@),
        picks(msgs@, r.1@, r.3@),
        forall|a: int, b: int|
            0 <= a < r.2@.len() && 0 <= b < r.3@.len() ==> #[trigger] r.2@[a] != #[trigger] r.3@[b],
        forall|k: int| 0 <= k < r.0@.len() ==> read_selects(*request, #[trigger] r.0@[k]),
{
    let mut taken: Vec<AgentMailboxMessage> = Vec::new();
    let mut kept: Vec<AgentMailboxMessage> = Vec::new();
    let ghost mut ti: Seq<int> = Seq::empty();
    let ghost mut ki: Seq<int> = Seq::empty();
    let mut i: usize = 0;
    while i < msgs.len()
        invariant
            i <= msgs@.len(),
            (taken@, kept@) == split_read(msgs@.subrange(0, i as int), *request, limit as nat),
            picks(msgs@, taken@, ti),
            picks(msgs@, kept@, ki),
            forall|k: int| 0 <= k < ti.len() ==> #[trigger] ti[k] < i,
            forall|k: int| 0 <= k < ki.len() ==> #[trigger] ki[k] < i,
            forall|a: int, b: int|
                0 <= a < ti.len() && 0 <= b < ki.len() ==> #[trigger] ti[a] != #[trigger] ki[b],
            forall|k: int| 0 <= k < taken@.len() ==> read_selects(*request, #[trigger] taken@[k]),
        decreases msgs@.len() - i,
    {
        let m = &msgs[i];
        let selects = request_selects(request, m);
        proof {
            let sub = msgs@.subrange(0, i + 1);
            assert(sub.drop_last() =~= msgs@.subrange(0, i as int));
            assert(sub.last() == msgs@[i as int]);
        }
        if taken.len() < limit && selects {
            proof {
                lemma_picks_push(msgs@, taken@, ti, i as int);
            }
            taken.push(m.duplicate());
            proof {
                ti = ti.push(i as int);
            }
        } else {
            proof {
                lemma_picks_push(msgs@, kept@, ki, i as int);
            }
            kept.push(m.duplicate());
            proof {
                ki = ki.push(i as int);
            }
        }
        i = i + 1;
    }
    assert(msgs@.subrange(0, msgs@.len() as int) =~= msgs@);
    (taken, kept, Ghost(ti), Ghost(ki))
}

fn rows_without(rows: &Vec<RecipientRow>, recipient: ThreadId) -> (out: Vec<RecipientRow>)
    ensures
        out@ == rows@.filter(keeps_row(recipient)),
{
    let mut out: Vec<RecipientRow> = Vec::new();
    let mut i: usize = 0;
    while i < rows.len()
        invariant
            i <= rows@.len(),
            out@ == rows@.subrange(0, i as int).filter(keeps_row(recipient)),
        decreases rows@.len() - i,
    {
        proof {
            reveal(Seq::filter);
            let sub = rows@.subrange(0, i + 1);
            assert(sub.drop_last() =~= rows@.subrange(0, i as int));
            assert(sub.last() == rows@[i as int]);
        }
        if rows[i].recipient_thread_id != recipient {
            out.push(rows[i].duplicate());
        }
        i = i + 1;
    }
    assert(rows@.subrange(0, rows@.len() as int) =~= rows@);
    out
}

fn messages_without(msgs: &Vec<AgentMailboxMessage>, recipient: ThreadId) -> (out: Vec<AgentMailboxMessage>)
    ensures
        out@ == msgs@.filter(keeps_message(recipient)),
{
    let mut out: Vec<AgentMailboxMessage> = Vec::new();
    let mut i: usize = 0;
    while i < msgs.len()
        invariant
            i <= msgs@.len(),
            out@ == msgs@.subrange(0, i as int).filter(keeps_message(recipient)),
        decreases msgs@.len() - i,
    {
        proof {
            reveal(Seq::filter);
            let sub = msgs@.subrange(0, i + 1);
            assert(sub.drop_last() =~= msgs@.subrange(0, i as int));
            assert(sub.last() == msgs@[i as int]);
        }
        if msgs[i].recipient_thread_id != recipient {
            out.push(msgs[i].duplicate());
        }
        i = i + 1;
    }
    assert(msgs@.subrange(0, msgs@.len() as int) =~= msgs@);
    out
}

impl AgentMailboxStore {
    /// Consumes, in arrival order, up to `min(limit, MAX_AGENT_MAILBOX_READ_LIMIT)`
    /// unread messages of the request's mailbox that match its filters. When it
    /// takes any, the mailbox's revision grows by one.
    pub fn consume(&mut self, request: AgentMailboxReadRequest) -> (r: Result<
        AgentMailboxReadOutcome,
        MailboxError,
    >)
        ensures
            delivery_ids_distinct(final(self).deliveries()),
            unread_in_arrival_order(old(self).unread()),
            unread_in_arrival_order(final(self).unread()),
            ({
                let root = request.root_thread_id;
                let recipient = request.recipient_thread_id;
                let taken = split_read(old(self).unread(), request, read_limit(request)).0;
                let kept = split_read(old(self).unread(), request, read_limit(request)).1;
                &&& taken.len() == 0 ==> {
                    &&& r is Ok
                    &&& r->Ok_0.messages@.len() == 0
                    &&& r->Ok_0.snapshot == snapshot_for(
                        old(self).unread(),
                        old(self).rows(),
                        root,
                        recipient,
                    )
                    &&& final(self).rows() == old(self).rows()
                    &&& final(self).deliveries() == old(self).deliveries()
                    &&& final(self).unread() == old(self).unread()
                }
                &&& taken.len() > 0 && revision_for(old(self).rows(), root, recipient) == i64::MAX
                    ==> {
                    &&& r == Err::<AgentMailboxReadOutcome, MailboxError>(
                        MailboxError::CounterOverflow,
                    )
                    &&& final(self).rows() == old(self).rows()
                    &&& final(self).deliveries() == old(self).deliveries()
                    &&& final(self).unread() == old(self).unread()
                }
                &&& taken.len() > 0 && revision_for(old(self).rows(), root, recipient) < i64::MAX
                    ==> {
                    &&& r is Ok
                    &&& r->Ok_0.messages@ == taken
                    &&& final(self).unread() == kept
                    &&& final(self).deliveries() == old(self).deliveries()
                    &&& find_row(old(self).rows(), root, recipient) is Some
                    &&& find_row(final(self).rows(), root, recipient) == Some(
                        bumped_revision(find_row(old(self).rows(), root, recipient)->Some_0),
                    )
                    &&& rows_agree_except(old(self).rows(), final(self).rows(), root, recipient)
                    &&& r->Ok_0.snapshot == snapshot_for(
                        final(self).unread(),
                        final(self).rows(),
                        root,
                        recipient,
                    )
                }
            }),
            r is Ok ==> forall|i: int, j: int|
                0 <= i < j < r->Ok_0.messages@.len() ==> (#[trigger] r->Ok_0.messages@[i]).sequence
                    < (#[trigger] r->Ok_0.messages@[j]).sequence,
            r is Ok ==> forall|i: int|
                0 <= i < r->Ok_0.messages@.len() ==> old(self).unread().contains(
                    #[trigger] r->Ok_0.messages@[i],
                ) && read_selects(request, r->Ok_0.messages@[i]),
            r is Ok ==> forall|i: int, j: int|
                0 <= i < r->Ok_0.messages@.len() && 0 <= j < final(self).unread().len() ==> (
                #[trigger] r->Ok_0.messages@[i]).id@ != (#[trigger] final(self).unread()[j]).id@,
            r is Ok ==> r->Ok_0.snapshot.total + r->Ok_0.messages@.len() == snapshot_for(
                old(self).unread(),
                old(self).rows(),
                request.root_thread_id,
                request.recipient_thread_id,
            ).total,
    {
        proof {
            use_type_invariant(&*self);
        }
        let limit = if request.limit < MAX_AGENT_MAILBOX_READ_LIMIT {
            request.limit
        } else {
            MAX_AGENT_MAILBOX_READ_LIMIT
        };
        let root = request.root_thread_id;
        let recipient = request.recipient_thread_id;
        let ghost old_rows = self.recipients@;
        let ghost old_deliveries = self.deliveries@;
        let ghost old_msgs = self.messages@;
        let (taken, kept, Ghost(ti), Ghost(ki)) = split_unread(&self.messages, &request, limit);
        proof {
            lemma_split_read_len(old_msgs, request, limit as nat);
            lemma_split_read_count(old_msgs, request, limit as nat);
            lemma_count_bound(kept@, root, recipient, None);
        }
        if taken.len() == 0 {
            let snapshot = snapshot_in(&self.messages, &self.recipients, root, recipient);
            return Ok(AgentMailboxReadOutcome { messages: taken, snapshot });
        }
        proof {
            let m = taken@[0];
            assert(m == old_msgs[ti[0]]);
            assert(read_selects(request, m));
        }
        let index = find_row_index(&self.recipients, root, recipient);
        let i = index.unwrap();
        let revision = self.recipients[i].revision;
        if revision == i64::MAX {
            return Err(MailboxError::CounterOverflow);
        }
        let mut current = AgentMailboxStore::new();
        core::mem::swap(self, &mut current);
        let AgentMailboxStore { recipients: mut rows, deliveries, messages: _ } = current;
        let ghost old_row = old_rows[i as int];
        let row = RecipientRow {
            root_thread_id: rows[i].root_thread_id,
            recipient_thread_id: rows[i].recipient_thread_id,
            recipient_agent_path: rows[i].recipient_agent_path.clone(),
            next_sequence: rows[i].next_sequence,
            revision: revision + 1,
        };
        assert(row == bumped_revision(old_row));
        proof {
            assert forall|r: ThreadId, t: ThreadId| #[trigger]
                find_row(old_rows.update(i as int, row), r, t) == if row_is(row, r, t) {
                    Some(row)
                } else {
                    find_row(old_rows, r, t)
                } by {
                lemma_find_row_update(old_rows, i as int, row, r, t);
            }
            lemma_find_row_update(old_rows, i as int, row, root, recipient);
        }
        rows.set(i, row);
        proof {
            let new_rows = rows@;
            assert forall|r: ThreadId, t: ThreadId| !(r == root && t == recipient) implies #[trigger]
                find_row(new_rows, r, t) == find_row(old_rows, r, t) by {
                assert(!row_is(row, r, t));
            }
            assert forall|a: int| 0 <= a < new_rows.len() implies 1 <= (
            #[trigger] new_rows[a]).next_sequence && 0 <= new_rows[a].revision by {
                if a != i {
                    assert(new_rows[a] == old_rows[a]);
                }
            }
            assert forall|a: int| 0 <= a < kept@.len() implies {
                let m = #[trigger] kept@[a];
                &&& find_row(new_rows, m.root_thread_id, m.recipient_thread_id) is Some
                &&& 1 <= m.sequence < find_row(
                    new_rows,
                    m.root_thread_id,
                    m.recipient_thread_id,
                )->Some_0.next_sequence
            } by {
                let m = kept@[a];
                assert(m == old_msgs[ki[a]]);
            }
            assert forall|a: int, b: int| 0 <= a < b < kept@.len() implies arrival_ordered(
                #[trigger] kept@[a],
                #[trigger] kept@[b],
            ) by {
                assert(ki[a] < ki[b]);
                assert(arrival_ordered(old_msgs[ki[a]], old_msgs[ki[b]]));
            }
            assert forall|a: int, b: int| 0 <= a < b < kept@.len() implies distinct_ids(
                #[trigger] kept@[a],
                #[trigger] kept@[b],
            ) by {
                assert(ki[a] < ki[b]);
                assert(distinct_ids(old_msgs[ki[a]], old_msgs[ki[b]]));
            }
            assert forall|a: int| 0 <= a < kept@.len() implies deliveries@.contains(
                #[trigger] kept@[a],
            ) by {
                assert(kept@[a] == old_msgs[ki[a]]);
                assert(old_deliveries.contains(old_msgs[ki[a]]));
            }
        }
        *self = AgentMailboxStore { recipients: rows, deliveries, messages: kept };
        let snapshot = snapshot_in(&self.messages, &self.recipients, root, recipient);
        proof {
            assert forall|a: int, b: int| 0 <= a < b < taken@.len() implies (
            #[trigger] taken@[a]).sequence < (#[trigger] taken@[b]).sequence by {
                assert(ti[a] < ti[b]);
                assert(taken@[a] == old_msgs[ti[a]] && taken@[b] == old_msgs[ti[b]]);
                assert(arrival_ordered(old_msgs[ti[a]], old_msgs[ti[b]]));
                assert(read_selects(request, taken@[a]) && read_selects(request, taken@[b]));
            }
            assert forall|a: int| 0 <= a < taken@.len() implies old_msgs.contains(
                #[trigger] taken@[a],
            ) && read_selects(request, taken@[a]) by {
                assert(taken@[a] == old_msgs[ti[a]]);
            }
            assert forall|a: int, b: int| 0 <= a < taken@.len() && 0 <= b < self.messages@.len() implies (
            #[trigger] taken@[a]).id@ != (#[trigger] self.messages@[b]).id@ by {
                assert(taken@[a] == old_msgs[ti[a]]);
                assert(self.messages@[b] == old_msgs[ki[b]]);
                assert(ti[a] != ki[b]);
                if ti[a] < ki[b] {
                    assert(distinct_ids(old_msgs[ti[a]], old_msgs[ki[b]]));
                } else {
                    assert(distinct_ids(old_msgs[ki[b]], old_msgs[ti[a]]));
                }
            }
        }
        Ok(AgentMailboxReadOutcome { messages: taken, snapshot })
    }

    /// Removes the mailboxes of `recipient_thread_id` under every root thread:
    /// their bookkeeping rows and unread messages. The delivery log stays, so
    /// an id that was delivered before is still not delivered again.
    pub fn delete_recipient_messages(&mut self, recipient_thread_id: ThreadId)
        ensures
            delivery_ids_distinct(final(self).deliveries()),
            unread_in_arrival_order(old(self).unread()),
            unread_in_arrival_order(final(self).unread()),
            final(self).rows() == old(self).rows().filter(keeps_row(recipient_thread_id)),
            final(self).unread() == old(self).unread().filter(keeps_message(recipient_thread_id)),
            final(self).deliveries() == old(self).deliveries(),
            forall|root: ThreadId| #[trigger]
                snapshot_for(final(self).unread(), final(self).rows(), root, recipient_thread_id)
                    == empty_snapshot(),
    {
        proof {
            use_type_invariant(&*self);
        }
        let ghost old_rows = self.recipients@;
        let ghost old_deliveries = self.deliveries@;
        let ghost old_msgs = self.messages@;
        let rows = rows_without(&self.recipients, recipient_thread_id);
        let msgs = messages_without(&self.messages, recipient_thread_id);
        let mut current = AgentMailboxStore::new();
        core::mem::swap(self, &mut current);
        let AgentMailboxStore { recipients: _, deliveries, messages: _ } = current;
        proof {
            let row_idx = lemma_filter_picks(old_rows, keeps_row(recipient_thread_id));
            let msg_idx = lemma_filter_picks(old_msgs, keeps_message(recipient_thread_id));
            old_msgs.lemma_filter_len(keeps_message(recipient_thread_id));
            assert forall|r: ThreadId, t: ThreadId| #[trigger] find_row(rows@, r, t) == if t
                == recipient_thread_id {
                None
            } else {
                find_row(old_rows, r, t)
            } by {
                lemma_find_row_without(old_rows, r, t, recipient_thread_id);
            }
            assert forall|a: int, b: int| 0 <= a < b < rows@.len() implies distinct_rows(
                #[trigger] rows@[a],
                #[trigger] rows@[b],
            ) by {
                assert(row_idx[a] < row_idx[b]);
                assert(distinct_rows(old_rows[row_idx[a]], old_rows[row_idx[b]]));
            }
            assert forall|a: int| 0 <= a < rows@.len() implies 1 <= (
            #[trigger] rows@[a]).next_sequence && 0 <= rows@[a].revision by {
                assert(rows@[a] == old_rows[row_idx[a]]);
            }
            assert forall|a: int| 0 <= a < msgs@.len() implies {
                let m = #[trigger] msgs@[a];
                &&& find_row(rows@, m.root_thread_id, m.recipient_thread_id) is Some
                &&& 1 <= m.sequence < find_row(
                    rows@,
                    m.root_thread_id,
                    m.recipient_thread_id,
                )->Some_0.next_sequence
            } by {
                let m = msgs@[a];
                assert(m == old_msgs[msg_idx[a]]);
                old_msgs.lemma_filter_pred(keeps_message(recipient_thread_id), a);
            }
            assert forall|a: int, b: int| 0 <= a < b < msgs@.len() implies arrival_ordered(
                #[trigger] msgs@[a],
                #[trigger] msgs@[b],
            ) by {
                assert(msg_idx[a] < msg_idx[b]);
                assert(arrival_ordered(old_msgs[msg_idx[a]], old_msgs[msg_idx[b]]));
            }
            assert forall|a: int, b: int| 0 <= a < b < msgs@.len() implies distinct_ids(
                #[trigger] msgs@[a],
                #[trigger] msgs@[b],
            ) by {
                assert(msg_idx[a] < msg_idx[b]);
                assert(distinct_ids(old_msgs[msg_idx[a]], old_msgs[msg_idx[b]]));
            }
            assert forall|a: int| 0 <= a < msgs@.len() implies deliveries@.contains(
                #[trigger] msgs@[a],
            ) by {
                assert(msgs@[a] == old_msgs[msg_idx[a]]);
                assert(old_deliveries.contains(old_msgs[msg_idx[a]]));
            }
        }
        *self = AgentMailboxStore { recipients: rows, deliveries, messages: msgs };
        proof {
            assert forall|root: ThreadId| #[trigger]
                snapshot_for(self.messages@, self.recipients@, root, recipient_thread_id)
                    == empty_snapshot() by {
                lemma_find_row_without(old_rows, root, recipient_thread_id, recipient_thread_id);
                lemma_count_without(old_msgs, root, recipient_thread_id, None);
                lemma_count_without(
                    old_msgs,
                    root,
                    recipient_thread_id,
                    Some(AgentMailboxCategory::Progress),
                );
                lemma_count_without(
                    old_msgs,
                    root,
                    recipient_thread_id,
                    Some(AgentMailboxCategory::Result),
                );
                lemma_count_without(
                    old_msgs,
                    root,
                    recipient_thread_id,
                    Some(AgentMailboxCategory::ActionRequired),
                );
            }
        }
    }
}

} // verus!
