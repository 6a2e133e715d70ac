//! Agent mailbox: messages that agents of one root thread send one another,
//! delivered at most once, in arrival order.

pub mod store;

use crate::ids::ThreadId;
use crate::text::{owned, push_str, str_eq};
use vstd::prelude::*;

verus! {

/// Kind of a mailbox message.
#[derive(Clone, Copy, Debug, PartialEq, Eq, Structural)]
pub enum AgentMailboxCategory {
    Progress,
    Result,
    ActionRequired,
}

/// Errors of the mailbox.
#[derive(Clone, Debug, PartialEq, Eq)]
pub enum MailboxError {
    /// A stored category name that no category has.
    UnknownCategory(String),
    /// A stored payload kind that no payload has.
    UnknownPayloadKind(String),
    /// A per-recipient counter cannot grow any further.
    CounterOverflow,
}

impl MailboxError {
    /// The human-readable description of the error.
    pub fn message(&self) -> (m: String)
        ensures
            m@ == self.spec_message(),
    {
        match self {
            MailboxError::UnknownCategory(other) => {
                let mut m = owned("unknown agent mailbox category `");
                push_str(&mut m, other.as_str());
                push_str(&mut m, "`");
                m
            },
            MailboxError::UnknownPayloadKind(other) => {
                let mut m = owned("unknown agent mailbox payload kind `");
                push_str(&mut m, other.as_str());
                push_str(&mut m, "`");
                m
            },
            MailboxError::CounterOverflow => owned("agent mailbox counter overflowed"),
        }
    }

    pub open spec fn spec_message(&self) -> Seq<char> {
        match self {
            MailboxError::UnknownCategory(other) => "unknown agent mailbox category `"@ + other@
                + "`"@,
            MailboxError::UnknownPayloadKind(other) => "unknown agent mailbox payload kind `"@
                + other@ + "`"@,
            MailboxError::CounterOverflow => "agent mailbox counter overflowed"@,
        }
    }
}

impl AgentMailboxCategory {
    /// The name under which the category is stored.
    pub open spec fn spec_name(self) -> Seq<char> {
        match self {
            AgentMailboxCategory::Progress => "progress"@,
            AgentMailboxCategory::Result => "result"@,
            AgentMailboxCategory::ActionRequired => "action_required"@,
        }
    }

    /// The name under which the category is stored.
    pub fn as_str(self) -> (s: &'static str)
        ensures
            s@ == self.spec_name(),
    {
        match self {
            AgentMailboxCategory::Progress => "progress",
            AgentMailboxCategory::Result => "result",
            AgentMailboxCategory::ActionRequired => "action_required",
        }
    }

    /// The category stored under `value`.
    pub fn try_from(value: &str) -> (r: Result<AgentMailboxCategory, MailboxError>)
        ensures
            match r {
                Ok(c) => c.spec_name() == value@,
                Err(e) => (forall|c: AgentMailboxCategory| c.spec_name() != value@) && e
                    == MailboxError::UnknownCategory(e->UnknownCategory_0) && e->UnknownCategory_0@
                    == value@,
            },
    {
        if str_eq(value, "progress") {
            Ok(AgentMailboxCategory::Progress)
        } else if str_eq(value, "result") {
            Ok(AgentMailboxCategory::Result)
        } else if str_eq(value, "action_required") {
            Ok(AgentMailboxCategory::ActionRequired)
        } else {
            proof {
                assert forall|c: AgentMailboxCategory| c.spec_name() != value@ by {
                    match c {
                        AgentMailboxCategory::Progress => {},
                        AgentMailboxCategory::Result => {},
                        AgentMailboxCategory::ActionRequired => {},
                    }
                }
            }
            Err(MailboxError::UnknownCategory(owned(value)))
        }
    }
}

/// Every category is read back from its stored name.
pub proof fn lemma_category_names_distinct(a: AgentMailboxCategory, b: AgentMailboxCategory)
    ensures
        a.spec_name() == b.spec_name() <==> a == b,
{
    reveal_strlit("progress");
    reveal_strlit("result");
    reveal_strlit("action_required");
    if a != b {
        match (a, b) {
            (AgentMailboxCategory::Progress, AgentMailboxCategory::Result) => {
                assert(a.spec_name().len() != b.spec_name().len());
            },
            (AgentMailboxCategory::Result, AgentMailboxCategory::Progress) => {
                assert(a.spec_name().len() != b.spec_name().len());
            },
            (AgentMailboxCategory::Progress, AgentMailboxCategory::ActionRequired) => {
                assert(a.spec_name().len() != b.spec_name().len());
            },
            (AgentMailboxCategory::ActionRequired, AgentMailboxCategory::Progress) => {
                assert(a.spec_name().len() != b.spec_name().len());
            },
            (AgentMailboxCategory::Result, AgentMailboxCategory::ActionRequired) => {
                assert(a.spec_name().len() != b.spec_name().len());
            },
            (AgentMailboxCategory::ActionRequired, AgentMailboxCategory::Result) => {
                assert(a.spec_name().len() != b.spec_name().len());
            },
            _ => {},
        }
    }
}

/// The body of a mailbox message.
#[derive(Clone, Debug, PartialEq, Eq)]
pub enum AgentMailboxPayload {
    Plaintext { content: String },
    Encrypted { encrypted_content: String },
}

impl AgentMailboxPayload {
    /// The kind name under which the payload is stored.
    pub open spec fn spec_kind(&self) -> Seq<char> {
        match self {
            AgentMailboxPayload::Plaintext { .. } => "plaintext"@,
            AgentMailboxPayload::Encrypted { .. } => "encrypted"@,
        }
    }

    /// The stored text of the payload.
    pub open spec fn spec_content(&self) -> Seq<char> {
        match self {
            AgentMailboxPayload::Plaintext { content } => content@,
            AgentMailboxPayload::Encrypted { encrypted_content } => encrypted_content@,
        }
    }

    /// The stored kind name and text.
    pub fn kind_and_content(&self) -> (r: (&'static str, &str))
        ensures
            r.0@ == self.spec_kind(),
            r.1@ == self.spec_content(),
    {
        match self {
            AgentMailboxPayload::Plaintext { content } => ("plaintext", content.as_str()),
            AgentMailboxPayload::Encrypted { encrypted_content } => (
                "encrypted",
                encrypted_content.as_str(),
            ),
        }
    }

    /// Rebuilds a payload from its stored kind name and text.
    pub fn from_parts(kind: &str, content: String) -> (r: Result<AgentMailboxPayload, MailboxError>)
        ensures
            match r {
                Ok(p) => p.spec_kind() == kind@ && p.spec_content() == content@,
                Err(e) => kind@ != "plaintext"@ && kind@ != "encrypted"@ && e
                    == MailboxError::UnknownPayloadKind(e->UnknownPayloadKind_0)
                    && e->UnknownPayloadKind_0@ == kind@,
            },
    {
        if str_eq(kind, "plaintext") {
            Ok(AgentMailboxPayload::Plaintext { content })
        } else if str_eq(kind, "encrypted") {
            Ok(AgentMailboxPayload::Encrypted { encrypted_content: content })
        } else {
            Err(MailboxError::UnknownPayloadKind(owned(kind)))
        }
    }

    /// A copy of the payload.
    pub fn duplicate(&self) -> (r: AgentMailboxPayload)
        ensures
            r == *self,
    {
        match self {
            AgentMailboxPayload::Plaintext { content } => AgentMailboxPayload::Plaintext {
                content: content.clone(),
            },
            AgentMailboxPayload::Encrypted { encrypted_content } => AgentMailboxPayload::Encrypted {
                encrypted_content: encrypted_content.clone(),
            },
        }
    }
}

/// A message as a sender hands it to the mailbox.
#[derive(Clone, Debug, PartialEq, Eq)]
pub struct AgentMailboxMessageInput {
    pub id: String,
    pub root_thread_id: ThreadId,
    pub sender_thread_id: ThreadId,
    pub sender_agent_path: String,
    pub recipient_thread_id: ThreadId,
    pub recipient_agent_path: String,
    pub category: AgentMailboxCategory,
    pub payload: AgentMailboxPayload,
    /// Creation time in milliseconds since the Unix epoch.
    pub created_at_ms: i64,
}

/// A stored message with its per-recipient arrival sequence number.
#[derive(Clone, Debug, PartialEq, Eq)]
pub struct AgentMailboxMessage {
    pub id: String,
    pub root_thread_id: ThreadId,
    pub sender_thread_id: ThreadId,
    pub sender_agent_path: String,
    pub recipient_thread_id: ThreadId,
    pub recipient_agent_path: String,
    pub category: AgentMailboxCategory,
    pub payload: AgentMailboxPayload,
    /// Creation time in milliseconds since the Unix epoch.
    pub created_at_ms: i64,
    pub sequence: i64,
}

impl AgentMailboxMessage {
    /// A copy of the message.
    pub fn duplicate(&self) -> (r: AgentMailboxMessage)
        ensures
            r == *self,
    {
        AgentMailboxMessage {
            id: self.id.clone(),
            root_thread_id: self.root_thread_id,
            sender_thread_id: self.sender_thread_id,
            sender_agent_path: self.sender_agent_path.clone(),
            recipient_thread_id: self.recipient_thread_id,
            recipient_agent_path: self.recipient_agent_path.clone(),
            category: self.category,
            payload: self.payload.duplicate(),
            created_at_ms: self.created_at_ms,
            sequence: self.sequence,
        }
    }
}

/// The message that storing `input` under `sequence` gives.
pub open spec fn stored_message(input: AgentMailboxMessageInput, sequence: i64) -> AgentMailboxMessage {
    AgentMailboxMessage {
        id: input.id,
        root_thread_id: input.root_thread_id,
        sender_thread_id: input.sender_thread_id,
        sender_agent_path: input.sender_agent_path,
        recipient_thread_id: input.recipient_thread_id,
        recipient_agent_path: input.recipient_agent_path,
        category: input.category,
        payload: input.payload,
        created_at_ms: input.created_at_ms,
        sequence,
    }
}

/// Unread counts of one recipient's mailbox, and its revision.
#[derive(Clone, Copy, Debug, PartialEq, Eq, Structural)]
pub struct AgentMailboxUnreadSnapshot {
    pub total: i64,
    pub progress: i64,
    pub result: i64,
    pub action_required: i64,
    pub revision: i64,
}

/// What an enqueue did.
#[derive(Clone, Debug, PartialEq, Eq)]
pub struct AgentMailboxEnqueueOutcome {
    /// False when a message with the same id was delivered before.
    pub inserted: bool,
    pub message: AgentMailboxMessage,
    pub snapshot: AgentMailboxUnreadSnapshot,
}

/// Which messages a read consumes.
#[derive(Clone, Debug, PartialEq, Eq)]
pub struct AgentMailboxReadRequest {
    pub root_thread_id: ThreadId,
    pub recipient_thread_id: ThreadId,
    pub sender_thread_id: Option<ThreadId>,
    pub sender_agent_path: Option<String>,
    pub category: Option<AgentMailboxCategory>,
    pub limit: usize,
}

/// What a read consumed.
#[derive(Clone, Debug, PartialEq, Eq)]
pub struct AgentMailboxReadOutcome {
    pub messages: Vec<AgentMailboxMessage>,
    pub snapshot: AgentMailboxUnreadSnapshot,
}

} // verus!
