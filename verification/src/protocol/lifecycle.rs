//! Which canonical turn items are stored durably in which thread-history
//! mode, and how the legacy history builder treats them.

use vstd::prelude::*;

verus! {

/// How a thread's history is stored.
#[derive(Clone, Copy, Debug, PartialEq, Eq, Structural)]
pub enum ThreadHistoryMode {
    Legacy,
    Paginated,
}

/// History modes in which a completed canonical turn item is durable.
#[derive(Clone, Copy, Debug, PartialEq, Eq, Structural)]
pub enum CompletedItemPersistence {
    /// Persist the canonical completion only in paginated rollouts.
    PaginatedOnly,
    /// Persist the canonical completion in both legacy and paginated rollouts.
    AllHistoryModes,
}

impl CompletedItemPersistence {
    pub open spec fn spec_includes(self, history_mode: ThreadHistoryMode) -> bool {
        match self {
            CompletedItemPersistence::PaginatedOnly => history_mode == ThreadHistoryMode::Paginated,
            CompletedItemPersistence::AllHistoryModes => true,
        }
    }

    /// Returns whether the canonical completion is durable in `history_mode`.
    pub fn includes(self, history_mode: ThreadHistoryMode) -> (b: bool)
        ensures
            b == self.spec_includes(history_mode),
    {
        match self {
            CompletedItemPersistence::PaginatedOnly => history_mode == ThreadHistoryMode::Paginated,
            CompletedItemPersistence::AllHistoryModes => true,
        }
    }
}

/// How the legacy thread-history builder handles a canonical lifecycle item.
#[derive(Clone, Copy, Debug, PartialEq, Eq, Structural)]
pub enum MaterializedItemHandling {
    /// Upsert the canonical item directly.
    CanonicalLifecycle,
    /// Reconstruct the item from its response item or legacy event projection.
    CompatibilityProjection,
}

/// Durable and legacy-history behavior for one canonical turn item.
#[derive(Clone, Copy, Debug, PartialEq, Eq, Structural)]
pub struct TurnItemLifecyclePolicy {
    completed_item_persistence: CompletedItemPersistence,
    materialized_item_handling: MaterializedItemHandling,
}

impl TurnItemLifecyclePolicy {
    pub closed spec fn persistence(self) -> CompletedItemPersistence {
        self.completed_item_persistence
    }

    pub closed spec fn handling(self) -> MaterializedItemHandling {
        self.materialized_item_handling
    }

    /// Returns the history modes that durably store the canonical completion.
    pub fn completed_item_persistence(self) -> (p: CompletedItemPersistence)
        ensures
            p == self.persistence(),
    {
        self.completed_item_persistence
    }

    /// Returns how legacy history reconstruction handles the canonical item.
    pub fn materialized_item_handling(self) -> (h: MaterializedItemHandling)
        ensures
            h == self.handling(),
    {
        self.materialized_item_handling
    }
}

/// The kinds of items that an extension can add to a turn.
#[derive(Clone, Copy, Debug, PartialEq, Eq, Structural)]
pub enum ExtensionItemKind {
    Sleep,
    MemoryMutation,
    ImageGeneration,
    WebSearch,
}

/// The kind of a canonical turn item, which is all its lifecycle policy depends on.
#[derive(Clone, Copy, Debug, PartialEq, Eq, Structural)]
pub enum TurnItemKind {
    UserMessage,
    HookPrompt,
    AgentMessage,
    Plan,
    Reasoning,
    CommandExecution,
    DynamicToolCall,
    CollabAgentToolCall,
    SubAgentActivity,
    WebSearch,
    ImageView,
    ImageGeneration,
    EnteredReviewMode,
    ExitedReviewMode,
    FileChange,
    McpToolCall,
    SkillLoad,
    ContextCompaction,
    Extension(ExtensionItemKind),
}

impl TurnItemKind {
    /// Plans, sleeps and memory mutations are durable in every history mode;
    /// every other item only in paginated rollouts.
    pub open spec fn spec_persistence(self) -> CompletedItemPersistence {
        match self {
            TurnItemKind::Plan => CompletedItemPersistence::AllHistoryModes,
            TurnItemKind::Extension(ExtensionItemKind::Sleep) => CompletedItemPersistence::AllHistoryModes,
            TurnItemKind::Extension(ExtensionItemKind::MemoryMutation) => CompletedItemPersistence::AllHistoryModes,
            _ => CompletedItemPersistence::PaginatedOnly,
        }
    }

    /// Items that the legacy history has no projection for are upserted as
    /// canonical items; the others are rebuilt from their legacy projection.
    pub open spec fn spec_handling(self) -> MaterializedItemHandling {
        match self {
            TurnItemKind::HookPrompt => MaterializedItemHandling::CanonicalLifecycle,
            TurnItemKind::Plan => MaterializedItemHandling::CanonicalLifecycle,
            TurnItemKind::CommandExecution => MaterializedItemHandling::CanonicalLifecycle,
            TurnItemKind::DynamicToolCall => MaterializedItemHandling::CanonicalLifecycle,
            TurnItemKind::CollabAgentToolCall => MaterializedItemHandling::CanonicalLifecycle,
            TurnItemKind::SubAgentActivity => MaterializedItemHandling::CanonicalLifecycle,
            TurnItemKind::Extension(_) => MaterializedItemHandling::CanonicalLifecycle,
            TurnItemKind::EnteredReviewMode => MaterializedItemHandling::CanonicalLifecycle,
            TurnItemKind::ExitedReviewMode => MaterializedItemHandling::CanonicalLifecycle,
            TurnItemKind::SkillLoad => MaterializedItemHandling::CanonicalLifecycle,
            _ => MaterializedItemHandling::CompatibilityProjection,
        }
    }

    /// Returns the shared persistence and history-materialization policy for this item.
    pub fn lifecycle_policy(&self) -> (p: TurnItemLifecyclePolicy)
        ensures
            p.persistence() == self.spec_persistence(),
            p.handling() == self.spec_handling(),
            ({
                let item = *self;
                p.handling() == MaterializedItemHandling::CompatibilityProjection <==> (item == TurnItemKind::UserMessage || item == TurnItemKind::AgentMessage
                || item == TurnItemKind::Reasoning || item == TurnItemKind::WebSearch || item
                == TurnItemKind::ImageView || item == TurnItemKind::ImageGeneration || item
                == TurnItemKind::FileChange || item == TurnItemKind::McpToolCall || item
                == TurnItemKind::ContextCompaction)
            }),
            ({
                let item = *self;
                p.persistence() == CompletedItemPersistence::AllHistoryModes <==> (item == TurnItemKind::Plan || item == TurnItemKind::Extension(ExtensionItemKind::Sleep)
                || item == TurnItemKind::Extension(ExtensionItemKind::MemoryMutation))
            }),
    {
        proof {
            lemma_materialized_handling_cases(*self);
            lemma_persistence_cases(*self);
        }
        let completed_item_persistence = match self {
            TurnItemKind::Plan
            | TurnItemKind::Extension(ExtensionItemKind::Sleep)
            | TurnItemKind::Extension(ExtensionItemKind::MemoryMutation) => {
                CompletedItemPersistence::AllHistoryModes
            },
            TurnItemKind::UserMessage
            | TurnItemKind::HookPrompt
            | TurnItemKind::AgentMessage
            | TurnItemKind::Reasoning
            | TurnItemKind::CommandExecution
            | TurnItemKind::DynamicToolCall
            | TurnItemKind::CollabAgentToolCall
            | TurnItemKind::SubAgentActivity
            | TurnItemKind::WebSearch
            | TurnItemKind::ImageView
            | TurnItemKind::Extension(ExtensionItemKind::ImageGeneration)
            | TurnItemKind::Extension(ExtensionItemKind::WebSearch)
            | TurnItemKind::ImageGeneration
            | TurnItemKind::EnteredReviewMode
            | TurnItemKind::ExitedReviewMode
            | TurnItemKind::FileChange
            | TurnItemKind::McpToolCall
            | TurnItemKind::SkillLoad
            | TurnItemKind::ContextCompaction => CompletedItemPersistence::PaginatedOnly,
        };
        let materialized_item_handling = match self {
            TurnItemKind::HookPrompt
            | TurnItemKind::Plan
            | TurnItemKind::CommandExecution
            | TurnItemKind::DynamicToolCall
            | TurnItemKind::CollabAgentToolCall
            | TurnItemKind::SubAgentActivity
            | TurnItemKind::Extension(_)
            | TurnItemKind::EnteredReviewMode
            | TurnItemKind::ExitedReviewMode
            | TurnItemKind::SkillLoad => MaterializedItemHandling::CanonicalLifecycle,
            TurnItemKind::UserMessage
            | TurnItemKind::AgentMessage
            | TurnItemKind::Reasoning
            | TurnItemKind::WebSearch
            | TurnItemKind::ImageView
            | TurnItemKind::ImageGeneration
            | TurnItemKind::FileChange
            | TurnItemKind::McpToolCall
            | TurnItemKind::ContextCompaction => MaterializedItemHandling::CompatibilityProjection,
        };
        TurnItemLifecyclePolicy { completed_item_persistence, materialized_item_handling }
    }
}

/// The legacy history rebuilds exactly user and agent messages, reasoning,
/// web searches, image views and generations, file changes, MCP tool calls
/// and context compactions from their projections; every other item,
/// command executions among them, is upserted as a canonical item.
pub proof fn lemma_materialized_handling_cases(item: TurnItemKind)
    ensures
        item.spec_handling() == MaterializedItemHandling::CompatibilityProjection <==> (item == TurnItemKind::UserMessage || item == TurnItemKind::AgentMessage
                || item == TurnItemKind::Reasoning || item == TurnItemKind::WebSearch || item
                == TurnItemKind::ImageView || item == TurnItemKind::ImageGeneration || item
                == TurnItemKind::FileChange || item == TurnItemKind::McpToolCall || item
                == TurnItemKind::ContextCompaction),
        item.spec_handling() == MaterializedItemHandling::CanonicalLifecycle <==> !(item == TurnItemKind::UserMessage || item == TurnItemKind::AgentMessage
                || item == TurnItemKind::Reasoning || item == TurnItemKind::WebSearch || item
                == TurnItemKind::ImageView || item == TurnItemKind::ImageGeneration || item
                == TurnItemKind::FileChange || item == TurnItemKind::McpToolCall || item
                == TurnItemKind::ContextCompaction),
{
}

/// Only plans, sleeps and memory mutations are durable in every history mode.
pub proof fn lemma_persistence_cases(item: TurnItemKind)
    ensures
        item.spec_persistence() == CompletedItemPersistence::AllHistoryModes <==> (item == TurnItemKind::Plan || item == TurnItemKind::Extension(ExtensionItemKind::Sleep)
                || item == TurnItemKind::Extension(ExtensionItemKind::MemoryMutation)),
        item.spec_persistence() == CompletedItemPersistence::PaginatedOnly <==> !(item == TurnItemKind::Plan || item == TurnItemKind::Extension(ExtensionItemKind::Sleep)
                || item == TurnItemKind::Extension(ExtensionItemKind::MemoryMutation)),
{
}

/// Every item is durable in paginated rollouts, and an item durable in the
/// legacy mode is durable in every mode.
pub proof fn lemma_paginated_stores_everything(item: TurnItemKind, mode: ThreadHistoryMode)
    ensures
        item.spec_persistence().spec_includes(ThreadHistoryMode::Paginated),
        item.spec_persistence().spec_includes(ThreadHistoryMode::Legacy) ==> item.spec_persistence().spec_includes(
            mode,
        ),
{
}

/// Items durable in the legacy mode are upserted as canonical items there,
/// since the legacy history has no other record of them.
pub proof fn lemma_legacy_durable_items_are_canonical(item: TurnItemKind)
    ensures
        item.spec_persistence().spec_includes(ThreadHistoryMode::Legacy) ==> item.spec_handling()
            == MaterializedItemHandling::CanonicalLifecycle,
{
}

} // verus!
