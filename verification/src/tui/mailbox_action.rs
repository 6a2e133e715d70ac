//! The transcript entry of an agent mailbox action: its title and details.

use super::styled::{
    SpanStyle, StyledSpan, line_view, lines_view, pair_line, prefix_lines, prefixed, span,
    span_view,
};
use crate::mailbox::AgentMailboxCategory;
use crate::text::{decimal, owned, push_decimal, push_str};
use vstd::prelude::*;

verus! {

/// How far a mailbox action got.
#[derive(Clone, Copy, Debug, PartialEq, Eq, Structural)]
pub enum AgentMailboxActionStatus {
    InProgress,
    Succeeded,
    Failed,
}

/// What a previewed message holds.
#[derive(Clone, Debug, PartialEq, Eq)]
pub enum AgentMailboxMessagePreviewContent {
    Plaintext { preview: Option<String> },
    Encrypted,
}

/// A message shown by a read action.
#[derive(Clone, Debug, PartialEq, Eq)]
pub struct AgentMailboxMessagePreview {
    pub sender: String,
    pub category: AgentMailboxCategory,
    pub content: AgentMailboxMessagePreviewContent,
}

/// What a mailbox action did.
#[derive(Clone, Debug, PartialEq, Eq)]
pub enum AgentMailboxActionKind {
    Send {
        target: String,
        recipient: Option<String>,
        category: AgentMailboxCategory,
        preview: Option<String>,
    },
    Read {
        sender: Option<String>,
        category: Option<AgentMailboxCategory>,
        limit: u64,
        messages: Vec<AgentMailboxMessagePreview>,
    },
}

/// A mailbox action of an agent.
#[derive(Clone, Debug, PartialEq, Eq)]
pub struct AgentMailboxAction {
    pub id: String,
    pub status: AgentMailboxActionStatus,
    pub action: AgentMailboxActionKind,
}

/// The name of a category in the transcript.
pub open spec fn spec_category_name(category: AgentMailboxCategory) -> Seq<char> {
    match category {
        AgentMailboxCategory::Progress => "progress"@,
        AgentMailboxCategory::Result => "result"@,
        AgentMailboxCategory::ActionRequired => "action required"@,
    }
}

pub fn category_name(category: AgentMailboxCategory) -> (r: &'static str)
    ensures
        r@ == spec_category_name(category),
{
    match category {
        AgentMailboxCategory::Progress => "progress",
        AgentMailboxCategory::Result => "result",
        AgentMailboxCategory::ActionRequired => "action required",
    }
}

/// The title of a mailbox action.
pub open spec fn spec_action_title(action: AgentMailboxAction) -> Seq<char> {
    match (action.action, action.status) {
        (AgentMailboxActionKind::Send { .. }, AgentMailboxActionStatus::InProgress) => "Sending mailbox message"@,
        (AgentMailboxActionKind::Send { .. }, AgentMailboxActionStatus::Succeeded) => "Sent mailbox message"@,
        (AgentMailboxActionKind::Send { .. }, AgentMailboxActionStatus::Failed) => "Failed to send mailbox message"@,
        (AgentMailboxActionKind::Read { .. }, AgentMailboxActionStatus::InProgress) => "Reading agent mailbox"@,
        (AgentMailboxActionKind::Read { messages, .. }, AgentMailboxActionStatus::Succeeded) => {
            if messages@.len() == 0 {
                "No mailbox messages found"@
            } else {
                "Read "@ + decimal(messages@.len()) + " mailbox message"@ + if messages@.len() == 1 {
                    ""@
                } else {
                    "s"@
                }
            }
        },
        (AgentMailboxActionKind::Read { .. }, AgentMailboxActionStatus::Failed) => "Failed to read agent mailbox"@,
    }
}

/// Builds the title of a mailbox action.
pub fn agent_mailbox_action_title(action: &AgentMailboxAction) -> (r: String)
    ensures
        r@ == spec_action_title(*action),
{
    match (&action.action, action.status) {
        (AgentMailboxActionKind::Send { .. }, AgentMailboxActionStatus::InProgress) => owned(
            "Sending mailbox message",
        ),
        (AgentMailboxActionKind::Send { .. }, AgentMailboxActionStatus::Succeeded) => owned(
            "Sent mailbox message",
        ),
        (AgentMailboxActionKind::Send { .. }, AgentMailboxActionStatus::Failed) => owned(
            "Failed to send mailbox message",
        ),
        (AgentMailboxActionKind::Read { .. }, AgentMailboxActionStatus::InProgress) => owned(
            "Reading agent mailbox",
        ),
        (AgentMailboxActionKind::Read { messages, .. }, AgentMailboxActionStatus::Succeeded) => {
            if messages.len() == 0 {
                owned("No mailbox messages found")
            } else {
                let mut r = owned("Read ");
                push_decimal(&mut r, messages.len() as u64);
                push_str(&mut r, " mailbox message");
                if messages.len() != 1 {
                    push_str(&mut r, "s");
                } else {
                    proof {
                        reveal_strlit("");
                    }
                    assert(r@ =~= r@ + ""@);
                }
                r
            }
        },
        (AgentMailboxActionKind::Read { .. }, AgentMailboxActionStatus::Failed) => owned(
            "Failed to read agent mailbox",
        ),
    }
}

/// The preview text of a message.
pub open spec fn spec_message_preview(content: AgentMailboxMessagePreviewContent) -> Seq<char> {
    match content {
        AgentMailboxMessagePreviewContent::Plaintext { preview } => match preview {
            Some(p) => p@,
            None => "<empty message>"@,
        },
        AgentMailboxMessagePreviewContent::Encrypted => "<encrypted message>"@,
    }
}

/// The line of one message: `sender · category: ` dimmed, then the preview.
pub open spec fn spec_message_line(message: AgentMailboxMessagePreview) -> Seq<(SpanStyle, Seq<char>)> {
    seq![
        (SpanStyle::Dim, message.sender@ + " · "@ + spec_category_name(message.category) + ": "@),
        (SpanStyle::Plain, spec_message_preview(message.content)),
    ]
}

pub fn agent_mailbox_message_line(message: &AgentMailboxMessagePreview) -> (l: Vec<StyledSpan>)
    ensures
        line_view(l@) == spec_message_line(*message),
{
    let preview = match &message.content {
        AgentMailboxMessagePreviewContent::Plaintext { preview } => match preview {
            Some(p) => p.clone(),
            None => owned("<empty message>"),
        },
        AgentMailboxMessagePreviewContent::Encrypted => owned("<encrypted message>"),
    };
    let mut head = message.sender.clone();
    push_str(&mut head, " · ");
    push_str(&mut head, category_name(message.category));
    push_str(&mut head, ": ");
    pair_line(span(SpanStyle::Dim, head), span(SpanStyle::Plain, preview))
}

/// The lines of the messages.
pub open spec fn spec_message_lines(messages: Seq<AgentMailboxMessagePreview>) -> Seq<
    Seq<(SpanStyle, Seq<char>)>,
> {
    messages.map_values(|m: AgentMailboxMessagePreview| spec_message_line(m))
}

/// The detail lines of a mailbox action.
pub open spec fn spec_action_details(action: AgentMailboxAction) -> Seq<Seq<(SpanStyle, Seq<char>)>> {
    match action.action {
        AgentMailboxActionKind::Send { target, recipient, category, preview } => {
            let who = match recipient {
                Some(r) => seq![(SpanStyle::Dim, "Recipient: "@), (SpanStyle::Plain, r@)],
                None => seq![(SpanStyle::Dim, "Target: "@), (SpanStyle::Plain, target@)],
            };
            let base = seq![
                who,
                seq![(SpanStyle::Dim, "Category: "@), (SpanStyle::Plain, spec_category_name(category))],
            ];
            match preview {
                Some(p) => base.push(seq![(SpanStyle::Dim, "Preview: "@), (SpanStyle::Plain, p@)]),
                None => base,
            }
        },
        AgentMailboxActionKind::Read { sender, category, limit, messages } => {
            let s: Seq<Seq<(SpanStyle, Seq<char>)>> = match sender {
                Some(x) => seq![seq![(SpanStyle::Dim, "Sender: "@), (SpanStyle::Plain, x@)]],
                None => Seq::empty(),
            };
            let c: Seq<Seq<(SpanStyle, Seq<char>)>> = match category {
                Some(x) => seq![
                    seq![(SpanStyle::Dim, "Category: "@), (SpanStyle::Plain, spec_category_name(x))],
                ],
                None => Seq::empty(),
            };
            let l = seq![seq![(SpanStyle::Dim, "Limit: "@), (SpanStyle::Plain, decimal(limit as nat))]];
            s + c + l + if action.status == AgentMailboxActionStatus::Succeeded {
                spec_message_lines(messages@)
            } else {
                Seq::empty()
            }
        },
    }
}

fn push_line(lines: &mut Vec<Vec<StyledSpan>>, line: Vec<StyledSpan>)
    ensures
        lines_view(final(lines)@) == lines_view(old(lines)@).push(line_view(line@)),
{
    let ghost before = lines_view(lines@);
    let ghost lv = line_view(line@);
    lines.push(line);
    assert(lines_view(lines@) =~= before.push(lv));
}

/// Builds the detail lines of a mailbox action.
pub fn agent_mailbox_action_details(action: &AgentMailboxAction) -> (r: Vec<Vec<StyledSpan>>)
    ensures
        lines_view(r@) == spec_action_details(*action),
{
    let mut details: Vec<Vec<StyledSpan>> = Vec::new();
    assert(lines_view(details@) =~= Seq::<Seq<(SpanStyle, Seq<char>)>>::empty());
    match &action.action {
        AgentMailboxActionKind::Send { target, recipient, category, preview } => {
            let who = match recipient {
                Some(r) => pair_line(
                    span(SpanStyle::Dim, owned("Recipient: ")),
                    span(SpanStyle::Plain, r.clone()),
                ),
                None => pair_line(
                    span(SpanStyle::Dim, owned("Target: ")),
                    span(SpanStyle::Plain, target.clone()),
                ),
            };
            push_line(&mut details, who);
            push_line(
                &mut details,
                pair_line(
                    span(SpanStyle::Dim, owned("Category: ")),
                    span(SpanStyle::Plain, owned(category_name(*category))),
                ),
            );
            match preview {
                Some(p) => {
                    push_line(
                        &mut details,
                        pair_line(span(SpanStyle::Dim, owned("Preview: ")), span(SpanStyle::Plain, p.clone())),
                    );
                },
                None => {},
            }
            details
        },
        AgentMailboxActionKind::Read { sender, category, limit, messages } => {
            match sender {
                Some(x) => {
                    push_line(
                        &mut details,
                        pair_line(span(SpanStyle::Dim, owned("Sender: ")), span(SpanStyle::Plain, x.clone())),
                    );
                },
                None => {},
            }
            let ghost after_sender = lines_view(details@);
            match category {
                Some(x) => {
                    push_line(
                        &mut details,
                        pair_line(
                            span(SpanStyle::Dim, owned("Category: ")),
                            span(SpanStyle::Plain, owned(category_name(*x))),
                        ),
                    );
                },
                None => {},
            }
            let mut limit_text = String::new();
            push_decimal(&mut limit_text, *limit);
            push_line(
                &mut details,
                pair_line(span(SpanStyle::Dim, owned("Limit: ")), span(SpanStyle::Plain, limit_text)),
            );
            let ghost head = lines_view(details@);
            if action.status == AgentMailboxActionStatus::Succeeded {
                let mut i: usize = 0;
                while i < messages.len()
                    invariant
                        i <= messages@.len(),
                        lines_view(details@) == head + spec_message_lines(messages@).subrange(0, i as int),
                    decreases messages@.len() - i,
                {
                    push_line(&mut details, agent_mailbox_message_line(&messages[i]));
                    proof {
                        let ml = spec_message_lines(messages@);
                        assert(ml.subrange(0, i + 1) =~= ml.subrange(0, i as int).push(ml[i as int]));
                    }
                    i = i + 1;
                }
                assert(spec_message_lines(messages@).subrange(0, messages@.len() as int) =~= spec_message_lines(
                    messages@,
                ));
            } else {
                assert(head + Seq::<Seq<(SpanStyle, Seq<char>)>>::empty() =~= head);
            }
            details
        },
    }
}

/// The title line: a dimmed bullet and the bold title.
pub open spec fn spec_title_line(action: AgentMailboxAction) -> Seq<(SpanStyle, Seq<char>)> {
    seq![(SpanStyle::Dim, "• "@), (SpanStyle::Bold, spec_action_title(action))]
}

/// The lines of a mailbox action in the transcript: the title, then the
/// details, the first behind `  └ ` and the others indented.
pub fn agent_mailbox_action_lines(action: &AgentMailboxAction) -> (r: Vec<Vec<StyledSpan>>)
    ensures
        lines_view(r@) == seq![spec_title_line(*action)] + prefixed(
            spec_action_details(*action),
            (SpanStyle::Dim, "  └ "@),
            (SpanStyle::Plain, "    "@),
        ),
{
    let title = pair_line(
        span(SpanStyle::Dim, owned("• ")),
        span(SpanStyle::Bold, agent_mailbox_action_title(action)),
    );
    let details = prefix_lines(
        agent_mailbox_action_details(action),
        &span(SpanStyle::Dim, owned("  └ ")),
        &span(SpanStyle::Plain, owned("    ")),
    );
    let mut lines: Vec<Vec<StyledSpan>> = Vec::new();
    push_line(&mut lines, title);
    let ghost head = lines_view(lines@);
    let ghost rest = lines_view(details@);
    let mut details = details;
    lines.append(&mut details);
    assert(lines_view(lines@) =~= head + rest);
    lines
}

} // verus!
