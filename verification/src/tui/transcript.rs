//! One-line transcript summaries: context anchors, memory mutations and
//! compaction reports.

use crate::text::{
    char_is_whitespace, decimal, is_blank, owned, push_char, push_decimal, push_str, str_is_blank,
    trim, trim_str,
};
use super::styled::{SpanStyle, StyledSpan, line_view, lines_view, push_line, push_span, span};
use vstd::prelude::*;

verus! {

/// The summary of a saved context anchor, with its label when not blank.
pub open spec fn spec_anchor_saved(anchor_id: Seq<char>, label: Option<Seq<char>>) -> Seq<char> {
    let base = "Context anchor saved: "@ + anchor_id;
    match label {
        Some(l) => if is_blank(l) {
            base
        } else {
            base + " · "@ + trim(l)
        },
        None => base,
    }
}

pub fn context_anchor_saved_summary(anchor_id: &str, label: Option<&str>) -> (r: String)
    ensures
        r@ == spec_anchor_saved(
            anchor_id@,
            match label {
                Some(l) => Some(l@),
                None => None,
            },
        ),
{
    let mut summary = owned("Context anchor saved: ");
    push_str(&mut summary, anchor_id);
    match label {
        Some(l) => {
            if !str_is_blank(l) {
                push_str(&mut summary, " · ");
                let t = trim_str(l);
                push_str(&mut summary, t.as_str());
            }
        },
        None => {},
    }
    summary
}

/// `word` or its plural by the count.
pub open spec fn noun(count: nat, one: Seq<char>, many: Seq<char>) -> Seq<char> {
    if count == 1 {
        one
    } else {
        many
    }
}

/// The summary of a rewind to a context anchor.
pub open spec fn spec_anchor_rewound(
    anchor_id: Seq<char>,
    dropped_turns: u32,
    items: u64,
    tokens: u64,
    percent: u32,
    met: Option<bool>,
) -> Seq<char> {
    let threshold = match met {
        Some(true) => "meets "@ + decimal(percent as nat) + "% threshold"@,
        Some(false) => "below "@ + decimal(percent as nat) + "% threshold"@,
        None => decimal(percent as nat) + "% threshold unknown"@,
    };
    "Context rewound to anchor: "@ + anchor_id + " · reclaimed ~"@ + decimal(tokens as nat)
        + " tokens ("@ + decimal(items as nat) + " "@ + noun(items as nat, "item"@, "items"@)
        + ") · "@ + threshold + " · dropped "@ + decimal(dropped_turns as nat) + " user "@ + noun(
        dropped_turns as nat,
        "turn"@,
        "turns"@,
    )
}

pub fn context_anchor_rewound_summary(
    anchor_id: &str,
    dropped_turns: u32,
    response_items_reclaimed: u64,
    approx_tokens_reclaimed: u64,
    reclaim_threshold_percent: u32,
    reclaim_threshold_met: Option<bool>,
) -> (r: String)
    ensures
        r@ == spec_anchor_rewound(
            anchor_id@,
            dropped_turns,
            response_items_reclaimed,
            approx_tokens_reclaimed,
            reclaim_threshold_percent,
            reclaim_threshold_met,
        ),
{
    let mut threshold = String::new();
    match reclaim_threshold_met {
        Some(true) => {
            push_str(&mut threshold, "meets ");
            push_decimal(&mut threshold, reclaim_threshold_percent as u64);
            push_str(&mut threshold, "% threshold");
        },
        Some(false) => {
            push_str(&mut threshold, "below ");
            push_decimal(&mut threshold, reclaim_threshold_percent as u64);
            push_str(&mut threshold, "% threshold");
        },
        None => {
            push_decimal(&mut threshold, reclaim_threshold_percent as u64);
            push_str(&mut threshold, "% threshold unknown");
        },
    }
    let mut r = owned("Context rewound to anchor: ");
    push_str(&mut r, anchor_id);
    push_str(&mut r, " · reclaimed ~");
    push_decimal(&mut r, approx_tokens_reclaimed);
    push_str(&mut r, " tokens (");
    push_decimal(&mut r, response_items_reclaimed);
    push_str(&mut r, " ");
    push_str(
        &mut r,
        if response_items_reclaimed == 1 {
            "item"
        } else {
            "items"
        },
    );
    push_str(&mut r, ") · ");
    push_str(&mut r, threshold.as_str());
    push_str(&mut r, " · dropped ");
    push_decimal(&mut r, dropped_turns as u64);
    push_str(&mut r, " user ");
    push_str(
        &mut r,
        if dropped_turns == 1 {
            "turn"
        } else {
            "turns"
        },
    );
    r
}

#[derive(Clone, Copy, Debug, PartialEq, Eq, Structural)]
pub enum MemoryMutationAction {
    Write,
    Delete,
}

#[derive(Clone, Copy, Debug, PartialEq, Eq, Structural)]
pub enum MemoryMutationStatus {
    InProgress,
    Succeeded,
    Failed,
}

#[derive(Clone, Copy, Debug, PartialEq, Eq, Structural)]
pub enum MemoryMutationScope {
    Global,
    Session,
    Project,
}

/// A change to the agent's memory.
#[derive(Clone, Debug, PartialEq, Eq)]
pub struct MemoryMutation {
    pub action: MemoryMutationAction,
    pub status: MemoryMutationStatus,
    pub scope: MemoryMutationScope,
    pub title: Option<String>,
    pub path: Option<String>,
    pub preview: Option<String>,
}

pub open spec fn spec_memory_title(action: MemoryMutationAction, status: MemoryMutationStatus) -> Seq<char> {
    match (action, status) {
        (MemoryMutationAction::Write, MemoryMutationStatus::InProgress) => "Writing memory"@,
        (MemoryMutationAction::Write, MemoryMutationStatus::Succeeded) => "Wrote memory"@,
        (MemoryMutationAction::Write, MemoryMutationStatus::Failed) => "Failed to write memory"@,
        (MemoryMutationAction::Delete, MemoryMutationStatus::InProgress) => "Deleting memory"@,
        (MemoryMutationAction::Delete, MemoryMutationStatus::Succeeded) => "Deleted memory"@,
        (MemoryMutationAction::Delete, MemoryMutationStatus::Failed) => "Failed to delete memory"@,
    }
}

pub fn memory_mutation_title(mutation: &MemoryMutation) -> (r: &'static str)
    ensures
        r@ == spec_memory_title(mutation.action, mutation.status),
{
    match (mutation.action, mutation.status) {
        (MemoryMutationAction::Write, MemoryMutationStatus::InProgress) => "Writing memory",
        (MemoryMutationAction::Write, MemoryMutationStatus::Succeeded) => "Wrote memory",
        (MemoryMutationAction::Write, MemoryMutationStatus::Failed) => "Failed to write memory",
        (MemoryMutationAction::Delete, MemoryMutationStatus::InProgress) => "Deleting memory",
        (MemoryMutationAction::Delete, MemoryMutationStatus::Succeeded) => "Deleted memory",
        (MemoryMutationAction::Delete, MemoryMutationStatus::Failed) => "Failed to delete memory",
    }
}

pub open spec fn spec_memory_scope(scope: MemoryMutationScope) -> Seq<char> {
    match scope {
        MemoryMutationScope::Global => "global"@,
        MemoryMutationScope::Session => "session"@,
        MemoryMutationScope::Project => "project"@,
    }
}

pub fn memory_mutation_scope(scope: MemoryMutationScope) -> (r: &'static str)
    ensures
        r@ == spec_memory_scope(scope),
{
    match scope {
        MemoryMutationScope::Global => "global",
        MemoryMutationScope::Session => "session",
        MemoryMutationScope::Project => "project",
    }
}

/// `· name: value` when the value is present.
pub open spec fn opt_field(name: Seq<char>, value: Option<String>) -> Seq<char> {
    match value {
        Some(v) => " · "@ + name + ": "@ + v@,
        None => Seq::empty(),
    }
}

/// The one-line summary of a memory mutation.
pub open spec fn spec_memory_summary(m: MemoryMutation) -> Seq<char> {
    spec_memory_title(m.action, m.status) + " · scope: "@ + spec_memory_scope(m.scope) + opt_field(
        "title"@,
        m.title,
    ) + opt_field("path"@, m.path) + opt_field("preview"@, m.preview)
}

fn push_opt_field(s: &mut String, name: &str, value: &Option<String>)
    ensures
        final(s)@ == old(s)@ + opt_field(name@, *value),
{
    match value {
        Some(v) => {
            push_str(s, " · ");
            push_str(s, name);
            push_str(s, ": ");
            push_str(s, v.as_str());
        },
        None => {
            assert(s@ =~= s@ + Seq::<char>::empty());
        },
    }
}

pub fn memory_mutation_summary(mutation: &MemoryMutation) -> (r: String)
    ensures
        r@ == spec_memory_summary(*mutation),
{
    let mut r = owned(memory_mutation_title(mutation));
    push_str(&mut r, " · scope: ");
    push_str(&mut r, memory_mutation_scope(mutation.scope));
    push_opt_field(&mut r, "title", &mutation.title);
    push_opt_field(&mut r, "path", &mutation.path);
    push_opt_field(&mut r, "preview", &mutation.preview);
    r
}

/// The note after a truncated preview.
pub const TRUNCATION_NOTE: &'static str = "\n... truncated; see the full JSON file above ...";

/// The text, or its first `limit` characters and a note when it is longer.
pub open spec fn spec_truncate_chars(text: Seq<char>, limit: usize) -> Seq<char> {
    if text.len() <= limit {
        text
    } else {
        text.subrange(0, limit as int) + TRUNCATION_NOTE@
    }
}

pub fn truncate_chars(text: &str, limit: usize) -> (r: String)
    ensures
        r@ == spec_truncate_chars(text@, limit),
{
    let n = text.unicode_len();
    if n <= limit {
        return owned(text);
    }
    let mut r = String::new();
    let mut i: usize = 0;
    while i < limit
        invariant
            n == text@.len(),
            limit < n,
            i <= limit,
            r@ == text@.subrange(0, i as int),
        decreases limit - i,
    {
        push_char(&mut r, text.get_char(i));
        i = i + 1;
        assert(r@ =~= text@.subrange(0, i as int));
    }
    push_str(&mut r, TRUNCATION_NOTE);
    r
}

/// A character that may stay in a file name: ASCII letters and digits, `-`, `_`.
pub open spec fn stem_char(c: char) -> bool {
    ('a' <= c && c <= 'z') || ('A' <= c && c <= 'Z') || ('0' <= c && c <= '9') || c == '-' || c
        == '_'
}

/// Each other character becomes `_`; an empty stem becomes `rollout`.
pub open spec fn spec_sanitize_stem(raw: Seq<char>) -> Seq<char> {
    if raw.len() == 0 {
        "rollout"@
    } else {
        Seq::new(raw.len(), |i: int| if stem_char(raw[i]) { raw[i] } else { '_' })
    }
}

pub fn sanitize_file_stem(raw: &str) -> (r: String)
    ensures
        r@ == spec_sanitize_stem(raw@),
{
    let n = raw.unicode_len();
    if n == 0 {
        return owned("rollout");
    }
    let mut r = String::new();
    let mut i: usize = 0;
    while i < n
        invariant
            n == raw@.len(),
            i <= n,
            r@ == Seq::new(i as nat, |k: int| if stem_char(raw@[k]) { raw@[k] } else { '_' }),
        decreases n - i,
    {
        let c = raw.get_char(i);
        let keep = ('a' <= c && c <= 'z') || ('A' <= c && c <= 'Z') || ('0' <= c && c <= '9') || c
            == '-' || c == '_';
        push_char(
            &mut r,
            if keep {
                c
            } else {
                '_'
            },
        );
        i = i + 1;
        assert(r@ =~= Seq::new(i as nat, |k: int| if stem_char(raw@[k]) { raw@[k] } else { '_' }));
    }
    r
}

/// Sanitized file names hold only allowed characters.
pub proof fn lemma_sanitized_stem_is_safe(raw: Seq<char>)
    ensures
        spec_sanitize_stem(raw).len() > 0,
        raw.len() > 0 ==> forall|i: int|
            0 <= i < spec_sanitize_stem(raw).len() ==> stem_char(#[trigger] spec_sanitize_stem(raw)[i]),
{
    reveal_strlit("rollout");
}

/// The stem of the report file: the thread id, else the rollout file's stem,
/// else `rollout`, sanitized.
pub fn report_file_stem(thread_id: Option<&str>, rollout_stem: Option<&str>) -> (r: String)
    ensures
        r@ == spec_sanitize_stem(
            match thread_id {
                Some(t) => t@,
                None => match rollout_stem {
                    Some(s) => s@,
                    None => "rollout"@,
                },
            },
        ),
{
    match thread_id {
        Some(t) => sanitize_file_stem(t),
        None => match rollout_stem {
            Some(s) => sanitize_file_stem(s),
            None => sanitize_file_stem("rollout"),
        },
    }
}


// ---------------------------------------------------------------------------
// Skill loads
// ---------------------------------------------------------------------------

/// The header of a skill load.
pub open spec fn skill_header(name: Seq<char>, failed: bool) -> Seq<char> {
    if failed {
        "Failed to read skill "@ + name
    } else {
        "Read skill "@ + name
    }
}

fn skill_header_text(name: &str, failed: bool) -> (r: String)
    ensures
        r@ == skill_header(name@, failed),
{
    let mut r = if failed {
        owned("Failed to read skill ")
    } else {
        owned("Read skill ")
    };
    push_str(&mut r, name);
    r
}

/// The first line of a skill load row: a bold bullet, red when the load
/// failed and green otherwise, then the bold header.
pub fn skill_load_header_line(name: &str, failed: bool) -> (r: Vec<StyledSpan>)
    ensures
        line_view(r@) == seq![
            (if failed {
                SpanStyle::RedBold
            } else {
                SpanStyle::GreenBold
            }, "•"@),
            (SpanStyle::Plain, " "@),
            (SpanStyle::Bold, skill_header(name@, failed)),
        ],
{
    let mut line: Vec<StyledSpan> = Vec::new();
    let bullet_style = if failed {
        SpanStyle::RedBold
    } else {
        SpanStyle::GreenBold
    };
    push_span(&mut line, span(bullet_style, owned("•")));
    push_span(&mut line, span(SpanStyle::Plain, owned(" ")));
    push_span(&mut line, span(SpanStyle::Bold, skill_header_text(name, failed)));
    assert(line_view(line@) =~= seq![
        (bullet_style, "•"@),
        (SpanStyle::Plain, " "@),
        (SpanStyle::Bold, skill_header(name@, failed)),
    ]);
    line
}

/// The detail lines of a skill load before wrapping: the skill's path and
/// the error, each dimmed, when present.
pub fn skill_load_detail_lines(path: Option<&str>, error: Option<&str>) -> (r: Vec<Vec<StyledSpan>>)
    ensures
        lines_view(r@) == match path {
            Some(p) => seq![seq![(SpanStyle::Dim, p@)]],
            None => Seq::empty(),
        } + match error {
            Some(e) => seq![seq![(SpanStyle::Dim, e@)]],
            None => Seq::empty(),
        },
{
    let mut lines: Vec<Vec<StyledSpan>> = Vec::new();
    assert(lines_view(lines@) =~= Seq::<Seq<(SpanStyle, Seq<char>)>>::empty());
    match path {
        Some(p) => {
            let mut line: Vec<StyledSpan> = Vec::new();
            push_span(&mut line, span(SpanStyle::Dim, owned(p)));
            assert(line_view(line@) =~= seq![(SpanStyle::Dim, p@)]);
            push_line(&mut lines, line);
        },
        None => {},
    }
    let ghost head = lines_view(lines@);
    match error {
        Some(e) => {
            let mut line: Vec<StyledSpan> = Vec::new();
            push_span(&mut line, span(SpanStyle::Dim, owned(e)));
            assert(line_view(line@) =~= seq![(SpanStyle::Dim, e@)]);
            push_line(&mut lines, line);
            assert(lines_view(lines@) =~= head + seq![seq![(SpanStyle::Dim, e@)]]);
        },
        None => {
            assert(lines_view(lines@) =~= head + Seq::<Seq<(SpanStyle, Seq<char>)>>::empty());
        },
    }
    lines
}

/// The plain lines of a skill load: the header, the path and the error.
pub fn skill_load_raw_lines(name: &str, failed: bool, path: Option<&str>, error: Option<&str>) -> (r:
    Vec<String>)
    ensures
        r@.map_values(|l: String| l@) == seq![skill_header(name@, failed)] + match path {
            Some(p) => seq![p@],
            None => Seq::empty(),
        } + match error {
            Some(e) => seq![e@],
            None => Seq::empty(),
        },
{
    let mut lines: Vec<String> = Vec::new();
    lines.push(skill_header_text(name, failed));
    let ghost one = lines@.map_values(|l: String| l@);
    assert(one =~= seq![skill_header(name@, failed)]);
    match path {
        Some(p) => {
            lines.push(owned(p));
            assert(lines@.map_values(|l: String| l@) =~= one + seq![p@]);
        },
        None => {
            assert(lines@.map_values(|l: String| l@) =~= one + Seq::<Seq<char>>::empty());
        },
    }
    let ghost two = lines@.map_values(|l: String| l@);
    match error {
        Some(e) => {
            lines.push(owned(e));
            assert(lines@.map_values(|l: String| l@) =~= two + seq![e@]);
        },
        None => {
            assert(lines@.map_values(|l: String| l@) =~= two + Seq::<Seq<char>>::empty());
        },
    }
    lines
}


// ---------------------------------------------------------------------------
// Compaction reports
// ---------------------------------------------------------------------------

pub const COMPACT_INSPECT_MISSING_ROLLOUT: &'static str = "Rollout path is not available yet.";

pub const COMPACT_INSPECT_NO_COMPACTION: &'static str =
    "No compaction records found in the current rollout.";

pub const COMPACT_INSPECT_RESULT_KIND: &'static str =
    "installed replacement history / post-processed compaction result";

pub const COMPACT_INSPECT_REMOTE_NOTE: &'static str =
    "This is the rollout-persisted result, not necessarily the raw remote compaction response.";

/// Most characters of replacement-history JSON in a summary.
pub const PREVIEW_CHAR_LIMIT: usize = 1200;

/// Why a compaction report could not be made; the I/O and serializer
/// errors as their text.
#[derive(Clone, Debug, PartialEq, Eq)]
pub enum CompactInspectError {
    Read(String),
    NoCompaction,
    Serialize(String),
    Write(String),
}

impl CompactInspectError {
    pub open spec fn spec_message(&self) -> Seq<char> {
        match self {
            CompactInspectError::Read(e) => "Failed to read rollout file: "@ + e@,
            CompactInspectError::NoCompaction => COMPACT_INSPECT_NO_COMPACTION@,
            CompactInspectError::Serialize(e) => "Failed to serialize compaction report: "@ + e@,
            CompactInspectError::Write(e) => "Failed to write compaction report: "@ + e@,
        }
    }

    /// The error's text.
    pub fn message(&self) -> (m: String)
        ensures
            m@ == self.spec_message(),
    {
        match self {
            CompactInspectError::Read(e) => {
                let mut m = owned("Failed to read rollout file: ");
                push_str(&mut m, e.as_str());
                m
            },
            CompactInspectError::NoCompaction => owned(COMPACT_INSPECT_NO_COMPACTION),
            CompactInspectError::Serialize(e) => {
                let mut m = owned("Failed to serialize compaction report: ");
                push_str(&mut m, e.as_str());
                m
            },
            CompactInspectError::Write(e) => {
                let mut m = owned("Failed to write compaction report: ");
                push_str(&mut m, e.as_str());
                m
            },
        }
    }
}

/// The last line that holds a compaction record, with its 1-based number.
pub open spec fn spec_latest<T>(parsed: Seq<Option<T>>) -> Option<(int, T)>
    decreases parsed.len(),
{
    if parsed.len() == 0 {
        None
    } else {
        match parsed.last() {
            Some(t) => Some((parsed.len() as int, t)),
            None => spec_latest(parsed.drop_last()),
        }
    }
}

/// Picks the latest compaction record of a rollout, given each line as the
/// record it holds (`None` for lines that hold none or do not parse); the
/// result carries its 1-based line number.
pub fn latest_compaction<T>(parsed: Vec<Option<T>>) -> (r: Result<(usize, T), CompactInspectError>)
    ensures
        match spec_latest(parsed@) {
            Some((line, t)) => r is Ok && r->Ok_0.0 == line && r->Ok_0.1 == t,
            None => r == Err::<(usize, T), CompactInspectError>(CompactInspectError::NoCompaction),
        },
{
    let ghost all = parsed@;
    let mut rest = parsed;
    while rest.len() > 0
        invariant
            all == parsed@,
            rest@.len() <= all.len(),
            rest@ == all.subrange(0, rest@.len() as int),
            spec_latest(all) == spec_latest(rest@),
        decreases rest@.len(),
    {
        let n = rest.len();
        let ghost before = rest@;
        let last = rest.pop();
        assert(last == Some(before.last()));
        assert(rest@ == before.drop_last());
        match last {
            Some(Some(t)) => {
                assert(spec_latest(before) == Some((n as int, t)));
                return Ok((n, t));
            },
            _ => {
                assert(rest@ =~= all.subrange(0, rest@.len() as int));
            },
        }
    }
    Err(CompactInspectError::NoCompaction)
}

/// The summary of the latest compaction: what it is, where it came from,
/// its message, how many replacement-history items it has and a preview of
/// them (their JSON cut to `PREVIEW_CHAR_LIMIT` characters).
pub open spec fn spec_compaction_summary(
    rollout_path: Seq<char>,
    line_number: usize,
    message: Seq<char>,
    replacement_history: Option<(usize, Seq<char>)>,
    output_path: Seq<char>,
) -> Seq<char> {
    "Latest compaction result\nKind: "@ + COMPACT_INSPECT_RESULT_KIND@ + "\nNote: "@
        + COMPACT_INSPECT_REMOTE_NOTE@ + "\nRollout: "@ + rollout_path + "\nLine: "@ + decimal(
        line_number as nat,
    ) + "\nMessage: "@ + message + "\nReplacement history items: "@ + decimal(
        match replacement_history {
            Some((count, _)) => count as nat,
            None => 0,
        },
    ) + "\nFull JSON: "@ + output_path + "\nPreview:\n"@ + match replacement_history {
        Some((_, json)) => spec_truncate_chars(json, PREVIEW_CHAR_LIMIT),
        None => "replacement_history is not present in this compaction record."@,
    }
}

/// Renders the summary of the latest compaction. `replacement_history` is
/// the number of replacement-history items and their pretty JSON, when the
/// record has them.
pub fn render_compaction_summary(
    rollout_path: &str,
    line_number: usize,
    message: &str,
    replacement_history: Option<(usize, &str)>,
    output_path: &str,
) -> (r: String)
    ensures
        r@ == spec_compaction_summary(
            rollout_path@,
            line_number,
            message@,
            match replacement_history {
                Some((count, json)) => Some((count, json@)),
                None => None,
            },
            output_path@,
        ),
{
    let mut r = owned("Latest compaction result\nKind: ");
    push_str(&mut r, COMPACT_INSPECT_RESULT_KIND);
    push_str(&mut r, "\nNote: ");
    push_str(&mut r, COMPACT_INSPECT_REMOTE_NOTE);
    push_str(&mut r, "\nRollout: ");
    push_str(&mut r, rollout_path);
    push_str(&mut r, "\nLine: ");
    push_decimal(&mut r, line_number as u64);
    push_str(&mut r, "\nMessage: ");
    push_str(&mut r, message);
    push_str(&mut r, "\nReplacement history items: ");
    let count: usize = match replacement_history {
        Some((count, _)) => count,
        None => 0,
    };
    push_decimal(&mut r, count as u64);
    push_str(&mut r, "\nFull JSON: ");
    push_str(&mut r, output_path);
    push_str(&mut r, "\nPreview:\n");
    match replacement_history {
        Some((_, json)) => {
            let preview = truncate_chars(json, PREVIEW_CHAR_LIMIT);
            push_str(&mut r, preview.as_str());
        },
        None => push_str(&mut r, "replacement_history is not present in this compaction record."),
    }
    r
}


/// `name` dimmed, then the value, when the value is present.
pub open spec fn opt_detail(name: Seq<char>, value: Option<String>) -> Seq<Seq<(SpanStyle, Seq<char>)>> {
    match value {
        Some(v) => seq![seq![(SpanStyle::Dim, name), (SpanStyle::Plain, v@)]],
        None => Seq::empty(),
    }
}

/// The detail lines of a memory mutation: its scope, then its title, path
/// and preview when present.
pub open spec fn spec_memory_details(m: MemoryMutation) -> Seq<Seq<(SpanStyle, Seq<char>)>> {
    seq![seq![(SpanStyle::Dim, "Scope: "@), (SpanStyle::Plain, spec_memory_scope(m.scope))]]
        + opt_detail("Title: "@, m.title) + opt_detail("Path: "@, m.path) + opt_detail(
        "Preview: "@,
        m.preview,
    )
}

fn push_opt_detail(lines: &mut Vec<Vec<StyledSpan>>, name: &str, value: &Option<String>)
    ensures
        lines_view(final(lines)@) == lines_view(old(lines)@) + opt_detail(name@, *value),
{
    let ghost before = lines_view(lines@);
    match value {
        Some(v) => {
            let mut line: Vec<StyledSpan> = Vec::new();
            push_span(&mut line, span(SpanStyle::Dim, owned(name)));
            push_span(&mut line, span(SpanStyle::Plain, v.clone()));
            assert(line_view(line@) =~= seq![(SpanStyle::Dim, name@), (SpanStyle::Plain, v@)]);
            push_line(lines, line);
            assert(lines_view(lines@) =~= before + opt_detail(name@, *value));
        },
        None => {
            assert(lines_view(lines@) =~= before + opt_detail(name@, *value));
        },
    }
}

/// The row of a memory mutation: the bold title behind a dimmed bullet,
/// then the details, the first behind `  └ ` and the others indented.
pub fn memory_mutation_lines(mutation: &MemoryMutation) -> (r: Vec<Vec<StyledSpan>>)
    ensures
        lines_view(r@) == seq![
            seq![(SpanStyle::Dim, "• "@), (SpanStyle::Bold, spec_memory_title(mutation.action, mutation.status))],
        ] + super::styled::prefixed(
            spec_memory_details(*mutation),
            (SpanStyle::Dim, "  └ "@),
            (SpanStyle::Plain, "    "@),
        ),
{
    let mut title: Vec<StyledSpan> = Vec::new();
    push_span(&mut title, span(SpanStyle::Dim, owned("• ")));
    push_span(&mut title, span(SpanStyle::Bold, owned(memory_mutation_title(mutation))));
    assert(line_view(title@) =~= seq![
        (SpanStyle::Dim, "• "@),
        (SpanStyle::Bold, spec_memory_title(mutation.action, mutation.status)),
    ]);
    let mut details: Vec<Vec<StyledSpan>> = Vec::new();
    let mut scope: Vec<StyledSpan> = Vec::new();
    push_span(&mut scope, span(SpanStyle::Dim, owned("Scope: ")));
    push_span(&mut scope, span(SpanStyle::Plain, owned(memory_mutation_scope(mutation.scope))));
    assert(line_view(scope@) =~= seq![
        (SpanStyle::Dim, "Scope: "@),
        (SpanStyle::Plain, spec_memory_scope(mutation.scope)),
    ]);
    push_line(&mut details, scope);
    let ghost first = lines_view(details@);
    push_opt_detail(&mut details, "Title: ", &mutation.title);
    push_opt_detail(&mut details, "Path: ", &mutation.path);
    push_opt_detail(&mut details, "Preview: ", &mutation.preview);
    proof {
        reveal_strlit("Title: ");
        reveal_strlit("Path: ");
        reveal_strlit("Preview: ");
        assert(first =~= seq![
            seq![(SpanStyle::Dim, "Scope: "@), (SpanStyle::Plain, spec_memory_scope(mutation.scope))],
        ]);
    }
    assert(lines_view(details@) =~= spec_memory_details(*mutation));
    let mut lines: Vec<Vec<StyledSpan>> = Vec::new();
    push_line(&mut lines, title);
    let ghost head = lines_view(lines@);
    let mut rest = super::styled::prefix_lines(
        details,
        &span(SpanStyle::Dim, owned("  └ ")),
        &span(SpanStyle::Plain, owned("    ")),
    );
    let ghost tail = lines_view(rest@);
    lines.append(&mut rest);
    assert(lines_view(lines@) =~= head + tail);
    lines
}

} // verus!
