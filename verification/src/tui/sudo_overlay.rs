//! The sudo approval and credential prompts: what each key does and what
//! they show.

use crate::protocol::sudo_once::SudoOnceCredential;
use crate::secret::{
    SecretText, seal_text, secret_pop, secret_push, secret_push_str, secret_take, secret_text,
    secret_wipe, wipe_string,
};
use crate::text::{owned, push_char, push_decimal, push_str, decimal};
use super::styled::{SpanStyle, StyledSpan, line_view, lines_view, push_line, push_span, span};
use vstd::prelude::*;

verus! {

/// Whether a key went down, repeated or went up.
#[derive(Clone, Copy, Debug, PartialEq, Eq, Structural)]
pub enum KeyEventKind {
    Press,
    Repeat,
    Release,
}

/// The keys the prompts react to.
#[derive(Clone, Copy, Debug, PartialEq, Eq, Structural)]
pub enum KeyCode {
    Esc,
    Enter,
    Backspace,
    Char(char),
    Left,
    Right,
    Other,
}

/// Modifier bits as the terminal reports them.
pub const SHIFT: u8 = 0x01;
pub const CONTROL: u8 = 0x02;
pub const ALT: u8 = 0x04;
pub const SUPER: u8 = 0x08;

/// A key event.
#[derive(Clone, Copy, Debug, PartialEq, Eq, Structural)]
pub struct KeyEvent {
    pub code: KeyCode,
    pub modifiers: u8,
    pub kind: KeyEventKind,
}

/// Esc, or Ctrl-C with no other modifier, cancels a prompt.
pub open spec fn cancels(key: KeyEvent) -> bool {
    key.code == KeyCode::Esc || ((key.code == KeyCode::Char('c') || key.code == KeyCode::Char('C'))
        && key.modifiers == CONTROL)
}

/// What a key does to the approval prompt.
#[derive(Clone, Copy, Debug, PartialEq, Eq, Structural)]
pub enum ApprovalKeyAction {
    Abort,
    Approve,
    Ignore,
}

/// The approval prompt: releases do nothing, Esc and Ctrl-C abort, and `y`
/// without modifiers authorizes the command once.
pub open spec fn spec_approval_key(key: KeyEvent) -> ApprovalKeyAction {
    if key.kind == KeyEventKind::Release {
        ApprovalKeyAction::Ignore
    } else if cancels(key) {
        ApprovalKeyAction::Abort
    } else if key.modifiers == 0 && (key.code == KeyCode::Char('y') || key.code == KeyCode::Char(
        'Y',
    )) {
        ApprovalKeyAction::Approve
    } else {
        ApprovalKeyAction::Ignore
    }
}

fn key_cancels(key: KeyEvent) -> (b: bool)
    ensures
        b == cancels(key),
{
    key.code == KeyCode::Esc || ((key.code == KeyCode::Char('c') || key.code == KeyCode::Char('C'))
        && key.modifiers == CONTROL)
}

pub fn approval_key_action(key: KeyEvent) -> (a: ApprovalKeyAction)
    ensures
        a == spec_approval_key(key),
{
    if key.kind == KeyEventKind::Release {
        ApprovalKeyAction::Ignore
    } else if key_cancels(key) {
        ApprovalKeyAction::Abort
    } else if key.modifiers == 0 && (key.code == KeyCode::Char('y') || key.code == KeyCode::Char(
        'Y',
    )) {
        ApprovalKeyAction::Approve
    } else {
        ApprovalKeyAction::Ignore
    }
}

/// Only `y` can approve: no other key ever authorizes a command.
pub proof fn lemma_only_y_approves(key: KeyEvent)
    ensures
        spec_approval_key(key) == ApprovalKeyAction::Approve ==> key.kind != KeyEventKind::Release
            && key.modifiers == 0 && (key.code == KeyCode::Char('y') || key.code == KeyCode::Char(
            'Y',
        )),
{
}

/// The credential prompt: the typed password, kept in memory that is wiped,
/// and whether it was answered.
pub struct CredentialPrompt {
    input: SecretText,
    done: bool,
}

/// What the credential prompt answers: the password, or `None` for a cancel.
pub struct CredentialAnswer {
    pub credential: Option<SudoOnceCredential>,
}

impl CredentialPrompt {
    pub closed spec fn typed(&self) -> Seq<char> {
        secret_text(self.input)
    }

    pub closed spec fn answered(&self) -> bool {
        self.done
    }

    /// A prompt with nothing typed.
    pub fn new() -> (p: CredentialPrompt)
        ensures
            p.typed() == Seq::<char>::empty(),
            !p.answered(),
    {
        CredentialPrompt { input: seal_text(String::new()), done: false }
    }

    /// Whether the prompt was answered or dismissed.
    pub fn is_complete(&self) -> (b: bool)
        ensures
            b == self.answered(),
    {
        self.done
    }

    /// Answers once: the typed text is wiped and the answer returned; a
    /// second answer gives nothing.
    fn submit(&mut self, credential: Option<SudoOnceCredential>) -> (r: Option<CredentialAnswer>)
        ensures
            old(self).answered() ==> r is None && final(self).typed() == old(self).typed(),
            !old(self).answered() ==> r is Some && final(self).typed() == Seq::<char>::empty(),
            final(self).answered(),
            r matches Some(a) ==> a.credential == credential,
    {
        if self.done {
            return None;
        }
        secret_wipe(&mut self.input);
        self.done = true;
        Some(CredentialAnswer { credential })
    }

    /// Handles a key: releases do nothing; Esc and Ctrl-C cancel; a
    /// character without Ctrl, Alt or Super is typed; Backspace removes the
    /// last character; Enter answers with the typed password.
    pub fn handle_key_event(&mut self, key: KeyEvent) -> (r: Option<CredentialAnswer>)
        ensures
            key.kind == KeyEventKind::Release ==> r is None && final(self).typed() == old(
                self,
            ).typed() && final(self).answered() == old(self).answered(),
            key.kind != KeyEventKind::Release && cancels(key) ==> {
                &&& final(self).answered()
                &&& !old(self).answered() ==> (r matches Some(a) && a.credential is None)
                &&& old(self).answered() ==> r is None
            },
            key.kind != KeyEventKind::Release && !cancels(key) ==> match key.code {
                KeyCode::Char(c) => r is None && final(self).answered() == old(self).answered() && if key.modifiers
                    & (CONTROL | ALT | SUPER) == 0 {
                    final(self).typed() == old(self).typed().push(c)
                } else {
                    final(self).typed() == old(self).typed()
                },
                KeyCode::Backspace => r is None && final(self).answered() == old(self).answered()
                    && final(self).typed() == if old(self).typed().len() > 0 {
                    old(self).typed().drop_last()
                } else {
                    old(self).typed()
                },
                KeyCode::Enter => {
                    &&& final(self).answered()
                    &&& final(self).typed() == Seq::<char>::empty() || old(self).answered()
                    &&& !old(self).answered() ==> (r matches Some(a) && a.credential matches Some(
                        c,
                    ) && c.view() == old(self).typed())
                },
                _ => r is None && final(self).typed() == old(self).typed() && final(self).answered()
                    == old(self).answered(),
            },
    {
        if key.kind == KeyEventKind::Release {
            return None;
        }
        if key_cancels(key) {
            return self.submit(None);
        }
        match key.code {
            KeyCode::Char(c) => {
                if key.modifiers & (CONTROL | ALT | SUPER) == 0 {
                    secret_push(&mut self.input, c);
                }
                None
            },
            KeyCode::Backspace => {
                let _ = secret_pop(&mut self.input);
                None
            },
            KeyCode::Enter => {
                let ghost before = self.typed();
                let text = secret_take(&mut self.input);
                let credential = SudoOnceCredential::new(text);
                let r = self.submit(Some(credential));
                r
            },
            _ => None,
        }
    }

    /// Ctrl-C outside key handling cancels the prompt.
    pub fn on_ctrl_c(&mut self) -> (r: Option<CredentialAnswer>)
        ensures
            final(self).answered(),
            !old(self).answered() ==> (r matches Some(a) && a.credential is None),
            old(self).answered() ==> r is None,
    {
        self.submit(None)
    }

    /// Pasted text is typed, and the pasted copy is wiped.
    pub fn handle_paste(&mut self, pasted: String) -> (handled: bool)
        ensures
            handled,
            final(self).typed() == old(self).typed() + pasted@,
            final(self).answered() == old(self).answered(),
    {
        let mut pasted = pasted;
        secret_push_str(&mut self.input, pasted.as_str());
        wipe_string(&mut pasted);
        true
    }

    /// The request was answered elsewhere: the typed text is wiped.
    pub fn dismiss(&mut self)
        ensures
            final(self).answered(),
            final(self).typed() == Seq::<char>::empty(),
    {
        secret_wipe(&mut self.input);
        self.done = true;
    }

    /// The input line: `Password: ` and one `*` per typed character.
    pub fn masked_line(&self) -> (r: String)
        ensures
            r@ == "Password: "@ + Seq::new(self.typed().len(), |i: int| '*'),
    {
        let count = crate::text::chars_of(crate::secret::sealed_text(&self.input)).len();
        let mut r = owned("Password: ");
        let ghost start = r@;
        let mut i: usize = 0;
        while i < count
            invariant
                i <= count,
                r@ == start + Seq::new(i as nat, |k: int| '*'),
            decreases count - i,
        {
            push_char(&mut r, '*');
            i = i + 1;
            assert(r@ =~= start + Seq::new(i as nat, |k: int| '*'));
        }
        r
    }
}

/// The attempt line of the credential prompt (attempts count from 0).
pub fn attempt_line(attempt: u32) -> (r: String)
    ensures
        r@ == "Password attempt "@ + decimal(attempt as nat + 1) + ". Press Esc to cancel."@,
{
    let mut r = owned("Password attempt ");
    push_decimal(&mut r, attempt as u64 + 1);
    push_str(&mut r, ". Press Esc to cancel.");
    r
}


// ---------------------------------------------------------------------------
// Rendering
// ---------------------------------------------------------------------------

/// The warning shown above a command to authorize.
pub const ROOT_WARNING: &'static str = "This command will run as root and outside the Codex sandbox.";

/// What is shown in place of a command that cannot be quoted for a shell.
pub const UNRENDERABLE_COMMAND: &'static str = "[command cannot be safely rendered]";

/// The words quoted for a shell and joined by single spaces, as
/// `shlex::try_join` writes them.
pub uninterp spec fn shell_joined(words: Seq<Seq<char>>) -> Seq<char>;

/// Lines of text wrapped to a width, as `textwrap::wrap` gives them.
pub uninterp spec fn wrapped(text: Seq<char>, width: usize) -> Seq<Seq<char>>;

/// The width of text in terminal columns, as `unicode_width` measures it.
pub uninterp spec fn display_width(text: Seq<char>) -> nat;

/// Quotes and joins words with `shlex::try_join`, which refuses exactly the
/// words that hold a NUL character; the joined text is named by `shell_joined`.
#[verifier::external_body]
fn try_join_words(words: &[String]) -> (r: Option<String>)
    ensures
        match r {
            Some(s) => s@ == shell_joined(words@.map_values(|w: String| w@)) && forall|i: int|
                0 <= i < words@.len() ==> !(#[trigger] words@[i])@.contains('\0'),
            None => exists|i: int| 0 <= i < words@.len() && (#[trigger] words@[i])@.contains('\0'),
        },
{
    shlex::try_join(words.iter().map(|w| w.as_str())).ok()
}

/// Wraps text with `textwrap::wrap`; the lines are named by `wrapped`.
#[verifier::external_body]
fn wrap_text(text: &str, width: usize) -> (r: Vec<String>)
    requires
        width >= 1,
    ensures
        r@.map_values(|l: String| l@) == wrapped(text@, width),
{
    textwrap::wrap(text, width).into_iter().map(|l| l.into_owned()).collect()
}

/// Measures text with `unicode_width::UnicodeWidthStr::width`; the result
/// is named by `display_width`.
#[verifier::external_body]
fn text_width(text: &str) -> (r: usize)
    ensures
        r == display_width(text@),
{
    unicode_width::UnicodeWidthStr::width(text)
}

/// The command as one line for a shell, or a note when it cannot be quoted.
pub fn command_line(argv: &[String]) -> (r: String)
    ensures
        (exists|i: int| 0 <= i < argv@.len() && (#[trigger] argv@[i])@.contains('\0')) ==> r@
            == UNRENDERABLE_COMMAND@,
        !(exists|i: int| 0 <= i < argv@.len() && (#[trigger] argv@[i])@.contains('\0')) ==> r@
            == shell_joined(argv@.map_values(|w: String| w@)),
{
    match try_join_words(argv) {
        Some(s) => s,
        None => owned(UNRENDERABLE_COMMAND),
    }
}

/// Lines of one span each.
pub open spec fn plain_lines(texts: Seq<Seq<char>>) -> Seq<Seq<(SpanStyle, Seq<char>)>> {
    texts.map_values(|t: Seq<char>| seq![(SpanStyle::Plain, t)])
}

fn one_span_line(style: SpanStyle, text: String) -> (r: Vec<StyledSpan>)
    ensures
        line_view(r@) == seq![(style, text@)],
{
    let mut line: Vec<StyledSpan> = Vec::new();
    push_span(&mut line, span(style, text));
    assert(line_view(line@) =~= seq![(style, text@)]);
    line
}

fn push_wrapped(lines: &mut Vec<Vec<StyledSpan>>, text: &str, width: usize)
    requires
        width >= 1,
    ensures
        lines_view(final(lines)@) == lines_view(old(lines)@) + plain_lines(wrapped(text@, width)),
{
    let parts = wrap_text(text, width);
    let ghost all = parts@.map_values(|l: String| l@);
    let ghost start = lines_view(lines@);
    let mut i: usize = 0;
    while i < parts.len()
        invariant
            i <= parts@.len(),
            all == parts@.map_values(|l: String| l@),
            all == wrapped(text@, width),
            lines_view(lines@) == start + plain_lines(all.subrange(0, i as int)),
        decreases parts@.len() - i,
    {
        push_line(lines, one_span_line(SpanStyle::Plain, parts[i].clone()));
        i = i + 1;
        assert(plain_lines(all.subrange(0, i as int)) =~= plain_lines(all.subrange(0, i - 1)).push(
            seq![(SpanStyle::Plain, all[i - 1])],
        ));
    }
    assert(all.subrange(0, all.len() as int) =~= all);
}

/// The lines of the approval prompt at a width: the title, the warning, the
/// command, its working directory and reason (each wrapped), and the keys.
pub open spec fn spec_approval_lines(
    command_text: Seq<char>,
    cwd: Seq<char>,
    reason: Option<String>,
    width: usize,
) -> Seq<Seq<(SpanStyle, Seq<char>)>> {
    seq![
        seq![(SpanStyle::Bold, "Sudo authorization required"@)],
        seq![(SpanStyle::RedBold, ROOT_WARNING@)],
        seq![(SpanStyle::Plain, Seq::<char>::empty())],
        seq![(SpanStyle::Bold, "Command:"@)],
    ] + plain_lines(wrapped(command_text, width)) + seq![seq![(SpanStyle::Bold, "Working directory:"@)]]
        + plain_lines(wrapped(cwd, width)) + match reason {
        Some(r) => seq![seq![(SpanStyle::Bold, "Reason:"@)]] + plain_lines(wrapped(r@, width)),
        None => Seq::empty(),
    } + seq![
        seq![(SpanStyle::Plain, Seq::<char>::empty())],
        seq![(SpanStyle::Dim, "y: authorize once · Esc/Ctrl-C: abort"@)],
    ]
}

/// Builds the lines of the approval prompt for a command at a width.
pub fn approval_prompt_lines(command: &crate::sudo::command::SudoOnceCommand, width: u16) -> (r: Vec<
    Vec<StyledSpan>,
>)
    requires
        width >= 1,
    ensures
        ({
            let argv = command.spec_argv();
            let text = if exists|i: int| 0 <= i < argv.len() && (#[trigger] argv[i])@.contains('\0') {
                UNRENDERABLE_COMMAND@
            } else {
                shell_joined(argv.map_values(|w: String| w@))
            };
            lines_view(r@) == spec_approval_lines(text, command.spec_cwd(), command.spec_reason(), width as usize)
        }),
{
    let w = width as usize;
    let mut lines: Vec<Vec<StyledSpan>> = Vec::new();
    assert(lines_view(lines@) =~= Seq::<Seq<(SpanStyle, Seq<char>)>>::empty());
    push_line(&mut lines, one_span_line(SpanStyle::Bold, owned("Sudo authorization required")));
    push_line(&mut lines, one_span_line(SpanStyle::RedBold, owned(ROOT_WARNING)));
    push_line(&mut lines, one_span_line(SpanStyle::Plain, String::new()));
    push_line(&mut lines, one_span_line(SpanStyle::Bold, owned("Command:")));
    let ghost head = lines_view(lines@);
    assert(head =~= seq![
        seq![(SpanStyle::Bold, "Sudo authorization required"@)],
        seq![(SpanStyle::RedBold, ROOT_WARNING@)],
        seq![(SpanStyle::Plain, Seq::<char>::empty())],
        seq![(SpanStyle::Bold, "Command:"@)],
    ]);
    let text = command_line(command.argv());
    push_wrapped(&mut lines, text.as_str(), w);
    push_line(&mut lines, one_span_line(SpanStyle::Bold, owned("Working directory:")));
    push_wrapped(&mut lines, command.cwd(), w);
    let ghost before_reason = lines_view(lines@);
    assert(before_reason =~= head + plain_lines(wrapped(text@, w)) + seq![
        seq![(SpanStyle::Bold, "Working directory:"@)],
    ] + plain_lines(wrapped(command.spec_cwd(), w)));
    match command.reason() {
        Some(reason) => {
            push_line(&mut lines, one_span_line(SpanStyle::Bold, owned("Reason:")));
            push_wrapped(&mut lines, reason, w);
        },
        None => {},
    }
    let ghost after_reason = lines_view(lines@);
    push_line(&mut lines, one_span_line(SpanStyle::Plain, String::new()));
    push_line(
        &mut lines,
        one_span_line(SpanStyle::Dim, owned("y: authorize once · Esc/Ctrl-C: abort")),
    );
    proof {
        let reason_lines: Seq<Seq<(SpanStyle, Seq<char>)>> = match command.spec_reason() {
            Some(r) => seq![seq![(SpanStyle::Bold, "Reason:"@)]] + plain_lines(wrapped(r@, w)),
            None => Seq::empty(),
        };
        assert(after_reason =~= before_reason + reason_lines);
        assert(lines_view(lines@) =~= after_reason + seq![
            seq![(SpanStyle::Plain, Seq::<char>::empty())],
            seq![(SpanStyle::Dim, "y: authorize once · Esc/Ctrl-C: abort"@)],
        ]);
    }
    assert(lines_view(lines@) =~= spec_approval_lines(
        text@,
        command.spec_cwd(),
        command.spec_reason(),
        w,
    ));
    lines
}

/// The header of the credential prompt: the title, the attempt and a blank line.
pub fn credential_header_lines(attempt: u32) -> (r: Vec<Vec<StyledSpan>>)
    ensures
        lines_view(r@) == seq![
            seq![(SpanStyle::Bold, "Sudo authentication required"@)],
            seq![(SpanStyle::Dim, "Password attempt "@ + decimal(attempt as nat + 1) + ". Press Esc to cancel."@)],
            seq![(SpanStyle::Plain, Seq::<char>::empty())],
        ],
{
    let mut lines: Vec<Vec<StyledSpan>> = Vec::new();
    assert(lines_view(lines@) =~= Seq::<Seq<(SpanStyle, Seq<char>)>>::empty());
    push_line(&mut lines, one_span_line(SpanStyle::Bold, owned("Sudo authentication required")));
    push_line(&mut lines, one_span_line(SpanStyle::Dim, attempt_line(attempt)));
    push_line(&mut lines, one_span_line(SpanStyle::Plain, String::new()));
    assert(lines_view(lines@) =~= seq![
        seq![(SpanStyle::Bold, "Sudo authentication required"@)],
        seq![(SpanStyle::Dim, "Password attempt "@ + decimal(attempt as nat + 1) + ". Press Esc to cancel."@)],
        seq![(SpanStyle::Plain, Seq::<char>::empty())],
    ]);
    lines
}

/// A region of the terminal.
#[derive(Clone, Copy, Debug, PartialEq, Eq, Structural)]
pub struct Area {
    pub x: u16,
    pub y: u16,
    pub width: u16,
    pub height: u16,
}

/// Where the cursor stands in the credential prompt drawn in `area`: after
/// `Password: ` and the typed characters, on the line below the header,
/// never past the right edge.
pub open spec fn spec_cursor(area: Area, typed: nat) -> (u16, u16) {
    let header = if area.height < 3 {
        area.height
    } else {
        3
    };
    let input_y = if area.y + header > u16::MAX {
        u16::MAX
    } else {
        (area.y + header) as u16
    };
    let columns = if display_width("Password: "@) + typed > usize::MAX {
        usize::MAX
    } else {
        (display_width("Password: "@) + typed) as usize
    };
    let cursor_x = columns as u16;
    let offset = if cursor_x < area.width {
        cursor_x
    } else {
        area.width
    };
    (
        if area.x + offset > u16::MAX {
            u16::MAX
        } else {
            (area.x + offset) as u16
        },
        input_y,
    )
}

impl CredentialPrompt {
    /// The input line and the cursor position of the prompt drawn in `area`.
    pub fn cursor_pos(&self, area: Area) -> (r: (u16, u16))
        ensures
            r == spec_cursor(area, self.typed().len()),
    {
        let header: u16 = if area.height < 3 {
            area.height
        } else {
            3
        };
        let input_y = area.y.saturating_add(header);
        let typed = crate::text::chars_of(crate::secret::sealed_text(&self.input)).len();
        let columns = text_width("Password: ").saturating_add(typed);
        let cursor_x = columns as u16;
        let offset = if cursor_x < area.width {
            cursor_x
        } else {
            area.width
        };
        (area.x.saturating_add(offset), input_y)
    }
}

} // verus!
