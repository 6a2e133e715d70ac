//! Command hooks: how the shell command is put together, how its output is
//! collected within a limit, and what the finished process means.

use super::outcome::{HookOutputEntry, HookOutputEntryKind, entries_view};
use crate::text::{decimal, owned, push_decimal, push_str, str_eq};
use vstd::prelude::*;

verus! {

/// The shell that runs command hooks: a program and the arguments before the command line.
#[derive(Clone, Debug, PartialEq, Eq)]
pub struct CommandShell {
    pub program: String,
    pub args: Vec<String>,
}

/// The process to start for a command hook.
#[derive(Clone, Debug, PartialEq, Eq)]
pub struct CommandPlan {
    pub program: String,
    pub args: Vec<String>,
    /// The environment of the process, each variable once.
    pub env: Vec<(String, String)>,
}

/// Environment variables as (name, value) text pairs.
pub open spec fn env_view(env: Seq<(String, String)>) -> Seq<(Seq<char>, Seq<char>)> {
    env.map_values(|e: (String, String)| (e.0@, e.1@))
}

/// Whether `name` is set in `env`.
pub open spec fn env_has(env: Seq<(Seq<char>, Seq<char>)>, name: Seq<char>) -> bool {
    exists|i: int| 0 <= i < env.len() && (#[trigger] env[i]).0 == name
}

/// The value of `name` in `env`: that of its last entry.
pub open spec fn env_lookup(env: Seq<(Seq<char>, Seq<char>)>, name: Seq<char>) -> Option<Seq<char>>
    decreases env.len(),
{
    if env.len() == 0 {
        None
    } else if env.last().0 == name {
        Some(env.last().1)
    } else {
        env_lookup(env.drop_last(), name)
    }
}

/// Names are set at most once.
pub open spec fn env_names_distinct(env: Seq<(Seq<char>, Seq<char>)>) -> bool {
    forall|i: int, j: int| 0 <= i < j < env.len() ==> (#[trigger] env[i]).0 != (#[trigger] env[j]).0
}

/// The shell used when none is configured: `$SHELL` from the session
/// environment, else `/bin/sh`.
pub open spec fn default_shell(environment: Seq<(Seq<char>, Seq<char>)>) -> Seq<char> {
    match first_value(environment, "SHELL"@) {
        Some(v) => v,
        None => "/bin/sh"@,
    }
}

/// The value of the first entry named `name`.
pub open spec fn first_value(env: Seq<(Seq<char>, Seq<char>)>, name: Seq<char>) -> Option<Seq<char>>
    decreases env.len(),
{
    if env.len() == 0 {
        None
    } else if env[0].0 == name {
        Some(env[0].1)
    } else {
        first_value(env.drop_first(), name)
    }
}

proof fn lemma_env_lookup_push(env: Seq<(Seq<char>, Seq<char>)>, e: (Seq<char>, Seq<char>), name: Seq<char>)
    ensures
        env_lookup(env.push(e), name) == if e.0 == name {
            Some(e.1)
        } else {
            env_lookup(env, name)
        },
{
    assert(env.push(e).drop_last() =~= env);
}

proof fn lemma_env_lookup_none(env: Seq<(Seq<char>, Seq<char>)>, name: Seq<char>)
    ensures
        env_lookup(env, name) is None <==> !env_has(env, name),
    decreases env.len(),
{
    if env.len() > 0 {
        lemma_env_lookup_none(env.drop_last(), name);
        if env_has(env.drop_last(), name) {
            let i = choose|i: int| 0 <= i < env.drop_last().len() && (#[trigger] env.drop_last()[i]).0 == name;
            assert(env[i] == env.drop_last()[i]);
        }
        if env_has(env, name) && env.last().0 != name {
            let i = choose|i: int| 0 <= i < env.len() && (#[trigger] env[i]).0 == name;
            assert(i != env.len() - 1);
            assert(env.drop_last()[i] == env[i]);
        }
        if env.last().0 == name {
            assert(env[env.len() - 1] == env.last());
        }
    }
}

fn find_env(env: &Vec<(String, String)>, name: &str) -> (r: Option<usize>)
    ensures
        match r {
            Some(i) => i < env@.len() && env@[i as int].0@ == name@,
            None => forall|i: int| 0 <= i < env@.len() ==> (#[trigger] env@[i]).0@ != name@,
        },
{
    let mut i: usize = 0;
    while i < env.len()
        invariant
            i <= env@.len(),
            forall|j: int| 0 <= j < i ==> (#[trigger] env@[j]).0@ != name@,
        decreases env@.len() - i,
    {
        if str_eq(env[i].0.as_str(), name) {
            return Some(i);
        }
        i = i + 1;
    }
    None
}

fn set_env(env: &mut Vec<(String, String)>, name: &String, value: &String)
    requires
        env_names_distinct(env_view(old(env)@)),
    ensures
        env_names_distinct(env_view(final(env)@)),
        forall|n: Seq<char>|
            #![trigger env_lookup(env_view(final(env)@), n)]
            env_lookup(env_view(final(env)@), n) == if n == name@ {
                Some(value@)
            } else {
                env_lookup(env_view(old(env)@), n)
            },
{
    let ghost old_view = env_view(env@);
    match find_env(env, name.as_str()) {
        Some(i) => {
            env.set(i, (name.clone(), value.clone()));
            proof {
                let new_view = env_view(env@);
                assert(new_view =~= old_view.update(i as int, (name@, value@)));
                assert forall|a: int, b: int| 0 <= a < b < new_view.len() implies (
                #[trigger] new_view[a]).0 != (#[trigger] new_view[b]).0 by {
                    assert(new_view[a].0 == old_view[a].0 && new_view[b].0 == old_view[b].0);
                }
                assert forall|n: Seq<char>| #[trigger]
                    env_lookup(new_view, n) == if n == name@ {
                        Some(value@)
                    } else {
                        env_lookup(old_view, n)
                    } by {
                    lemma_lookup_update(old_view, i as int, (name@, value@), n);
                }
            }
        },
        None => {
            env.push((name.clone(), value.clone()));
            proof {
                let new_view = env_view(env@);
                assert(new_view =~= old_view.push((name@, value@)));
                assert forall|a: int, b: int| 0 <= a < b < new_view.len() implies (
                #[trigger] new_view[a]).0 != (#[trigger] new_view[b]).0 by {
                    if b == old_view.len() {
                        assert(old_view[a].0 == env@[a].0@);
                    }
                }
                assert forall|n: Seq<char>| #[trigger]
                    env_lookup(new_view, n) == if n == name@ {
                        Some(value@)
                    } else {
                        env_lookup(old_view, n)
                    } by {
                    lemma_env_lookup_push(old_view, (name@, value@), n);
                }
            }
        },
    }
}

proof fn lemma_lookup_update(
    env: Seq<(Seq<char>, Seq<char>)>,
    i: int,
    e: (Seq<char>, Seq<char>),
    n: Seq<char>,
)
    requires
        env_names_distinct(env),
        0 <= i < env.len(),
        env[i].0 == e.0,
    ensures
        env_lookup(env.update(i, e), n) == if n == e.0 {
            Some(e.1)
        } else {
            env_lookup(env, n)
        },
    decreases env.len(),
{
    let u = env.update(i, e);
    if i == env.len() - 1 {
        assert(u.drop_last() =~= env.drop_last());
        if n == e.0 {
        } else {
        }
    } else {
        assert(u.drop_last() =~= env.drop_last().update(i, e));
        assert(env.drop_last()[i] == env[i]);
        assert forall|a: int, b: int| 0 <= a < b < env.drop_last().len() implies (
        #[trigger] env.drop_last()[a]).0 != (#[trigger] env.drop_last()[b]).0 by {
            assert(env.drop_last()[a] == env[a] && env.drop_last()[b] == env[b]);
        }
        lemma_lookup_update(env.drop_last(), i, e, n);
        if n == e.0 {
            assert(env.last().0 != e.0) by {
                assert(env[env.len() - 1] == env.last());
            }
        }
    }
}

/// Applies variables in order on top of `env`; a later value of a name replaces an earlier one.
fn apply_env(env: &mut Vec<(String, String)>, vars: &Vec<(String, String)>)
    requires
        env_names_distinct(env_view(old(env)@)),
    ensures
        env_names_distinct(env_view(final(env)@)),
        forall|n: Seq<char>|
            #![trigger env_lookup(env_view(final(env)@), n)]
            env_lookup(env_view(final(env)@), n) == match env_lookup(env_view(vars@), n) {
                Some(v) => Some(v),
                None => env_lookup(env_view(old(env)@), n),
            },
{
    let ghost start = env_view(env@);
    let mut i: usize = 0;
    while i < vars.len()
        invariant
            i <= vars@.len(),
            env_names_distinct(env_view(env@)),
            forall|n: Seq<char>|
                #![trigger env_lookup(env_view(env@), n)]
                env_lookup(env_view(env@), n) == match env_lookup(
                    env_view(vars@.subrange(0, i as int)),
                    n,
                ) {
                    Some(v) => Some(v),
                    None => env_lookup(start, n),
                },
        decreases vars@.len() - i,
    {
        let ghost before = env_view(vars@.subrange(0, i as int));
        set_env(env, &vars[i].0, &vars[i].1);
        proof {
            let after = env_view(vars@.subrange(0, i + 1));
            assert(after =~= before.push((vars@[i as int].0@, vars@[i as int].1@)));
            assert forall|n: Seq<char>| #[trigger] env_lookup(after, n) == if n == vars@[i as int].0@ {
                Some(vars@[i as int].1@)
            } else {
                env_lookup(before, n)
            } by {
                lemma_env_lookup_push(before, (vars@[i as int].0@, vars@[i as int].1@), n);
            }
        }
        i = i + 1;
    }
    assert(vars@.subrange(0, vars@.len() as int) =~= vars@);
}

fn first_env_value(env: &Vec<(String, String)>, name: &str) -> (r: Option<String>)
    ensures
        match r {
            Some(v) => first_value(env_view(env@), name@) == Some(v@),
            None => first_value(env_view(env@), name@) is None,
        },
{
    let ghost all = env_view(env@);
    assert(all.subrange(0, all.len() as int) =~= all);
    let mut i: usize = 0;
    while i < env.len()
        invariant
            i <= env@.len(),
            all == env_view(env@),
            first_value(all, name@) == first_value(all.subrange(i as int, all.len() as int), name@),
        decreases env@.len() - i,
    {
        let ghost rest = all.subrange(i as int, all.len() as int);
        assert(rest.drop_first() =~= all.subrange(i + 1, all.len() as int));
        assert(rest[0] == all[i as int]);
        if str_eq(env[i].0.as_str(), name) {
            return Some(env[i].1.clone());
        }
        i = i + 1;
    }
    None
}

/// The program and arguments that run `command_line`: the configured shell
/// with its arguments, or the default shell with `-lc`; the command line last.
pub open spec fn spec_command_argv(
    shell_program: Seq<char>,
    shell_args: Seq<Seq<char>>,
    command_line: Seq<char>,
    environment: Seq<(Seq<char>, Seq<char>)>,
) -> (Seq<char>, Seq<Seq<char>>) {
    if shell_program.len() == 0 {
        (default_shell(environment), seq!["-lc"@, command_line])
    } else {
        (shell_program, shell_args.push(command_line))
    }
}

/// Plans the process of a command hook. The session's environment snapshot
/// replaces the live one, and the handler's own variables override it.
pub fn build_command(
    shell: &CommandShell,
    command_line: &str,
    environment: &Vec<(String, String)>,
    env: &Vec<(String, String)>,
) -> (plan: CommandPlan)
    ensures
        (plan.program@, plan.args@.map_values(|a: String| a@)) == spec_command_argv(
            shell.program@,
            shell.args@.map_values(|a: String| a@),
            command_line@,
            env_view(environment@),
        ),
        env_names_distinct(env_view(plan.env@)),
        forall|n: Seq<char>|
            #![trigger env_lookup(env_view(plan.env@), n)]
            env_lookup(env_view(plan.env@), n) == match env_lookup(env_view(env@), n) {
                Some(v) => Some(v),
                None => env_lookup(env_view(environment@), n),
            },
{
    let mut args: Vec<String> = Vec::new();
    let program = if shell.program.unicode_len() == 0 {
        args.push(owned("-lc"));
        match first_env_value(environment, "SHELL") {
            Some(p) => p,
            None => owned("/bin/sh"),
        }
    } else {
        let mut i: usize = 0;
        while i < shell.args.len()
            invariant
                i <= shell.args@.len(),
                args@.map_values(|a: String| a@) == shell.args@.subrange(0, i as int).map_values(
                    |a: String| a@,
                ),
            decreases shell.args@.len() - i,
        {
            let ghost prev = args@.map_values(|a: String| a@);
            args.push(shell.args[i].clone());
            assert(args@.map_values(|a: String| a@) =~= prev.push(shell.args@[i as int]@));
            assert(shell.args@.subrange(0, i + 1) =~= shell.args@.subrange(0, i as int).push(
                shell.args@[i as int],
            ));
            i = i + 1;
            assert(args@.map_values(|a: String| a@) =~= shell.args@.subrange(0, i as int).map_values(
                |a: String| a@,
            ));
        }
        assert(shell.args@.subrange(0, shell.args@.len() as int) =~= shell.args@);
        shell.program.clone()
    };
    let ghost before = args@.map_values(|a: String| a@);
    args.push(owned(command_line));
    assert(args@.map_values(|a: String| a@) =~= before.push(command_line@));
    let mut merged: Vec<(String, String)> = Vec::new();
    assert(env_view(merged@) =~= Seq::<(Seq<char>, Seq<char>)>::empty());
    apply_env(&mut merged, environment);
    proof {
        assert forall|n: Seq<char>| #[trigger] env_lookup(env_view(environment@), n) == match env_lookup(
            env_view(environment@),
            n,
        ) {
            Some(v) => Some(v),
            None => env_lookup(Seq::<(Seq<char>, Seq<char>)>::empty(), n),
        } by {}
    }
    apply_env(&mut merged, env);
    CommandPlan { program, args, env: merged }
}

// ---------------------------------------------------------------------------
// Output collection
// ---------------------------------------------------------------------------

/// Output read from one stream of the process, kept up to a limit.
#[derive(Clone, Debug, PartialEq, Eq)]
pub struct CollectedOutput {
    /// The bytes kept: all of them, or the first `limit`.
    pub bytes: Vec<u8>,
    /// How many bytes the stream produced (saturating).
    pub total_len: usize,
    /// Whether the stream produced more than the limit.
    pub exceeded: bool,
}

/// The bytes that a limit keeps of `all`.
pub open spec fn kept(all: Seq<u8>, limit: Option<usize>) -> Seq<u8> {
    match limit {
        Some(l) => if all.len() <= l {
            all
        } else {
            all.subrange(0, l as int)
        },
        None => all,
    }
}

/// `a + b`, or `usize::MAX` when that does not fit.
pub open spec fn saturating_len(a: nat, b: nat) -> nat {
    if a + b > usize::MAX {
        usize::MAX as nat
    } else {
        a + b
    }
}

impl CollectedOutput {
    /// Nothing read yet.
    pub fn new() -> (c: CollectedOutput)
        ensures
            c.bytes@ == Seq::<u8>::empty(),
            c.total_len == 0,
            !c.exceeded,
    {
        CollectedOutput { bytes: Vec::new(), total_len: 0, exceeded: false }
    }

    /// Takes in one chunk read from the stream.
    pub fn push_chunk(&mut self, chunk: &[u8], limit: Option<usize>)
        ensures
            final(self).total_len == saturating_len(old(self).total_len as nat, chunk@.len()),
            final(self).exceeded == old(self).exceeded,
            final(self).bytes@ == match limit {
                Some(l) => if old(self).bytes@.len() < l {
                    old(self).bytes@ + kept(chunk@, Some((l - old(self).bytes@.len()) as usize))
                } else {
                    old(self).bytes@
                },
                None => old(self).bytes@ + chunk@,
            },
    {
        self.total_len = if self.total_len > usize::MAX - chunk.len() {
            usize::MAX
        } else {
            self.total_len + chunk.len()
        };
        let take = match limit {
            Some(l) => {
                if self.bytes.len() < l {
                    let remaining = l - self.bytes.len();
                    if chunk.len() < remaining {
                        chunk.len()
                    } else {
                        remaining
                    }
                } else {
                    0
                }
            },
            None => chunk.len(),
        };
        let ghost before = self.bytes@;
        let ghost total = self.total_len;
        let mut i: usize = 0;
        while i < take
            invariant
                self.total_len == total,
                self.exceeded == old(self).exceeded,
                take <= chunk@.len(),
                i <= take,
                self.bytes@ == before + chunk@.subrange(0, i as int),
            decreases take - i,
        {
            self.bytes.push(chunk[i]);
            i = i + 1;
            assert(self.bytes@ =~= before + chunk@.subrange(0, i as int));
        }
        proof {
            match limit {
                Some(l) => {
                    if before.len() < l {
                        let rem = (l - before.len()) as usize;
                        if chunk@.len() <= rem {
                            assert(chunk@.subrange(0, take as int) =~= chunk@);
                        }
                    } else {
                        assert(chunk@.subrange(0, 0) =~= Seq::<u8>::empty());
                        assert(before + Seq::<u8>::empty() =~= before);
                    }
                },
                None => {
                    assert(chunk@.subrange(0, take as int) =~= chunk@);
                },
            }
        }
    }

    /// Records, once the stream ended, whether it went past the limit.
    pub fn finish(&mut self, limit: Option<usize>)
        ensures
            final(self).bytes == old(self).bytes,
            final(self).total_len == old(self).total_len,
            final(self).exceeded == match limit {
                Some(l) => old(self).total_len > l,
                None => false,
            },
    {
        self.exceeded = match limit {
            Some(l) => self.total_len > l,
            None => false,
        };
    }
}

/// Collecting chunk by chunk keeps exactly the bytes that the limit keeps
/// of everything read so far.
pub proof fn lemma_collect_keeps_prefix(all: Seq<u8>, chunk: Seq<u8>, limit: Option<usize>)
    ensures
        kept(all + chunk, limit) == match limit {
            Some(l) => if kept(all, limit).len() < l {
                kept(all, limit) + kept(chunk, Some((l - kept(all, limit).len()) as usize))
            } else {
                kept(all, limit)
            },
            None => kept(all, limit) + chunk,
        },
{
    match limit {
        Some(l) => {
            let k = kept(all, limit);
            if all.len() <= l {
                if k.len() < l {
                    let rem = (l - all.len()) as usize;
                    if chunk.len() <= rem {
                    } else {
                        assert((all + chunk).subrange(0, l as int) =~= all + chunk.subrange(
                            0,
                            rem as int,
                        ));
                    }
                } else {
                    assert(all.len() == l);
                    if chunk.len() == 0 {
                        assert(all + chunk =~= all);
                    } else {
                        assert((all + chunk).subrange(0, l as int) =~= all);
                    }
                }
            } else {
                assert((all + chunk).subrange(0, l as int) =~= all.subrange(0, l as int));
            }
        },
        None => {},
    }
}

/// What is kept of a stream never goes past the limit.
pub proof fn lemma_kept_within_limit(all: Seq<u8>, l: usize)
    ensures
        kept(all, Some(l)).len() <= l,
        kept(all, Some(l)).len() == if all.len() <= l {
            all.len()
        } else {
            l as nat
        },
{
}

// ---------------------------------------------------------------------------
// Finished process
// ---------------------------------------------------------------------------

/// How the run of a command ended, as recorded in traces.
#[derive(Clone, Copy, Debug, PartialEq, Eq, Structural)]
pub enum CommandOutcome {
    SpawnError,
    PipeError,
    StdinError,
    WaitError,
    Timeout,
    OutputLimit,
    Completed,
}

impl CommandOutcome {
    pub open spec fn spec_label(self) -> Seq<char> {
        match self {
            CommandOutcome::SpawnError => "spawn_error"@,
            CommandOutcome::PipeError => "pipe_error"@,
            CommandOutcome::StdinError => "stdin_error"@,
            CommandOutcome::WaitError => "wait_error"@,
            CommandOutcome::Timeout => "timeout"@,
            CommandOutcome::OutputLimit => "output_limit"@,
            CommandOutcome::Completed => "completed"@,
        }
    }

    /// The label of the outcome in traces.
    pub fn label(self) -> (r: &'static str)
        ensures
            r@ == self.spec_label(),
    {
        match self {
            CommandOutcome::SpawnError => "spawn_error",
            CommandOutcome::PipeError => "pipe_error",
            CommandOutcome::StdinError => "stdin_error",
            CommandOutcome::WaitError => "wait_error",
            CommandOutcome::Timeout => "timeout",
            CommandOutcome::OutputLimit => "output_limit",
            CommandOutcome::Completed => "completed",
        }
    }
}

/// What happened to the process of a command hook.
#[derive(Clone, Debug, PartialEq, Eq)]
pub enum ProcessResult {
    /// The process could not be started; the system's error text.
    SpawnFailed(String),
    /// The process's output pipes could not be taken.
    PipesUnavailable,
    /// Writing the event JSON to the process failed; the I/O error text.
    StdinFailed(String),
    /// Waiting for the process or reading its output failed; the error text.
    WaitFailed(String),
    /// The process did not finish within the time limit.
    TimedOut,
    /// The process finished.
    Exited { exit_code: Option<i32>, stdout: CollectedOutput, stderr: CollectedOutput },
}

/// The result of a command run.
#[derive(Clone, Debug, PartialEq, Eq)]
pub struct CommandRunCompletion {
    pub exit_code: Option<i32>,
    pub stdout: String,
    pub stderr: String,
    pub stdout_len: usize,
    pub stderr_len: usize,
    pub error: Option<String>,
    pub outcome: CommandOutcome,
}

/// The text that `String::from_utf8_lossy` makes of bytes.
pub uninterp spec fn lossy_text(bytes: Seq<u8>) -> Seq<char>;

/// Decodes bytes as UTF-8 with `String::from_utf8_lossy`, which puts U+FFFD
/// in place of invalid sequences and gives valid UTF-8 back as it is. The
/// result is named by `lossy_text`.
#[verifier::external_body]
fn decode_lossy(bytes: &Vec<u8>) -> (s: String)
    ensures
        s@ == lossy_text(bytes@),
        forall|t: Seq<char>| #[trigger] crate::text::utf8_bytes(t) == bytes@ ==> s@ == t,
{
    String::from_utf8_lossy(bytes.as_slice()).to_string()
}

/// The error of a run whose output went past the limit.
pub open spec fn output_limit_message(limit: Option<usize>, stdout_len: usize, stderr_len: usize) -> Seq<
    char,
> {
    match limit {
        Some(l) => "hook output exceeded "@ + decimal(l as nat) + " bytes (stdout: "@ + decimal(
            stdout_len as nat,
        ) + ", stderr: "@ + decimal(stderr_len as nat) + ")"@,
        None => "hook output exceeded its limit (stdout: "@ + decimal(stdout_len as nat)
            + ", stderr: "@ + decimal(stderr_len as nat) + ")"@,
    }
}

/// The completion as (exit code, stdout, stderr, stdout length, stderr
/// length, error, outcome).
pub open spec fn spec_command_completion(
    result: ProcessResult,
    output_limit: Option<usize>,
    timeout_error: Seq<char>,
) -> (Option<i32>, Seq<char>, Seq<char>, usize, usize, Option<Seq<char>>, CommandOutcome) {
    match result {
        ProcessResult::SpawnFailed(e) => (
            None,
            Seq::empty(),
            Seq::empty(),
            0,
            0,
            Some(e@),
            CommandOutcome::SpawnError,
        ),
        ProcessResult::PipesUnavailable => (
            None,
            Seq::empty(),
            Seq::empty(),
            0,
            0,
            Some("hook output pipes are unavailable"@),
            CommandOutcome::PipeError,
        ),
        ProcessResult::StdinFailed(e) => (
            None,
            Seq::empty(),
            Seq::empty(),
            0,
            0,
            Some("failed to write hook stdin: "@ + e@),
            CommandOutcome::StdinError,
        ),
        ProcessResult::WaitFailed(e) => (
            None,
            Seq::empty(),
            Seq::empty(),
            0,
            0,
            Some(e@),
            CommandOutcome::WaitError,
        ),
        ProcessResult::TimedOut => (
            None,
            Seq::empty(),
            Seq::empty(),
            0,
            0,
            Some(timeout_error),
            CommandOutcome::Timeout,
        ),
        ProcessResult::Exited { exit_code, stdout, stderr } => {
            let exceeded = stdout.exceeded || stderr.exceeded;
            (
                exit_code,
                lossy_text(stdout.bytes@),
                lossy_text(stderr.bytes@),
                stdout.total_len,
                stderr.total_len,
                if exceeded {
                    Some(output_limit_message(output_limit, stdout.total_len, stderr.total_len))
                } else {
                    None
                },
                if exceeded {
                    CommandOutcome::OutputLimit
                } else {
                    CommandOutcome::Completed
                },
            )
        },
    }
}

/// The completion as the tuple `spec_command_completion` gives.
pub open spec fn completion_view(c: CommandRunCompletion) -> (
    Option<i32>,
    Seq<char>,
    Seq<char>,
    usize,
    usize,
    Option<Seq<char>>,
    CommandOutcome,
) {
    (
        c.exit_code,
        c.stdout@,
        c.stderr@,
        c.stdout_len,
        c.stderr_len,
        match c.error {
            Some(e) => Some(e@),
            None => None,
        },
        c.outcome,
    )
}

fn failed_completion(error: String, outcome: CommandOutcome) -> (c: CommandRunCompletion)
    ensures
        completion_view(c) == (
            None::<i32>,
            Seq::<char>::empty(),
            Seq::<char>::empty(),
            0usize,
            0usize,
            Some(error@),
            outcome,
        ),
{
    let c = CommandRunCompletion {
        exit_code: None,
        stdout: String::new(),
        stderr: String::new(),
        stdout_len: 0,
        stderr_len: 0,
        error: Some(error),
        outcome,
    };
    assert(c.stdout@ =~= Seq::<char>::empty());
    c
}

/// Turns what happened to the process into the run's completion: any failure
/// to run leaves no output and records the error; a finished process gives
/// its exit code and decoded output, and an error when output went past the limit.
pub fn command_completion(result: ProcessResult, output_limit: Option<usize>, timeout_error: String) -> (c:
    CommandRunCompletion)
    ensures
        completion_view(c) == spec_command_completion(result, output_limit, timeout_error@),
{
    match result {
        ProcessResult::SpawnFailed(e) => failed_completion(e, CommandOutcome::SpawnError),
        ProcessResult::PipesUnavailable => failed_completion(
            owned("hook output pipes are unavailable"),
            CommandOutcome::PipeError,
        ),
        ProcessResult::StdinFailed(e) => {
            let mut message = owned("failed to write hook stdin: ");
            push_str(&mut message, e.as_str());
            failed_completion(message, CommandOutcome::StdinError)
        },
        ProcessResult::WaitFailed(e) => failed_completion(e, CommandOutcome::WaitError),
        ProcessResult::TimedOut => failed_completion(timeout_error, CommandOutcome::Timeout),
        ProcessResult::Exited { exit_code, stdout, stderr } => {
            let exceeded = stdout.exceeded || stderr.exceeded;
            let error = if exceeded {
                let mut message = String::new();
                match output_limit {
                    Some(l) => {
                        push_str(&mut message, "hook output exceeded ");
                        push_decimal(&mut message, l as u64);
                        push_str(&mut message, " bytes (stdout: ");
                    },
                    None => {
                        push_str(&mut message, "hook output exceeded its limit (stdout: ");
                    },
                }
                push_decimal(&mut message, stdout.total_len as u64);
                push_str(&mut message, ", stderr: ");
                push_decimal(&mut message, stderr.total_len as u64);
                push_str(&mut message, ")");
                Some(message)
            } else {
                None
            };
            CommandRunCompletion {
                exit_code,
                stdout: decode_lossy(&stdout.bytes),
                stderr: decode_lossy(&stderr.bytes),
                stdout_len: stdout.total_len,
                stderr_len: stderr.total_len,
                error,
                outcome: if exceeded {
                    CommandOutcome::OutputLimit
                } else {
                    CommandOutcome::Completed
                },
            }
        },
    }
}

// ---------------------------------------------------------------------------
// Background hooks
// ---------------------------------------------------------------------------

/// The entries of a background hook's result, as reported: context and
/// errors in order, then the warnings; stop and feedback entries cannot act
/// after the fact and are dropped.
pub open spec fn arranged_entries(entries: Seq<(HookOutputEntryKind, Seq<char>)>) -> Seq<
    (HookOutputEntryKind, Seq<char>),
> {
    entries.filter(|e: (HookOutputEntryKind, Seq<char>)| e.0 == HookOutputEntryKind::Context || e.0
        == HookOutputEntryKind::Error) + entries.filter(
        |e: (HookOutputEntryKind, Seq<char>)| e.0 == HookOutputEntryKind::Warning,
    )
}

/// Arranges the entries of a background hook's result for reporting.
pub fn arrange_async_entries(entries: Vec<HookOutputEntry>) -> (r: Vec<HookOutputEntry>)
    ensures
        entries_view(r@) == arranged_entries(entries_view(entries@)),
{
    let ghost all = entries_view(entries@);
    let mut kept_entries: Vec<HookOutputEntry> = Vec::new();
    let mut warnings: Vec<HookOutputEntry> = Vec::new();
    let mut i: usize = 0;
    let n = entries.len();
    let mut rest = entries;
    let mut index: usize = 0;
    while index < n
        invariant
            n == all.len(),
            index <= n,
            rest@.len() == n,
            entries_view(rest@) == all,
            entries_view(kept_entries@) == all.subrange(0, index as int).filter(
                |e: (HookOutputEntryKind, Seq<char>)| e.0 == HookOutputEntryKind::Context || e.0
                    == HookOutputEntryKind::Error,
            ),
            entries_view(warnings@) == all.subrange(0, index as int).filter(
                |e: (HookOutputEntryKind, Seq<char>)| e.0 == HookOutputEntryKind::Warning,
            ),
        decreases n - index,
    {
        let e = &rest[index];
        proof {
            reveal(Seq::filter);
            let sub = all.subrange(0, index + 1);
            assert(sub.drop_last() =~= all.subrange(0, index as int));
            assert(sub.last() == all[index as int]);
        }
        let ghost kv = entries_view(kept_entries@);
        let ghost wv = entries_view(warnings@);
        match e.kind {
            HookOutputEntryKind::Context | HookOutputEntryKind::Error => {
                kept_entries.push(HookOutputEntry { kind: e.kind, text: e.text.clone() });
                assert(entries_view(kept_entries@) =~= kv.push(all[index as int]));
            },
            HookOutputEntryKind::Warning => {
                warnings.push(HookOutputEntry { kind: e.kind, text: e.text.clone() });
                assert(entries_view(warnings@) =~= wv.push(all[index as int]));
            },
            _ => {},
        }
        index = index + 1;
    }
    assert(all.subrange(0, n as int) =~= all);
    let ghost kv = entries_view(kept_entries@);
    let ghost wv = entries_view(warnings@);
    let mut j: usize = 0;
    while j < warnings.len()
        invariant
            j <= warnings@.len(),
            entries_view(kept_entries@) == kv + wv.subrange(0, j as int),
            wv == entries_view(warnings@),
        decreases warnings@.len() - j,
    {
        let ghost prev = entries_view(kept_entries@);
        kept_entries.push(HookOutputEntry { kind: warnings[j].kind, text: warnings[j].text.clone() });
        assert(entries_view(kept_entries@) =~= prev.push(wv[j as int]));
        assert(wv.subrange(0, j + 1) =~= wv.subrange(0, j as int).push(wv[j as int]));
        j = j + 1;
        assert(entries_view(kept_entries@) =~= kv + wv.subrange(0, j as int));
    }
    assert(wv.subrange(0, wv.len() as int) =~= wv);
    kept_entries
}

} // verus!
