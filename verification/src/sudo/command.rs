//! The command that a user authorizes for exactly one sudo run.

use crate::ids::ThreadId;
use std::sync::Arc;
use vstd::prelude::*;

verus! {

/// Immutable execution details the user authorizes for exactly one sudo run.
#[derive(Debug)]
pub struct SudoOnceCommand {
    thread_id: ThreadId,
    argv: Vec<String>,
    cwd: String,
    reason: Option<String>,
}

impl SudoOnceCommand {
    pub closed spec fn spec_thread_id(&self) -> ThreadId {
        self.thread_id
    }

    pub closed spec fn spec_argv(&self) -> Seq<String> {
        self.argv@
    }

    pub closed spec fn spec_cwd(&self) -> Seq<char> {
        self.cwd@
    }

    pub closed spec fn spec_reason(&self) -> Option<String> {
        self.reason
    }

    /// Takes a snapshot of the command to authorize.
    pub fn new(thread_id: ThreadId, argv: Vec<String>, cwd: String, reason: Option<String>) -> (c:
        SudoOnceCommand)
        ensures
            c.spec_thread_id() == thread_id,
            c.spec_argv() == argv@,
            c.spec_cwd() == cwd@,
            c.spec_reason() == reason,
    {
        SudoOnceCommand { thread_id, argv, cwd, reason }
    }

    pub fn thread_id(&self) -> (t: ThreadId)
        ensures
            t == self.spec_thread_id(),
    {
        self.thread_id
    }

    pub fn argv(&self) -> (a: &[String])
        ensures
            a@ == self.spec_argv(),
    {
        self.argv.as_slice()
    }

    /// The absolute working directory.
    pub fn cwd(&self) -> (c: &str)
        ensures
            c@ == self.spec_cwd(),
    {
        self.cwd.as_str()
    }

    pub fn reason(&self) -> (r: Option<&str>)
        ensures
            match r {
                Some(s) => self.spec_reason() matches Some(v) && s@ == v@,
                None => self.spec_reason() is None,
            },
    {
        match &self.reason {
            Some(r) => Some(r.as_str()),
            None => None,
        }
    }
}

/// A one-use approval, bound to the exact command snapshot that was shown
/// for approval.
pub struct SudoOnceGrant {
    command: Arc<SudoOnceCommand>,
}

impl SudoOnceGrant {
    pub closed spec fn spec_command(&self) -> SudoOnceCommand {
        *self.command
    }

    /// The grant of an approval of this command snapshot.
    pub fn for_command(command: Arc<SudoOnceCommand>) -> (g: SudoOnceGrant)
        ensures
            g.spec_command() == *command,
    {
        SudoOnceGrant { command }
    }

    /// The approved command snapshot.
    pub fn command(&self) -> (c: &Arc<SudoOnceCommand>)
        ensures
            **c == self.spec_command(),
    {
        &self.command
    }

    /// Gives up the grant for the approved command snapshot.
    pub fn into_command(self) -> (c: Arc<SudoOnceCommand>)
        ensures
            *c == self.spec_command(),
    {
        self.command
    }
}

} // verus!
