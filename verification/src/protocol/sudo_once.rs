//! Protocol messages of single-use sudo execution.

use crate::secret::{SecretText, seal_text, sealed_text, secret_text};
use vstd::prelude::*;

verus! {

/// Requests a privileged execution mode for one command.
#[derive(Clone, Copy, Debug, PartialEq, Eq, Structural)]
pub enum ExecPrivilege {
    SudoOnce,
}

/// User decision for a single sudo execution request.
#[derive(Clone, Copy, Debug, PartialEq, Eq, Structural)]
pub enum SudoOnceApprovalDecision {
    Accept,
    Abort,
}

/// Asks the user to approve running one command with sudo.
#[derive(Clone, Debug, PartialEq, Eq)]
pub struct SudoOnceApprovalRequestEvent {
    pub call_id: String,
    pub turn_id: String,
    pub command: Vec<String>,
    /// The absolute working directory.
    pub cwd: String,
    pub reason: Option<String>,
}

/// The user's answer to an approval request.
#[derive(Clone, Copy, Debug, PartialEq, Eq, Structural)]
pub struct SudoOnceApprovalResponse {
    pub decision: SudoOnceApprovalDecision,
}

/// Asks the user for the sudo credential of an approved command.
#[derive(Clone, Debug, PartialEq, Eq)]
pub struct SudoOnceCredentialRequestEvent {
    pub call_id: String,
    pub turn_id: String,
    pub attempt: u32,
}

/// In-memory sudo credential that clears its allocation when dropped.
///
/// This type deliberately does not implement `Clone`.
pub struct SudoOnceCredential {
    secret: SecretText,
}

impl SudoOnceCredential {
    pub closed spec fn view(&self) -> Seq<char> {
        secret_text(self.secret)
    }

    /// Takes the credential into memory that is wiped on drop.
    pub fn new(credential: String) -> (c: SudoOnceCredential)
        ensures
            c.view() == credential@,
    {
        SudoOnceCredential { secret: seal_text(credential) }
    }

    /// The credential text.
    pub fn expose_secret(&self) -> (s: &str)
        ensures
            s@ == self.view(),
    {
        sealed_text(&self.secret)
    }

    /// The redacted rendering used in diagnostics.
    pub fn redacted(&self) -> (s: &'static str)
        ensures
            s@ == "SudoOnceCredential([REDACTED])"@,
    {
        "SudoOnceCredential([REDACTED])"
    }
}

/// Resolution of one sudo credential prompt: `None` means the user
/// cancelled the command.
pub struct SudoOnceCredentialResponse {
    pub credential: Option<SudoOnceCredential>,
}

} // verus!
