//! Whether single-use sudo can run here: the checks on the user, the sudo
//! executable, the kernel's peer identification and the sealed helper image.

use super::procfs::{ParseIntErrorKind, parse_unsigned, sudo_meets_trust_requirements, sudo_trusted};
use crate::text::{chars_of, trim, trim_chars};
use vstd::prelude::*;

verus! {

/// Why single-use sudo is unavailable.
#[derive(Clone, Copy, Debug, PartialEq, Eq, Structural)]
pub enum CapabilityError {
    RunningAsRoot,
    UntrustedSudo,
    PeerIdentityMismatch,
}

impl CapabilityError {
    pub open spec fn spec_message(self) -> Seq<char> {
        match self {
            CapabilityError::RunningAsRoot => "sudo_once is unavailable for root"@,
            CapabilityError::UntrustedSudo => "sudo executable did not meet trust requirements"@,
            CapabilityError::PeerIdentityMismatch => "SO_PEERPIDFD did not identify this process"@,
        }
    }

    /// The error's text.
    pub fn message(self) -> (m: &'static str)
        ensures
            m@ == self.spec_message(),
    {
        match self {
            CapabilityError::RunningAsRoot => "sudo_once is unavailable for root",
            CapabilityError::UntrustedSudo => "sudo executable did not meet trust requirements",
            CapabilityError::PeerIdentityMismatch => "SO_PEERPIDFD did not identify this process",
        }
    }
}

/// The first check: root may not use single-use sudo.
pub fn check_effective_user(euid: u32) -> (r: Result<(), CapabilityError>)
    ensures
        r is Ok <==> euid != 0,
        r is Err ==> r == Err::<(), CapabilityError>(CapabilityError::RunningAsRoot),
{
    if euid == 0 {
        Err(CapabilityError::RunningAsRoot)
    } else {
        Ok(())
    }
}

/// The second check: the sudo executable's metadata.
pub fn check_sudo_executable(is_file: bool, uid: u32, mode: u32) -> (r: Result<(), CapabilityError>)
    ensures
        r is Ok <==> sudo_trusted(is_file, uid, mode),
        r is Err ==> r == Err::<(), CapabilityError>(CapabilityError::UntrustedSudo),
{
    if sudo_meets_trust_requirements(is_file, uid, mode) {
        Ok(())
    } else {
        Err(CapabilityError::UntrustedSudo)
    }
}

/// The last check: both ends of a socket pair made by this process must be
/// identified as this process.
pub fn check_peer_identity(left_pid: u32, right_pid: u32, own_pid: u32) -> (r: Result<(), CapabilityError>)
    ensures
        r is Ok <==> (left_pid == own_pid && right_pid == own_pid),
        r is Err ==> r == Err::<(), CapabilityError>(CapabilityError::PeerIdentityMismatch),
{
    if left_pid != own_pid || right_pid != own_pid {
        Err(CapabilityError::PeerIdentityMismatch)
    } else {
        Ok(())
    }
}

/// What the runtime checks of single-use sudo conclude, taken in their
/// order: the effective user must not be root, then the sudo executable
/// must be trusted, then both ends of a socket pair made by this process
/// must be identified as this process. The first failing check gives the
/// error.
pub open spec fn spec_runtime_capability(
    euid: u32,
    sudo_is_file: bool,
    sudo_uid: u32,
    sudo_mode: u32,
    left_pid: u32,
    right_pid: u32,
    own_pid: u32,
) -> Result<(), CapabilityError> {
    if euid == 0 {
        Err(CapabilityError::RunningAsRoot)
    } else if !sudo_trusted(sudo_is_file, sudo_uid, sudo_mode) {
        Err(CapabilityError::UntrustedSudo)
    } else if !(left_pid == own_pid && right_pid == own_pid) {
        Err(CapabilityError::PeerIdentityMismatch)
    } else {
        Ok(())
    }
}

/// Runs the runtime checks of single-use sudo on what was read of the
/// process: its effective uid, the sudo executable's type, owner and mode,
/// and the pids that both ends of a socket pair report.
pub fn runtime_capability(
    euid: u32,
    sudo_is_file: bool,
    sudo_uid: u32,
    sudo_mode: u32,
    left_pid: u32,
    right_pid: u32,
    own_pid: u32,
) -> (r: Result<(), CapabilityError>)
    ensures
        r == spec_runtime_capability(
            euid,
            sudo_is_file,
            sudo_uid,
            sudo_mode,
            left_pid,
            right_pid,
            own_pid,
        ),
{
    if let Err(e) = check_effective_user(euid) {
        return Err(e);
    }
    if let Err(e) = check_sudo_executable(sudo_is_file, sudo_uid, sudo_mode) {
        return Err(e);
    }
    match check_peer_identity(left_pid, right_pid, own_pid) {
        Err(e) => Err(e),
        Ok(()) => Ok(()),
    }
}

/// Single-use sudo is available when the runtime checks pass and the kernel
/// can seal the helper executable.
pub fn sudo_once_available(runtime_capability_ok: bool, kernel_supports_sealed_executable: bool) -> (b:
    bool)
    ensures
        b == (runtime_capability_ok && kernel_supports_sealed_executable),
{
    runtime_capability_ok && kernel_supports_sealed_executable
}

/// Why the kernel's set-uid dump policy rules out the helper.
#[derive(Clone, Copy, Debug, PartialEq, Eq, Structural)]
pub enum DumpabilityError {
    /// `fs.suid_dumpable` is 1: the helper could be traced by the user.
    Ptraceable,
    /// `fs.suid_dumpable` is not a known value.
    InvalidValue,
    /// The setting is not a number.
    Number(ParseIntErrorKind),
}

impl DumpabilityError {
    pub open spec fn spec_message(self) -> Seq<char> {
        match self {
            DumpabilityError::Ptraceable => "execute-only sudo helper would remain ptraceable"@,
            DumpabilityError::InvalidValue => "invalid fs.suid_dumpable value"@,
            DumpabilityError::Number(k) => k.spec_message(),
        }
    }

    /// The error's text.
    pub fn message(self) -> (m: &'static str)
        ensures
            m@ == self.spec_message(),
    {
        match self {
            DumpabilityError::Ptraceable => "execute-only sudo helper would remain ptraceable",
            DumpabilityError::InvalidValue => "invalid fs.suid_dumpable value",
            DumpabilityError::Number(k) => k.message(),
        }
    }
}

/// What the text of `/proc/sys/fs/suid_dumpable` allows: 0 and 2 are safe,
/// 1 leaves the helper traceable, anything else is invalid.
pub open spec fn spec_dumpability(text: Seq<char>) -> Result<(), DumpabilityError> {
    match parse_unsigned(trim(text), 255) {
        Err(e) => Err(DumpabilityError::Number(e)),
        Ok(v) => if v == 0 || v == 2 {
            Ok(())
        } else if v == 1 {
            Err(DumpabilityError::Ptraceable)
        } else {
            Err(DumpabilityError::InvalidValue)
        },
    }
}

/// Checks the set-uid dump policy that the sealed helper relies on.
pub fn require_secure_exec_dumpability(text: &str) -> (r: Result<(), DumpabilityError>)
    ensures
        r == spec_dumpability(text@),
{
    let chars = chars_of(text);
    let t = trim_chars(&chars);
    assert(t@.subrange(0, t@.len() as int) =~= t@);
    match super::procfs::parse_unsigned_chars(&t, 0, t.len(), 255) {
        Err(e) => Err(DumpabilityError::Number(e)),
        Ok(v) => {
            if v == 0 || v == 2 {
                Ok(())
            } else if v == 1 {
                Err(DumpabilityError::Ptraceable)
            } else {
                Err(DumpabilityError::InvalidValue)
            }
        },
    }
}

/// Whether the kernel installed every required seal.
pub fn seals_complete(installed: i32, required: i32) -> (b: bool)
    ensures
        b == (installed & required == required),
{
    installed & required == required
}

} // verus!
