//! The host-exit protocol: a status code written once to a dedicated host
//! control port tells the surrounding emulator to terminate with an exit
//! value an external runner can distinguish. This is the only sanctioned way
//! the kernel ends the host process.

use vstd::prelude::*;

verus! {

/// The dedicated host control port, distinct from the serial port.
pub const HOST_EXIT_PORT: u16 = 0xF4;

/// The two host-exit statuses the external emulator distinguishes.
#[derive(Debug, Clone, Copy, PartialEq, Eq, Structural)]
pub enum ExitStatus {
    Success,
    Failed,
}

/// The 4-byte value the protocol writes for a status: a contract with the
/// external emulator, not negotiable at runtime.
pub open spec fn exit_code_spec(s: ExitStatus) -> u32 {
    match s {
        ExitStatus::Success => 0x10,
        ExitStatus::Failed => 0x11,
    }
}

/// The executable form of the status code.
pub fn exit_code(s: ExitStatus) -> (r: u32)
    ensures
        r == exit_code_spec(s),
{
    match s {
        ExitStatus::Success => 0x10,
        ExitStatus::Failed => 0x11,
    }
}

/// The host-exit port as the kernel sees it: either no status has been
/// signalled yet, or exactly one has, and the signal is the final action —
/// once a status is written nothing may be written again.
pub struct HostExit {
    requested: Option<ExitStatus>,
}

impl HostExit {
    /// The status signalled so far, if any.
    pub closed spec fn status(self) -> Option<ExitStatus> {
        self.requested
    }

    /// A host-exit port that has not been signalled.
    pub fn new() -> (h: HostExit)
        ensures
            h.status() is None,
    {
        HostExit { requested: None }
    }

    /// Signal the host to terminate with the given status. May happen at
    /// most once in a machine's lifetime.
    pub fn signal(&mut self, s: ExitStatus)
        requires
            old(self).status() is None,
        ensures
            final(self).status() == Some(s),
    {
        self.requested = Some(s);
    }

    /// The status signalled so far, for the program that performs the
    /// physical port write.
    pub fn status_now(&self) -> (r: Option<ExitStatus>)
        ensures
            r == self.status(),
    {
        self.requested
    }
}

} // verus!
