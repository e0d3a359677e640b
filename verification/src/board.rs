//! The board: how a platform is told that the kernel is done.

use vstd::prelude::*;
use crate::machine::{ExitStatus, Machine};
use crate::sbi::{sbi_call, SbiCall};

verus! {

/// Operation code of the firmware's system-reset call.
pub const SBI_SYSTEM_RESET: usize = 0x5352_5354;

/// First argument of a system reset: power the machine off.
pub const RESET_TYPE_SHUTDOWN: usize = 0;

/// Second argument of a system reset: nothing went wrong.
pub const RESET_REASON_NONE: usize = 0;

/// Second argument of a system reset: the system failed.
pub const RESET_REASON_FAILURE: usize = 1;

/// The platforms that a kernel can be told to leave.
#[derive(Clone, Copy, PartialEq, Eq, Debug, Structural)]
pub enum Board {
    /// The QEMU `virt` machine.
    Qemu,
}

/// The board that this kernel is built for.
pub const QEMU_EXIT_HANDLE: Board = Board::Qemu;

impl Board {
    /// The privileged call by which this board is left with `status`.
    pub open spec fn exit_call(self, status: ExitStatus) -> SbiCall {
        match self {
            Board::Qemu => SbiCall {
                which: SBI_SYSTEM_RESET,
                arg0: RESET_TYPE_SHUTDOWN,
                arg1: match status {
                    ExitStatus::Success => RESET_REASON_NONE,
                    ExitStatus::Failure => RESET_REASON_FAILURE,
                },
                arg2: 0,
            },
        }
    }

    /// Makes the exit call for `status`, then gives up control.
    pub fn exit(&self, machine: &mut Machine, status: ExitStatus)
        ensures
            final(machine)@ == old(machine)@.issue(self.exit_call(status)).halt(status),
    {
        match self {
            Board::Qemu => {
                let reason = match status {
                    ExitStatus::Success => RESET_REASON_NONE,
                    ExitStatus::Failure => RESET_REASON_FAILURE,
                };
                sbi_call(machine, SBI_SYSTEM_RESET, RESET_TYPE_SHUTDOWN, reason, 0);
            },
        }
        machine.halt(status);
    }

    /// Leaves the machine with the status of a run that went well.
    pub fn exit_success(&self, machine: &mut Machine)
        ensures
            final(machine)@ == old(machine)@.issue(self.exit_call(ExitStatus::Success)).halt(
                ExitStatus::Success,
            ),
    {
        self.exit(machine, ExitStatus::Success);
    }

    /// Leaves the machine with the status of a run that failed.
    pub fn exit_failure(&self, machine: &mut Machine)
        ensures
            final(machine)@ == old(machine)@.issue(self.exit_call(ExitStatus::Failure)).halt(
                ExitStatus::Failure,
            ),
    {
        self.exit(machine, ExitStatus::Failure);
    }
}

} // verus!
