//! The privileged-call trampoline and what is built directly on it.

use vstd::prelude::*;
use crate::board::QEMU_EXIT_HANDLE;
use crate::machine::{ExitStatus, Machine};

verus! {

/// Operation code of the firmware's console-output call.
pub const SBI_CONSOLE_PUTCHAR: usize = 1;

/// One privileged call: an operation code and three arguments.
#[derive(Clone, Copy, PartialEq, Eq, Debug, Structural)]
pub struct SbiCall {
    pub which: usize,
    pub arg0: usize,
    pub arg1: usize,
    pub arg2: usize,
}

/// The call that writes the character with code `c` to the console.
pub open spec fn putchar_call(c: usize) -> SbiCall {
    SbiCall { which: SBI_CONSOLE_PUTCHAR, arg0: c, arg1: 0, arg2: 0 }
}

/// The trampoline: makes one privileged call with operation code `which`
/// and the three arguments.
pub fn sbi_call(machine: &mut Machine, which: usize, arg0: usize, arg1: usize, arg2: usize)
    ensures
        final(machine)@ == old(machine)@.issue(SbiCall { which, arg0, arg1, arg2 }),
{
    machine.issue(SbiCall { which, arg0, arg1, arg2 });
}

/// Writes the character with code `c` to the console.
pub fn console_putchar(machine: &mut Machine, c: usize)
    ensures
        final(machine)@ == old(machine)@.issue(putchar_call(c)),
{
    sbi_call(machine, SBI_CONSOLE_PUTCHAR, c, 0, 0);
}

/// Shuts the kernel down after a failure, through the board it is built for.
pub fn shutdown(machine: &mut Machine)
    ensures
        final(machine)@ == old(machine)@.issue(
            QEMU_EXIT_HANDLE.exit_call(ExitStatus::Failure),
        ).halt(ExitStatus::Failure),
{
    QEMU_EXIT_HANDLE.exit_failure(machine);
}

} // verus!
