//! The panic path: one line on the console, then the end with a failure.

use vstd::prelude::*;
use crate::fmt::{decimal_text, text_of, Argument};
use crate::board::QEMU_EXIT_HANDLE;
use crate::machine::{
    console_output, lemma_console_round_trip, putchar_effects, Effect, ExitStatus, Machine,
    MachineState,
};
use crate::sbi::shutdown;

verus! {

/// A place in the source.
#[derive(Clone, Copy, Debug)]
pub struct Location<'a> {
    pub file: &'a str,
    pub line: u32,
}

/// What is known of a panic: where it happened, if that is known, and its
/// message.
#[derive(Clone, Copy, Debug)]
pub struct PanicInfo<'a> {
    pub location: Option<Location<'a>>,
    pub message: &'a str,
}

/// The line that reports a panic.
pub open spec fn panic_line(info: PanicInfo) -> Seq<char> {
    match info.location {
        Some(location) => ("[kernel] Panicked at "@ + location.file@ + ":"@ + decimal_text(
            location.line as nat,
        ) + " "@ + info.message@).push('\n'),
        None => ("[kernel] Panicked: "@ + info.message@).push('\n'),
    }
}

/// The state of a machine that panicked: the line of the panic, the exit
/// call for a failure, and the end.
pub open spec fn panicked(state: MachineState, info: PanicInfo) -> MachineState {
    state.emit(panic_line(info)).issue(QEMU_EXIT_HANDLE.exit_call(ExitStatus::Failure)).halt(
        ExitStatus::Failure,
    )
}

/// A panic on a running machine writes its line and nothing else, makes the
/// exit call for a failure once, as the last thing it does, and ends the run
/// as failed. The memory stays as it is.
pub proof fn lemma_panic_exits_once(state: MachineState, info: PanicInfo)
    requires
        state.running(),
    ensures
        panicked(state, info).exit == Some(ExitStatus::Failure),
        panicked(state, info).memory == state.memory,
        panicked(state, info).effects == (state.effects + putchar_effects(panic_line(info))).push(
            Effect::Call(QEMU_EXIT_HANDLE.exit_call(ExitStatus::Failure)),
        ),
        forall|i: int|
            state.effects.len() <= i < panicked(state, info).effects.len() ==> (
            #[trigger] panicked(state, info).effects[i] == Effect::Call(
                QEMU_EXIT_HANDLE.exit_call(ExitStatus::Failure),
            ) <==> i == panicked(state, info).effects.len() - 1),
        console_output(panicked(state, info).effects) == console_output(state.effects)
            + panic_line(info),
{
    let line = panic_line(info);
    let exit = Effect::Call(QEMU_EXIT_HANDLE.exit_call(ExitStatus::Failure));
    lemma_console_round_trip(state, line);
    let written = state.emit(line).effects;
    let after = panicked(state, info).effects;
    assert(after =~= written.push(exit));
    assert(after.drop_last() =~= written);
    assert forall|i: int| state.effects.len() <= i < after.len() implies (#[trigger] after[i]
        == exit <==> i == after.len() - 1) by {
        if i < after.len() - 1 {
            assert(after[i] == written[state.effects.len() + (i - state.effects.len())]);
        }
    }
}

/// Handles a panic: reports it on the console and shuts the machine down as
/// failed.
pub fn panic(machine: &mut Machine, info: &PanicInfo)
    ensures
        final(machine)@ == panicked(old(machine)@, *info),
{
    match info.location {
        Some(location) => {
            let args = [
                Argument::Str("[kernel] Panicked at "),
                Argument::Str(location.file),
                Argument::Str(":"),
                Argument::Decimal(location.line as usize),
                Argument::Str(" "),
                Argument::Str(info.message),
            ];
            proof {
                reveal_with_fuel(text_of, 7);
                assert(text_of(args@) =~= "[kernel] Panicked at "@ + location.file@ + ":"@
                    + decimal_text(location.line as nat) + " "@ + info.message@);
            }
            crate::console::println(machine, args.as_slice());
        },
        None => {
            let args = [Argument::Str("[kernel] Panicked: "), Argument::Str(info.message)];
            proof {
                reveal_with_fuel(text_of, 3);
                assert(text_of(args@) =~= "[kernel] Panicked: "@ + info.message@);
            }
            crate::console::println(machine, args.as_slice());
        },
    }
    shutdown(machine);
}

} // verus!
