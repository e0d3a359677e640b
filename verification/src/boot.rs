//! The boot sequence: what the kernel does from its entry to its exit.

use vstd::prelude::*;
use crate::board::QEMU_EXIT_HANDLE;
use crate::fmt::{lower_hex_text, text_of, Argument};
use crate::logging::{init, log_line, logged, threshold_of, Level, LevelFilter, Logger, Record};
use crate::machine::{
    console_output, lemma_console_round_trip, lemma_emit_concat, lemma_emit_nothing,
    lemma_zero_fill, putchar_effects, zero_stores, Effect, ExitStatus, Machine, MachineState,
};
use crate::memory::{MemoryLayout, Segment};

verus! {

/// Sets every byte of the BSS segment to zero, one store per byte, from the
/// lowest address up.
pub fn clear_bss(machine: &mut Machine, bss: Segment)
    ensures
        final(machine)@ == old(machine)@.zero_fill(bss),
{
    if machine.exit_status().is_some() {
        return ;
    }
    let mut addr: usize = bss.start;
    proof {
        let none = Segment { start: bss.start, end: bss.start };
        assert(machine@.zero_fill(none).memory =~= machine@.memory);
        assert(machine@.zero_fill(none).effects =~= machine@.effects);
    }
    while addr < bss.end
        invariant
            bss.start <= addr,
            bss.start <= bss.end ==> addr <= bss.end,
            bss.start > bss.end ==> addr == bss.start,
            old(machine)@.running(),
            machine@ == old(machine)@.zero_fill(Segment { start: bss.start, end: addr }),
        decreases bss.end - addr,
    {
        let ghost done = Segment { start: bss.start, end: addr };
        let ghost next = Segment { start: bss.start, end: (addr + 1) as usize };
        machine.write_volatile(addr, 0);
        proof {
            let start = old(machine)@;
            assert(start.zero_fill(done).store(addr, 0).memory =~= start.zero_fill(next).memory);
            assert(start.zero_fill(done).store(addr, 0).effects =~= start.zero_fill(
                next,
            ).effects);
        }
        addr = addr + 1;
    }
    proof {
        if bss.start <= bss.end {
            assert(Segment { start: bss.start, end: addr } == bss);
        } else {
            let none = Segment { start: bss.start, end: bss.start };
            assert(old(machine)@.zero_fill(bss).memory =~= old(machine)@.zero_fill(none).memory);
            assert(old(machine)@.zero_fill(bss).effects =~= old(machine)@.zero_fill(
                none,
            ).effects);
        }
    }
}

/// The message that the boot sequence logs at `level`: at each level the
/// bounds of one segment, from the code at `Trace` to the BSS at `Error`.
pub open spec fn boot_message(layout: MemoryLayout, level: Level) -> Seq<char> {
    match level {
        Level::Trace => "[kernel] .text ["@ + lower_hex_text(layout.text.start as nat) + ", "@
            + lower_hex_text(layout.text.end as nat) + ")"@,
        Level::Debug => "[kernel] .rodata ["@ + lower_hex_text(layout.rodata.start as nat)
            + ", "@ + lower_hex_text(layout.rodata.end as nat) + ")"@,
        Level::Info => "[kernel] .data ["@ + lower_hex_text(layout.data.start as nat) + ", "@
            + lower_hex_text(layout.data.end as nat) + ")"@,
        Level::Warn => "[kernel] boot_stack top=bottom="@ + lower_hex_text(
            layout.boot_stack.end as nat,
        ) + ", lower_bound="@ + lower_hex_text(layout.boot_stack.start as nat),
        Level::Error => "[kernel] .bss ["@ + lower_hex_text(layout.bss.start as nat) + ", "@
            + lower_hex_text(layout.bss.end as nat) + ")"@,
    }
}

/// The line that the boot sequence writes for `level` under `threshold`:
/// the line of the level's message, or nothing where the threshold keeps
/// the level out.
pub open spec fn boot_line(layout: MemoryLayout, threshold: LevelFilter, level: Level) -> Seq<
    char,
> {
    if threshold.admits(level) {
        log_line(level, boot_message(layout, level))
    } else {
        Seq::empty()
    }
}

/// All that the boot sequence writes to the console: the greeting, then the
/// lines from the least severe level to the most severe.
pub open spec fn boot_text(layout: MemoryLayout, threshold: LevelFilter) -> Seq<char> {
    "[kernel] Hello, world!"@.push('\n') + boot_line(layout, threshold, Level::Trace) + boot_line(
        layout,
        threshold,
        Level::Debug,
    ) + boot_line(layout, threshold, Level::Info) + boot_line(layout, threshold, Level::Warn)
        + boot_line(layout, threshold, Level::Error)
}

/// The state of a machine that has booted: first the BSS cleared, then the
/// console text of the boot sequence written, then the exit call for
/// success made, and control given up.
pub open spec fn booted(
    state: MachineState,
    layout: MemoryLayout,
    threshold: LevelFilter,
) -> MachineState {
    state.zero_fill(layout.bss).emit(boot_text(layout, threshold)).issue(
        QEMU_EXIT_HANDLE.exit_call(ExitStatus::Success),
    ).halt(ExitStatus::Success)
}

/// A boot on a running machine does three things in this order and nothing
/// else: it stores a zero to each byte of the BSS, writes the text of the
/// boot sequence to the console, and makes the exit call for success; then
/// the run has ended as a success. Without a threshold that admits a level,
/// the text is the greeting alone.
pub proof fn lemma_booted(state: MachineState, layout: MemoryLayout, threshold: LevelFilter)
    requires
        state.running(),
    ensures
        booted(state, layout, threshold).exit == Some(ExitStatus::Success),
        booted(state, layout, threshold).memory == state.zero_fill(layout.bss).memory,
        booted(state, layout, threshold).effects == (state.effects + zero_stores(layout.bss)
            + putchar_effects(boot_text(layout, threshold))).push(
            Effect::Call(QEMU_EXIT_HANDLE.exit_call(ExitStatus::Success)),
        ),
        console_output(booted(state, layout, threshold).effects) == console_output(state.effects)
            + boot_text(layout, threshold),
        boot_text(layout, LevelFilter::Off) == "[kernel] Hello, world!"@.push('\n'),
{
    let cleared = state.zero_fill(layout.bss);
    let written = cleared.emit(boot_text(layout, threshold));
    let after = booted(state, layout, threshold);
    lemma_zero_fill(state, layout.bss);
    lemma_console_round_trip(cleared, boot_text(layout, threshold));
    assert(after.effects.drop_last() =~= written.effects);
    assert(boot_text(layout, LevelFilter::Off) =~= "[kernel] Hello, world!"@.push('\n'));
}

/// Logs two addresses between three pieces of text.
fn log_addresses(
    logger: &Logger,
    machine: &mut Machine,
    level: Level,
    before: &str,
    first: usize,
    between: &str,
    second: usize,
    after: &str,
)
    requires
        logger@ is Some,
    ensures
        final(machine)@ == logged(
            old(machine)@,
            logger@->0,
            level,
            before@ + lower_hex_text(first as nat) + between@ + lower_hex_text(second as nat)
                + after@,
        ),
{
    let args = [
        Argument::Str(before),
        Argument::LowerHex(first),
        Argument::Str(between),
        Argument::LowerHex(second),
        Argument::Str(after),
    ];
    proof {
        reveal_with_fuel(text_of, 6);
        assert(text_of(args@) =~= before@ + lower_hex_text(first as nat) + between@
            + lower_hex_text(second as nat) + after@);
    }
    logger.log(machine, &Record { level, args: args.as_slice() });
}

/// The state after one line of the boot sequence is the state before it with
/// that line written.
proof fn lemma_boot_line(
    state: MachineState,
    layout: MemoryLayout,
    threshold: LevelFilter,
    level: Level,
)
    ensures
        logged(state, threshold, level, boot_message(layout, level)) == state.emit(
            boot_line(layout, threshold, level),
        ),
{
    lemma_emit_nothing(state);
}

/// The entry of the kernel: clears the BSS, initialises the logger, greets,
/// logs the bounds of the five segments, each at a level of its own, and
/// leaves the machine as a success.
pub fn rust_main(
    machine: &mut Machine,
    logger: &mut Logger,
    layout: &MemoryLayout,
    config: Option<&str>,
)
    requires
        old(logger)@ is None,
    ensures
        final(logger)@ == Some(threshold_of(config)),
        final(machine)@ == booted(old(machine)@, *layout, threshold_of(config)),
{
    clear_bss(machine, layout.bss);
    init(logger, config);
    let greeting = [Argument::Str("[kernel] Hello, world!")];
    proof {
        reveal_with_fuel(text_of, 2);
        assert(text_of(greeting@) =~= "[kernel] Hello, world!"@);
    }
    crate::console::println(machine, greeting.as_slice());
    log_addresses(
        logger,
        machine,
        Level::Trace,
        "[kernel] .text [",
        layout.text.start,
        ", ",
        layout.text.end,
        ")",
    );
    log_addresses(
        logger,
        machine,
        Level::Debug,
        "[kernel] .rodata [",
        layout.rodata.start,
        ", ",
        layout.rodata.end,
        ")",
    );
    log_addresses(
        logger,
        machine,
        Level::Info,
        "[kernel] .data [",
        layout.data.start,
        ", ",
        layout.data.end,
        ")",
    );
    log_addresses(
        logger,
        machine,
        Level::Warn,
        "[kernel] boot_stack top=bottom=",
        layout.boot_stack.end,
        ", lower_bound=",
        layout.boot_stack.start,
        "",
    );
    log_addresses(
        logger,
        machine,
        Level::Error,
        "[kernel] .bss [",
        layout.bss.start,
        ", ",
        layout.bss.end,
        ")",
    );
    proof {
        reveal_strlit("");
        assert(boot_message(*layout, Level::Warn) + ""@ =~= boot_message(*layout, Level::Warn));
        let start = old(machine)@.zero_fill(layout.bss);
        let threshold = threshold_of(config);
        let greeting = "[kernel] Hello, world!"@.push('\n');
        let l1 = boot_line(*layout, threshold, Level::Trace);
        let l2 = boot_line(*layout, threshold, Level::Debug);
        let l3 = boot_line(*layout, threshold, Level::Info);
        let l4 = boot_line(*layout, threshold, Level::Warn);
        let l5 = boot_line(*layout, threshold, Level::Error);
        let t0 = start.emit(greeting);
        let t1 = t0.emit(l1);
        let t2 = t1.emit(l2);
        let t3 = t2.emit(l3);
        let t4 = t3.emit(l4);
        lemma_boot_line(t0, *layout, threshold, Level::Trace);
        lemma_boot_line(t1, *layout, threshold, Level::Debug);
        lemma_boot_line(t2, *layout, threshold, Level::Info);
        lemma_boot_line(t3, *layout, threshold, Level::Warn);
        lemma_boot_line(t4, *layout, threshold, Level::Error);
        lemma_emit_concat(start, greeting, l1);
        lemma_emit_concat(start, greeting + l1, l2);
        lemma_emit_concat(start, greeting + l1 + l2, l3);
        lemma_emit_concat(start, greeting + l1 + l2 + l3, l4);
        lemma_emit_concat(start, greeting + l1 + l2 + l3 + l4, l5);
    }
    QEMU_EXIT_HANDLE.exit_success(machine);
}

} // verus!
