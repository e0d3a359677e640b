//! The machine as the kernel acts on it: a region of memory that is written
//! byte by byte, a firmware that is reached by privileged calls, and the
//! moment at which the kernel gives up control.

use vstd::prelude::*;
use crate::memory::Segment;
use crate::sbi::{putchar_call, SbiCall, SBI_CONSOLE_PUTCHAR};

verus! {

/// One byte written to memory.
#[derive(Clone, Copy, PartialEq, Eq, Debug, Structural)]
pub struct Store {
    pub addr: usize,
    pub value: u8,
}

/// One thing that the kernel does to the machine.
#[derive(Clone, Copy, PartialEq, Eq, Debug, Structural)]
pub enum Effect {
    /// A byte is stored, in a way that no optimiser may drop or move.
    Store(Store),
    /// A privileged call is made.
    Call(SbiCall),
}

/// The outcome that a kernel hands to the firmware when it gives up control.
#[derive(Clone, Copy, PartialEq, Eq, Debug, Structural)]
pub enum ExitStatus {
    Success,
    Failure,
}

/// The state of a machine: the byte at each address of its memory, what the
/// kernel has done to it so far, oldest first, and the status with which
/// control was given up, if it was.
pub struct MachineState {
    pub memory: Map<int, u8>,
    pub effects: Seq<Effect>,
    pub exit: Option<ExitStatus>,
}

/// The calls that write `text` to the console, one per character, in order.
pub open spec fn putchar_effects(text: Seq<char>) -> Seq<Effect> {
    Seq::new(text.len(), |i: int| Effect::Call(putchar_call(text[i] as usize)))
}

/// The stores that set the bytes of `segment` to zero, one per byte, from
/// the lowest address up.
pub open spec fn zero_stores(segment: Segment) -> Seq<Effect> {
    Seq::new(
        segment.len(),
        |i: int| Effect::Store(Store { addr: (segment.start + i) as usize, value: 0 }),
    )
}

/// The text that `effects` put on the console: the characters of the console
/// calls among them, in order.
pub open spec fn console_output(effects: Seq<Effect>) -> Seq<char>
    decreases effects.len(),
{
    if effects.len() == 0 {
        Seq::empty()
    } else {
        let before = console_output(effects.drop_last());
        match effects.last() {
            Effect::Call(call) => if call.which == SBI_CONSOLE_PUTCHAR && (call.arg0 <= 0xD7FF
                || 0xE000 <= call.arg0 <= 0x10FFFF) {
                before.push(call.arg0 as char)
            } else {
                before
            },
            Effect::Store(_) => before,
        }
    }
}

impl MachineState {
    /// A machine on which nothing has happened yet, with `bytes` in memory
    /// from the address `base` on.
    pub open spec fn fresh(base: usize, bytes: Seq<u8>) -> MachineState {
        MachineState {
            memory: Map::new(
                |addr: int| base <= addr < base + bytes.len(),
                |addr: int| bytes[addr - base],
            ),
            effects: Seq::empty(),
            exit: None,
        }
    }

    /// Control has not been given up: what the kernel does still happens.
    pub open spec fn running(self) -> bool {
        self.exit is None
    }

    /// The memory has a byte at `addr`.
    pub open spec fn maps(self, addr: int) -> bool {
        self.memory.dom().contains(addr)
    }

    /// One privileged call made. After an exit nothing is executed, so
    /// nothing happens.
    pub open spec fn issue(self, call: SbiCall) -> MachineState {
        if self.running() {
            MachineState { effects: self.effects.push(Effect::Call(call)), ..self }
        } else {
            self
        }
    }

    /// `text` written to the console, character by character.
    pub open spec fn emit(self, text: Seq<char>) -> MachineState {
        if self.running() {
            MachineState { effects: self.effects + putchar_effects(text), ..self }
        } else {
            self
        }
    }

    /// One byte stored. Where the memory has no byte at `addr`, the store is
    /// made all the same, and the memory stays as it is.
    pub open spec fn store(self, addr: usize, value: u8) -> MachineState {
        if self.running() {
            MachineState {
                memory: if self.maps(addr as int) {
                    self.memory.insert(addr as int, value)
                } else {
                    self.memory
                },
                effects: self.effects.push(Effect::Store(Store { addr, value })),
                ..self
            }
        } else {
            self
        }
    }

    /// Every byte of `segment` set to zero, by one store for each address of
    /// the segment, from the lowest address up. The bytes outside the
    /// segment stay.
    pub open spec fn zero_fill(self, segment: Segment) -> MachineState {
        if self.running() {
            MachineState {
                memory: Map::new(
                    |addr: int| self.maps(addr),
                    |addr: int|
                        if segment.contains(addr) {
                            0u8
                        } else {
                            self.memory[addr]
                        },
                ),
                effects: self.effects + zero_stores(segment),
                ..self
            }
        } else {
            self
        }
    }

    /// Control given up with `status`. The first exit is the only one.
    pub open spec fn halt(self, status: ExitStatus) -> MachineState {
        if self.running() {
            MachineState { exit: Some(status), ..self }
        } else {
            self
        }
    }
}

/// A machine as the kernel sees it.
pub struct Machine {
    base: usize,
    bytes: Vec<u8>,
    effects: Vec<Effect>,
    exit: Option<ExitStatus>,
}

impl View for Machine {
    type V = MachineState;

    closed spec fn view(&self) -> MachineState {
        MachineState {
            memory: MachineState::fresh(self.base, self.bytes@).memory,
            effects: self.effects@,
            exit: self.exit,
        }
    }
}

impl Machine {
    /// A machine without memory on which nothing has happened yet.
    pub fn new() -> (machine: Machine)
        ensures
            machine@ == MachineState::fresh(0, Seq::empty()),
    {
        Machine { base: 0, bytes: Vec::new(), effects: Vec::new(), exit: None }
    }

    /// A machine on which nothing has happened yet, with `bytes` in memory
    /// from the address `base` on.
    pub fn with_memory(base: usize, bytes: Vec<u8>) -> (machine: Machine)
        ensures
            machine@ == MachineState::fresh(base, bytes@),
    {
        Machine { base, bytes, effects: Vec::new(), exit: None }
    }

    /// What the kernel has done so far, oldest first.
    pub fn effects(&self) -> (effects: &Vec<Effect>)
        ensures
            effects@ == self@.effects,
    {
        &self.effects
    }

    /// The status with which control was given up, if it was.
    pub fn exit_status(&self) -> (status: Option<ExitStatus>)
        ensures
            status == self@.exit,
    {
        self.exit
    }

    /// Whether the memory has a byte at `addr`.
    pub fn maps(&self, addr: usize) -> (mapped: bool)
        ensures
            mapped == self@.maps(addr as int),
    {
        addr >= self.base && addr - self.base < self.bytes.len()
    }

    /// The byte at `addr`, if the memory has one there.
    pub fn read(&self, addr: usize) -> (byte: Option<u8>)
        ensures
            byte == if self@.maps(addr as int) {
                Some(self@.memory[addr as int])
            } else {
                None
            },
    {
        if self.maps(addr) {
            Some(self.bytes[addr - self.base])
        } else {
            None
        }
    }

    /// Makes one privileged call.
    pub fn issue(&mut self, call: SbiCall)
        ensures
            final(self)@ == old(self)@.issue(call),
    {
        if self.exit.is_none() {
            self.effects.push(Effect::Call(call));
        }
    }

    /// Stores `value` at `addr`, whatever an optimiser may think of it.
    pub fn write_volatile(&mut self, addr: usize, value: u8)
        ensures
            final(self)@ == old(self)@.store(addr, value),
    {
        if self.exit.is_none() {
            if self.maps(addr) {
                let index = addr - self.base;
                self.bytes.set(index, value);
            }
            self.effects.push(Effect::Store(Store { addr, value }));
            assert(self@.memory =~= old(self)@.store(addr, value).memory);
        }
    }

    /// Gives up control with `status`: from here on the machine ignores the
    /// kernel. On a machine that has already stopped this changes nothing.
    pub fn halt(&mut self, status: ExitStatus)
        ensures
            final(self)@ == old(self)@.halt(status),
    {
        if self.exit.is_none() {
            self.exit = Some(status);
        }
    }
}

/// Writing nothing changes nothing.
pub proof fn lemma_emit_nothing(state: MachineState)
    ensures
        state.emit(Seq::empty()) == state,
{
    assert(state.effects + putchar_effects(Seq::empty()) =~= state.effects);
}

/// Writing a text and then one more character is writing the text with that
/// character at its end.
pub proof fn lemma_emit_push(state: MachineState, text: Seq<char>, c: char)
    ensures
        state.emit(text).issue(putchar_call(c as usize)) == state.emit(text.push(c)),
{
    assert((state.effects + putchar_effects(text)).push(Effect::Call(putchar_call(c as usize)))
        =~= state.effects + putchar_effects(text.push(c)));
}

/// Writing two texts one after the other is writing them joined.
pub proof fn lemma_emit_concat(state: MachineState, first: Seq<char>, second: Seq<char>)
    ensures
        state.emit(first).emit(second) == state.emit(first + second),
{
    assert(state.effects + putchar_effects(first) + putchar_effects(second) =~= state.effects
        + putchar_effects(first + second));
}

/// The code of a character stands for that character and for no other.
proof fn lemma_char_code(c: char)
    ensures
        c as usize <= 0xD7FF || 0xE000 <= c as usize <= 0x10FFFF,
        (c as usize) as char == c,
{
}

/// Once control is given up, nothing that the kernel does has any effect.
pub proof fn lemma_halted_is_final(state: MachineState)
    requires
        !state.running(),
    ensures
        forall|call: SbiCall| #[trigger] state.issue(call) == state,
        forall|text: Seq<char>| #[trigger] state.emit(text) == state,
        forall|addr: usize, value: u8| #[trigger] state.store(addr, value) == state,
        forall|segment: Segment| #[trigger] state.zero_fill(segment) == state,
        forall|status: ExitStatus| #[trigger] state.halt(status) == state,
{
}

/// On a running machine a text comes out of the console as it went in: one
/// call for each character, in the order of the text, none added and none
/// lost; and the memory stays as it is.
pub proof fn lemma_console_round_trip(state: MachineState, text: Seq<char>)
    requires
        state.running(),
    ensures
        state.emit(text).running(),
        state.emit(text).memory == state.memory,
        state.emit(text).effects.len() == state.effects.len() + text.len(),
        forall|i: int|
            0 <= i < text.len() ==> #[trigger] state.emit(text).effects[state.effects.len() + i]
                == Effect::Call(putchar_call(text[i] as usize)),
        console_output(state.emit(text).effects) == console_output(state.effects) + text,
    decreases text.len(),
{
    if text.len() == 0 {
        lemma_emit_nothing(state);
        assert(text =~= Seq::empty());
        assert(console_output(state.effects) + text =~= console_output(state.effects));
    } else {
        let front = text.drop_last();
        let c = text.last();
        lemma_console_round_trip(state, front);
        lemma_emit_push(state, front, c);
        assert(front.push(c) =~= text);
        let effects = state.emit(text).effects;
        assert(effects.drop_last() =~= state.emit(front).effects);
        assert(effects.last() == Effect::Call(putchar_call(c as usize)));
        lemma_char_code(c);
        assert((console_output(state.effects) + front).push(c) =~= console_output(state.effects)
            + text);
    }
}

/// A zero fill on a running machine leaves the memory over the addresses
/// that it had; each byte of the segment is zero afterwards and every other
/// byte is what it was. It makes one store for each address of the segment
/// and no call, so a segment without addresses is filled by doing nothing.
pub proof fn lemma_zero_fill(state: MachineState, segment: Segment)
    requires
        state.running(),
    ensures
        state.zero_fill(segment).running(),
        forall|addr: int| state.zero_fill(segment).maps(addr) <==> state.maps(addr),
        forall|addr: int|
            state.maps(addr) && segment.contains(addr) ==> #[trigger] state.zero_fill(
                segment,
            ).memory[addr] == 0,
        forall|addr: int|
            state.maps(addr) && !segment.contains(addr) ==> #[trigger] state.zero_fill(
                segment,
            ).memory[addr] == state.memory[addr],
        state.zero_fill(segment).effects.len() == state.effects.len() + segment.len(),
        forall|i: int|
            0 <= i < segment.len() ==> #[trigger] state.zero_fill(segment).effects[
                state.effects.len() + i
            ] == Effect::Store(Store { addr: (segment.start + i) as usize, value: 0 }),
        console_output(state.zero_fill(segment).effects) == console_output(state.effects),
        segment.start >= segment.end ==> state.zero_fill(segment) == state,
{
    lemma_stores_are_silent(state.effects, zero_stores(segment));
    if segment.start >= segment.end {
        assert(state.zero_fill(segment).memory =~= state.memory);
        assert(state.zero_fill(segment).effects =~= state.effects);
    }
}

/// Stores put nothing on the console.
proof fn lemma_stores_are_silent(effects: Seq<Effect>, stores: Seq<Effect>)
    requires
        forall|i: int| 0 <= i < stores.len() ==> stores[i] is Store,
    ensures
        console_output(effects + stores) == console_output(effects),
    decreases stores.len(),
{
    if stores.len() == 0 {
        assert(effects + stores =~= effects);
    } else {
        lemma_stores_are_silent(effects, stores.drop_last());
        assert((effects + stores).drop_last() =~= effects + stores.drop_last());
    }
}

} // verus!
