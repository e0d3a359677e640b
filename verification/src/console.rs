//! The console: text written through the trampoline, one character per call.

use vstd::prelude::*;
use crate::fmt::{
    decimal_text, digit_char, digits, lower_hex_text, number_text, right_aligned_text, text_of,
    Argument,
};
use crate::machine::{lemma_emit_concat, lemma_emit_nothing, lemma_emit_push, Machine};
use crate::sbi::console_putchar;

verus! {

/// Writes `s` to the console, character by character, first to last.
pub fn write_str(machine: &mut Machine, s: &str)
    ensures
        final(machine)@ == old(machine)@.emit(s@),
{
    proof {
        lemma_emit_nothing(machine@);
    }
    for c in it: s.chars()
        invariant
            it.seq() == s@,
            machine@ == old(machine)@.emit(s@.take(it.index())),
    {
        proof {
            lemma_emit_push(old(machine)@, s@.take(it.index()), c);
            assert(s@.take(it.index()).push(c) =~= s@.take(it.index() + 1));
        }
        console_putchar(machine, c as usize);
    }
    assert(s@.take(s@.len() as int) =~= s@);
}

/// The character code of the digit `d`.
fn digit_code(d: usize) -> (code: usize)
    requires
        d < 16,
    ensures
        code == digit_char(d as nat) as usize,
{
    if d < 10 {
        '0' as usize + d
    } else {
        'a' as usize + (d - 10)
    }
}

/// Writes `value` in `base`, most significant digit first.
fn write_number(machine: &mut Machine, value: usize, base: usize)
    requires
        2 <= base <= 16,
    ensures
        final(machine)@ == old(machine)@.emit(number_text(value as nat, base as nat)),
{
    // The digits, least significant first.
    let mut low_first: Vec<usize> = Vec::new();
    let mut rest: usize = value;
    while rest >= base
        invariant
            2 <= base <= 16,
            forall|j: int| 0 <= j < low_first.len() ==> low_first[j] < base,
            digits(value as nat, base as nat) == digits(rest as nat, base as nat) + Seq::new(
                low_first.len() as nat,
                |j: int| low_first[low_first.len() - 1 - j] as nat,
            ),
        decreases rest,
    {
        let ghost before = low_first@;
        let ghost digit = (rest % base) as nat;
        low_first.push(rest % base);
        rest = rest / base;
        assert(digits(rest as nat, base as nat).push(digit) + Seq::new(
            before.len(),
            |j: int| before[before.len() - 1 - j] as nat,
        ) =~= digits(rest as nat, base as nat) + Seq::new(
            low_first.len() as nat,
            |j: int| low_first[low_first.len() - 1 - j] as nat,
        ));
    }
    low_first.push(rest);
    let ghost text = number_text(value as nat, base as nat);
    assert(digits(value as nat, base as nat) =~= Seq::new(
        low_first.len() as nat,
        |j: int| low_first[low_first.len() - 1 - j] as nat,
    ));
    proof {
        lemma_emit_nothing(machine@);
    }
    let mut i: usize = low_first.len();
    while i > 0
        invariant
            i <= low_first.len(),
            forall|j: int| 0 <= j < low_first.len() ==> low_first[j] < 16,
            text.len() == low_first.len(),
            forall|j: int|
                0 <= j < low_first.len() ==> text[j] == digit_char(
                    low_first[low_first.len() - 1 - j] as nat,
                ),
            machine@ == old(machine)@.emit(text.take(low_first.len() - i)),
        decreases i,
    {
        let ghost done = low_first.len() - i;
        i = i - 1;
        proof {
            lemma_emit_push(old(machine)@, text.take(done), text[done]);
            assert(text.take(done).push(text[done]) =~= text.take(done + 1));
        }
        console_putchar(machine, digit_code(low_first[i]));
    }
    assert(text.take(text.len() as int) =~= text);
}

/// Writes `value` in decimal.
pub fn write_decimal(machine: &mut Machine, value: usize)
    ensures
        final(machine)@ == old(machine)@.emit(decimal_text(value as nat)),
{
    write_number(machine, value, 10);
}

/// Writes `value` in hexadecimal, lower case, after the prefix `0x`.
pub fn write_lower_hex(machine: &mut Machine, value: usize)
    ensures
        final(machine)@ == old(machine)@.emit(lower_hex_text(value as nat)),
{
    console_putchar(machine, '0' as usize);
    console_putchar(machine, 'x' as usize);
    write_number(machine, value, 16);
    proof {
        let start = old(machine)@;
        lemma_emit_nothing(start);
        lemma_emit_push(start, Seq::empty(), '0');
        lemma_emit_push(start, seq!['0'], 'x');
        assert(Seq::<char>::empty().push('0') =~= seq!['0']);
        assert(seq!['0'].push('x') =~= seq!['0', 'x']);
        lemma_emit_concat(start, seq!['0', 'x'], number_text(value as nat, 16));
    }
}

/// Writes `s` after as many spaces as it lacks to be `width` characters
/// long.
pub fn write_right_aligned(machine: &mut Machine, s: &str, width: usize)
    ensures
        final(machine)@ == old(machine)@.emit(right_aligned_text(s@, width as nat)),
{
    let len = s.unicode_len();
    let ghost spaces = Seq::new((width - len) as nat, |i: int| ' ');
    proof {
        lemma_emit_nothing(machine@);
    }
    let mut written: usize = len;
    while written < width
        invariant
            len <= written,
            len < width ==> written <= width,
            len < width ==> spaces.len() == width - len,
            forall|j: int| 0 <= j < spaces.len() ==> spaces[j] == ' ',
            len < width ==> machine@ == old(machine)@.emit(spaces.take(written - len)),
            len >= width ==> machine@ == old(machine)@,
        decreases width - written,
    {
        proof {
            lemma_emit_push(old(machine)@, spaces.take(written - len), ' ');
            assert(spaces.take(written - len).push(' ') =~= spaces.take(written - len + 1));
        }
        console_putchar(machine, ' ' as usize);
        written = written + 1;
    }
    write_str(machine, s);
    proof {
        if len < width {
            assert(spaces.take(width - len) =~= spaces);
            lemma_emit_concat(old(machine)@, spaces, s@);
        }
    }
}

/// Writes one piece of a message.
pub fn write_argument(machine: &mut Machine, arg: &Argument)
    ensures
        final(machine)@ == old(machine)@.emit(arg.text()),
{
    match arg {
        Argument::Str(s) => write_str(machine, s),
        Argument::Decimal(n) => write_decimal(machine, *n),
        Argument::LowerHex(n) => write_lower_hex(machine, *n),
        Argument::RightAligned(s, width) => write_right_aligned(machine, s, *width),
    }
}

/// Writes a message to the console: each piece in turn, each character by a
/// call of its own, in the order of the text.
pub fn print(machine: &mut Machine, args: &[Argument])
    ensures
        final(machine)@ == old(machine)@.emit(text_of(args@)),
{
    proof {
        lemma_emit_nothing(machine@);
    }
    let mut i: usize = 0;
    while i < args.len()
        invariant
            i <= args.len(),
            machine@ == old(machine)@.emit(text_of(args@.take(i as int))),
        decreases args.len() - i,
    {
        proof {
            lemma_emit_concat(old(machine)@, text_of(args@.take(i as int)), args[i as int].text());
            assert(args@.take(i + 1).drop_last() =~= args@.take(i as int));
        }
        write_argument(machine, &args[i]);
        i = i + 1;
    }
    assert(args@.take(args.len() as int) =~= args@);
}

/// Writes a message to the console and ends the line.
pub fn println(machine: &mut Machine, args: &[Argument])
    ensures
        final(machine)@ == old(machine)@.emit(text_of(args@).push('\n')),
{
    print(machine, args);
    console_putchar(machine, '\n' as usize);
    proof {
        lemma_emit_push(old(machine)@, text_of(args@), '\n');
    }
}

} // verus!
