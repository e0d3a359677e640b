//! Formatted output as data: the pieces of a message, and the text that
//! each piece stands for.

use vstd::prelude::*;

verus! {

/// The character for the digit `d`: `0` to `9`, then `a` to `f`.
pub open spec fn digit_char(d: nat) -> char {
    if d < 10 {
        ('0' as nat + d) as char
    } else {
        ('a' as nat + d - 10) as char
    }
}

/// The digits of `n` in `base`, most significant first, without leading
/// zeros; zero is the one digit 0.
pub open spec fn digits(n: nat, base: nat) -> Seq<nat>
    decreases n,
    via digits_decreases
{
    if base < 2 || n < base {
        seq![n]
    } else {
        digits(n / base, base).push(n % base)
    }
}

#[via_fn]
proof fn digits_decreases(n: nat, base: nat) {
    if !(base < 2 || n < base) {
        assert(n / base < n) by (nonlinear_arith)
            requires
                base >= 2,
                n >= base,
        ;
    }
}

/// The number that the digits `ds` stand for in `base`.
pub open spec fn digits_value(ds: Seq<nat>, base: nat) -> nat
    decreases ds.len(),
{
    if ds.len() == 0 {
        0
    } else {
        digits_value(ds.drop_last(), base) * base + ds.last()
    }
}

/// `n` written in `base`, for a base from 2 to 16.
pub open spec fn number_text(n: nat, base: nat) -> Seq<char> {
    let ds = digits(n, base);
    Seq::new(ds.len(), |i: int| digit_char(ds[i]))
}

/// `n` in decimal.
pub open spec fn decimal_text(n: nat) -> Seq<char> {
    number_text(n, 10)
}

/// `n` in hexadecimal, lower case, after the prefix `0x`.
pub open spec fn lower_hex_text(n: nat) -> Seq<char> {
    seq!['0', 'x'] + number_text(n, 16)
}

/// `text` after as many spaces as it lacks to be `width` characters long.
pub open spec fn right_aligned_text(text: Seq<char>, width: nat) -> Seq<char> {
    if text.len() >= width {
        text
    } else {
        Seq::new((width - text.len()) as nat, |i: int| ' ') + text
    }
}

/// One piece of a formatted message.
#[derive(Clone, Copy, Debug)]
pub enum Argument<'a> {
    /// Text, written as it is.
    Str(&'a str),
    /// An integer, written in decimal.
    Decimal(usize),
    /// An integer, written in hexadecimal after `0x`.
    LowerHex(usize),
    /// Text, right-aligned with spaces in a field of the given width.
    RightAligned(&'a str, usize),
}

impl<'a> Argument<'a> {
    /// The text that this piece stands for.
    pub open spec fn text(self) -> Seq<char> {
        match self {
            Argument::Str(s) => s@,
            Argument::Decimal(n) => decimal_text(n as nat),
            Argument::LowerHex(n) => lower_hex_text(n as nat),
            Argument::RightAligned(s, width) => right_aligned_text(s@, width as nat),
        }
    }
}

/// The text of a message: the texts of its pieces, joined in order.
pub open spec fn text_of(args: Seq<Argument>) -> Seq<char>
    decreases args.len(),
{
    if args.len() == 0 {
        Seq::empty()
    } else {
        text_of(args.drop_last()) + args.last().text()
    }
}

/// The sixteen digits are written `0` to `9` and then `a` to `f`.
pub proof fn lemma_digit_chars(d: nat)
    requires
        d < 16,
    ensures
        digit_char(d) == "0123456789abcdef"@[d as int],
{
    reveal_strlit("0123456789abcdef");
}

/// The digits of a number are digits of the base, stand for that number,
/// and begin with a zero only if the number is zero.
pub proof fn lemma_digits(n: nat, base: nat)
    requires
        base >= 2,
    ensures
        digits(n, base).len() >= 1,
        forall|i: int| 0 <= i < digits(n, base).len() ==> digits(n, base)[i] < base,
        digits_value(digits(n, base), base) == n,
        digits(n, base)[0] == 0 <==> n == 0,
    decreases n,
{
    let ds = digits(n, base);
    if n < base {
        assert(ds.drop_last() =~= Seq::<nat>::empty());
        assert(digits_value(ds.drop_last(), base) == 0);
        assert(0 * base == 0);
    } else {
        let high = n / base;
        let low = n % base;
        assert(high < n && high >= 1 && low < base && high * base + low == n)
            by (nonlinear_arith)
            requires
                base >= 2,
                n >= base,
                high == n / base,
                low == n % base,
        ;
        lemma_digits(high, base);
        assert(ds.drop_last() =~= digits(high, base));
        assert(ds[0] == digits(high, base)[0]);
    }
}

} // verus!
