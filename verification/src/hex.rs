//! Fixed-width lower-case hexadecimal numerals.

use vstd::prelude::*;
use vstd::string::*;

verus! {

/// The lower-case hexadecimal digit that stands for `d`.
pub open spec fn hex_char(d: nat) -> char
    recommends
        d < 16,
{
    if d == 0 {
        '0'
    } else if d == 1 {
        '1'
    } else if d == 2 {
        '2'
    } else if d == 3 {
        '3'
    } else if d == 4 {
        '4'
    } else if d == 5 {
        '5'
    } else if d == 6 {
        '6'
    } else if d == 7 {
        '7'
    } else if d == 8 {
        '8'
    } else if d == 9 {
        '9'
    } else if d == 10 {
        'a'
    } else if d == 11 {
        'b'
    } else if d == 12 {
        'c'
    } else if d == 13 {
        'd'
    } else if d == 14 {
        'e'
    } else {
        'f'
    }
}

/// The value of a lower-case hexadecimal digit; `None` for any other character.
pub open spec fn hex_value(c: char) -> Option<nat> {
    if c == '0' {
        Some(0)
    } else if c == '1' {
        Some(1)
    } else if c == '2' {
        Some(2)
    } else if c == '3' {
        Some(3)
    } else if c == '4' {
        Some(4)
    } else if c == '5' {
        Some(5)
    } else if c == '6' {
        Some(6)
    } else if c == '7' {
        Some(7)
    } else if c == '8' {
        Some(8)
    } else if c == '9' {
        Some(9)
    } else if c == 'a' {
        Some(10)
    } else if c == 'b' {
        Some(11)
    } else if c == 'c' {
        Some(12)
    } else if c == 'd' {
        Some(13)
    } else if c == 'e' {
        Some(14)
    } else if c == 'f' {
        Some(15)
    } else {
        None
    }
}

/// Sixteen to the power `width`.
pub open spec fn pow16(width: nat) -> nat
    decreases width,
{
    if width == 0 {
        1
    } else {
        16 * pow16((width - 1) as nat)
    }
}

/// The numeral of `n` in exactly `width` digits, most significant digit first,
/// padded with zeros on the left. Digits above `width` are cut off.
pub open spec fn hex_digits(n: nat, width: nat) -> Seq<char>
    decreases width,
{
    if width == 0 {
        Seq::empty()
    } else {
        hex_digits(n / 16, (width - 1) as nat).push(hex_char(n % 16))
    }
}

/// The number that a numeral stands for; `None` where a character is no
/// lower-case hexadecimal digit.
pub open spec fn hex_number(s: Seq<char>) -> Option<nat>
    decreases s.len(),
{
    if s.len() == 0 {
        Some(0)
    } else {
        match (hex_number(s.drop_last()), hex_value(s.last())) {
            (Some(high), Some(low)) => Some(high * 16 + low),
            _ => None,
        }
    }
}

/// The powers of sixteen at the widths of a byte, a span id and a trace id.
pub proof fn lemma_pow16_widths()
    ensures
        pow16(2) == 0x100,
        pow16(16) == 0x1_0000_0000_0000_0000,
        pow16(32) == 0x1_0000_0000_0000_0000_0000_0000_0000_0000,
{
    reveal_with_fuel(pow16, 9);
    assert(pow16(8) == 0x1_0000_0000);
    assert(pow16(16) == 0x1_0000_0000 * pow16(8));
    assert(pow16(24) == 0x1_0000_0000 * pow16(16));
    assert(pow16(32) == 0x1_0000_0000 * pow16(24));
}

/// Powers of sixteen are positive and grow with the width.
pub proof fn lemma_pow16_monotonic(a: nat, b: nat)
    requires
        a <= b,
    ensures
        0 < pow16(a) <= pow16(b),
    decreases b,
{
    if b == 0 {
    } else if a == b {
        lemma_pow16_monotonic(0, (b - 1) as nat);
    } else {
        lemma_pow16_monotonic(a, (b - 1) as nat);
    }
}

/// A numeral has exactly the width it was written in.
pub proof fn lemma_hex_digits_len(n: nat, width: nat)
    ensures
        hex_digits(n, width).len() == width,
    decreases width,
{
    if width > 0 {
        lemma_hex_digits_len(n / 16, (width - 1) as nat);
    }
}

/// A numeral that is wide enough reads back as the number it was written from.
pub proof fn lemma_number_of_digits(n: nat, width: nat)
    requires
        n < pow16(width),
    ensures
        hex_number(hex_digits(n, width)) == Some(n),
    decreases width,
{
    if width > 0 {
        let rest = hex_digits(n / 16, (width - 1) as nat);
        lemma_number_of_digits(n / 16, (width - 1) as nat);
        assert(hex_digits(n, width).drop_last() =~= rest);
        assert(hex_digits(n, width).last() == hex_char(n % 16));
    }
}

/// Every numeral is the one that is written from its number, and the number
/// fits the numeral's width.
pub proof fn lemma_digits_of_number(s: Seq<char>)
    requires
        hex_number(s) is Some,
    ensures
        hex_number(s)->0 < pow16(s.len()),
        hex_digits(hex_number(s)->0, s.len()) == s,
    decreases s.len(),
{
    if s.len() > 0 {
        lemma_digits_of_number(s.drop_last());
        let high = hex_number(s.drop_last())->0;
        let low = hex_value(s.last())->0;
        let n = high * 16 + low;
        assert(n / 16 == high && n % 16 == low);
        assert(hex_char(low) == s.last());
        assert(hex_digits(n, s.len()) =~= s);
    } else {
        assert(hex_digits(0, 0) =~= s);
    }
}

/// The one-character text of a digit.
fn digit_text(d: u8) -> (text: &'static str)
    requires
        d < 16,
    ensures
        text@ == seq![hex_char(d as nat)],
{
    let text: &'static str = if d == 0 {
        proof { reveal_strlit("0"); }
        "0"
    } else if d == 1 {
        proof { reveal_strlit("1"); }
        "1"
    } else if d == 2 {
        proof { reveal_strlit("2"); }
        "2"
    } else if d == 3 {
        proof { reveal_strlit("3"); }
        "3"
    } else if d == 4 {
        proof { reveal_strlit("4"); }
        "4"
    } else if d == 5 {
        proof { reveal_strlit("5"); }
        "5"
    } else if d == 6 {
        proof { reveal_strlit("6"); }
        "6"
    } else if d == 7 {
        proof { reveal_strlit("7"); }
        "7"
    } else if d == 8 {
        proof { reveal_strlit("8"); }
        "8"
    } else if d == 9 {
        proof { reveal_strlit("9"); }
        "9"
    } else if d == 10 {
        proof { reveal_strlit("a"); }
        "a"
    } else if d == 11 {
        proof { reveal_strlit("b"); }
        "b"
    } else if d == 12 {
        proof { reveal_strlit("c"); }
        "c"
    } else if d == 13 {
        proof { reveal_strlit("d"); }
        "d"
    } else if d == 14 {
        proof { reveal_strlit("e"); }
        "e"
    } else {
        proof { reveal_strlit("f"); }
        "f"
    };
    assert(text@ =~= seq![hex_char(d as nat)]);
    text
}

/// The value of the digit `c`, if it is one.
fn digit_value(c: char) -> (value: Option<u8>)
    ensures
        match value {
            Some(d) => hex_value(c) == Some(d as nat),
            None => hex_value(c) is None,
        },
{
    if c == '0' {
        Some(0)
    } else if c == '1' {
        Some(1)
    } else if c == '2' {
        Some(2)
    } else if c == '3' {
        Some(3)
    } else if c == '4' {
        Some(4)
    } else if c == '5' {
        Some(5)
    } else if c == '6' {
        Some(6)
    } else if c == '7' {
        Some(7)
    } else if c == '8' {
        Some(8)
    } else if c == '9' {
        Some(9)
    } else if c == 'a' {
        Some(10)
    } else if c == 'b' {
        Some(11)
    } else if c == 'c' {
        Some(12)
    } else if c == 'd' {
        Some(13)
    } else if c == 'e' {
        Some(14)
    } else if c == 'f' {
        Some(15)
    } else {
        None
    }
}

/// Appends to `out` the numeral of `value` in exactly `width` digits.
pub fn push_hex(out: &mut String, value: u128, width: usize)
    ensures
        final(out)@ == old(out)@ + hex_digits(value as nat, width as nat),
    decreases width,
{
    if width > 0 {
        push_hex(out, value / 16, width - 1);
        let low: u8 = (value % 16) as u8;
        out.append(digit_text(low));
        assert(out@ =~= old(out)@ + hex_digits(value as nat, width as nat));
    } else {
        assert(out@ =~= old(out)@ + hex_digits(value as nat, width as nat));
    }
}

/// Reads the numeral that occupies `width` characters of `text` from
/// position `from` on. `None` where one of them is no lower-case
/// hexadecimal digit.
pub fn parse_hex(text: &str, from: usize, width: usize) -> (number: Option<u128>)
    requires
        from + width <= text@.len(),
        from + width <= usize::MAX,
        width <= 32,
    ensures
        match number {
            Some(n) => hex_number(text@.subrange(from as int, from + width)) == Some(n as nat),
            None => hex_number(text@.subrange(from as int, from + width)) is None,
        },
    decreases width,
{
    if width == 0 {
        return Some(0);
    }
    let ghost whole = text@.subrange(from as int, from + width);
    assert(whole.drop_last() =~= text@.subrange(from as int, from + width - 1));
    assert(whole.last() == text@[from + width - 1]);
    match parse_hex(text, from, width - 1) {
        None => None,
        Some(high) => {
            match digit_value(text.get_char(from + width - 1)) {
                None => None,
                Some(low) => {
                    proof {
                        lemma_digits_of_number(whole.drop_last());
                        lemma_pow16_monotonic((width - 1) as nat, 31);
                        lemma_pow16_widths();
                        assert(pow16(32) == 16 * pow16(31));
                    }
                    Some(high * 16 + low as u128)
                },
            }
        },
    }
}

} // verus!
