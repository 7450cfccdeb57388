//! Text forms of values: zero-padded decimals and hexadecimal bytes.

use vstd::prelude::*;

verus! {

/// `String::push` appends one character.
pub assume_specification[ String::push ](s: &mut String, ch: char)
    ensures
        final(s)@ == old(s)@.push(ch),
;

/// The character of a decimal digit.
pub open spec fn decimal_digit(d: nat) -> char {
    ((d % 10) + 48) as char
}

/// A hexadecimal digit, upper or lower case.
pub open spec fn hex_digit(d: nat, upper: bool) -> char {
    if d % 16 < 10 {
        ((d % 16) + 48) as char
    } else if upper {
        ((d % 16) - 10 + 65) as char
    } else {
        ((d % 16) - 10 + 97) as char
    }
}

/// A number in decimal with at least two digits (as `{:02}` writes it).
pub open spec fn decimal_two_digits(v: u8) -> Seq<char> {
    if v >= 100 {
        seq![decimal_digit(v as nat / 100), decimal_digit(v as nat / 10), decimal_digit(v as nat)]
    } else {
        seq![decimal_digit(v as nat / 10), decimal_digit(v as nat)]
    }
}

/// A number in decimal, without leading zeros (as `{}` writes it).
pub open spec fn decimal(n: nat) -> Seq<char>
    decreases n,
{
    if n < 10 {
        seq![decimal_digit(n)]
    } else {
        decimal(n / 10) + seq![decimal_digit(n % 10)]
    }
}

/// Appends `n` in decimal.
pub fn push_decimal(s: &mut String, n: u32)
    ensures
        final(s)@ == old(s)@ + decimal(n as nat),
    decreases n,
{
    if n >= 10 {
        push_decimal(s, n / 10);
    }
    s.push(digit_char((n % 10) as u8));
    assert(s@ =~= old(s)@ + decimal(n as nat));
}

/// A byte as two hexadecimal digits (as `{:02X}` or `{:02x}` writes it).
pub open spec fn hex_byte(b: u8, upper: bool) -> Seq<char> {
    seq![hex_digit(b as nat / 16, upper), hex_digit(b as nat, upper)]
}

fn digit_char(d: u8) -> (c: char)
    requires
        d < 10,
    ensures
        c == decimal_digit(d as nat),
{
    (d + 48) as char
}

fn hex_char(d: u8, upper: bool) -> (c: char)
    requires
        d < 16,
    ensures
        c == hex_digit(d as nat, upper),
{
    if d < 10 {
        (d + 48) as char
    } else if upper {
        (d - 10 + 65) as char
    } else {
        (d - 10 + 97) as char
    }
}

/// Appends `v` in decimal, padded to two digits.
pub fn push_decimal_two_digits(s: &mut String, v: u8)
    ensures
        final(s)@ == old(s)@ + decimal_two_digits(v),
{
    if v >= 100 {
        s.push(digit_char(v / 100));
    }
    s.push(digit_char((v / 10) % 10));
    s.push(digit_char(v % 10));
    assert(s@ =~= old(s)@ + decimal_two_digits(v));
}

/// Appends `b` as two hexadecimal digits.
pub fn push_hex_byte(s: &mut String, b: u8, upper: bool)
    ensures
        final(s)@ == old(s)@ + hex_byte(b, upper),
{
    s.push(hex_char(b / 16, upper));
    s.push(hex_char(b % 16, upper));
    assert(s@ =~= old(s)@ + hex_byte(b, upper));
}

/// Bytes as text, each as a space and two upper-case hexadecimal digits.
pub open spec fn spaced_hex(bytes: Seq<u8>) -> Seq<char>
    decreases bytes.len(),
{
    if bytes.len() == 0 {
        Seq::empty()
    } else {
        spaced_hex(bytes.drop_last()) + seq![' '] + hex_byte(bytes.last(), true)
    }
}

/// Bytes as text, each as two lower-case hexadecimal digits and two spaces.
pub open spec fn padded_hex(bytes: Seq<u8>) -> Seq<char>
    decreases bytes.len(),
{
    if bytes.len() == 0 {
        Seq::empty()
    } else {
        padded_hex(bytes.drop_last()) + hex_byte(bytes.last(), false) + seq![' ', ' ']
    }
}

/// Appends `spaced_hex(bytes)`.
pub fn push_spaced_hex(s: &mut String, bytes: &[u8])
    ensures
        final(s)@ == old(s)@ + spaced_hex(bytes@),
{
    let mut i: usize = 0;
    while i < bytes.len()
        invariant
            i <= bytes@.len(),
            s@ == old(s)@ + spaced_hex(bytes@.take(i as int)),
        decreases bytes@.len() - i,
    {
        s.push(' ');
        push_hex_byte(s, bytes[i], true);
        assert(bytes@.take(i + 1).drop_last() =~= bytes@.take(i as int));
        i = i + 1;
    }
    assert(bytes@.take(bytes@.len() as int) =~= bytes@);
}

/// Appends `padded_hex(bytes)`.
pub fn push_padded_hex(s: &mut String, bytes: &[u8])
    ensures
        final(s)@ == old(s)@ + padded_hex(bytes@),
{
    let mut i: usize = 0;
    while i < bytes.len()
        invariant
            i <= bytes@.len(),
            s@ == old(s)@ + padded_hex(bytes@.take(i as int)),
        decreases bytes@.len() - i,
    {
        push_hex_byte(s, bytes[i], false);
        s.push(' ');
        s.push(' ');
        assert(bytes@.take(i + 1).drop_last() =~= bytes@.take(i as int));
        i = i + 1;
    }
    assert(bytes@.take(bytes@.len() as int) =~= bytes@);
}

} // verus!
