//! Hexadecimal numbers as text.

use vstd::prelude::*;

verus! {

/// The lower case hexadecimal digit that stands for a number below sixteen.
pub open spec fn hex_char(d: nat) -> char {
    if d < 10 {
        ('0' as u32 + d) as u8 as char
    } else {
        ('a' as u32 + d - 10) as u8 as char
    }
}

/// The last `width` hexadecimal digits of a number.
pub open spec fn hex_of(n: nat, width: nat) -> Seq<char>
    decreases width,
{
    if width == 0 {
        Seq::empty()
    } else {
        hex_of(n / 16, (width - 1) as nat).push(hex_char(n % 16))
    }
}

/// Appends the last `width` hexadecimal digits of `n` to `s`.
pub fn append_hex(s: &mut String, n: u64, width: u8)
    ensures
        final(s)@ == old(s)@ + hex_of(n as nat, width as nat),
    decreases width,
{
    if width > 0 {
        append_hex(s, n / 16, width - 1);
        let d: u8 = (n % 16) as u8;
        let c: char = if d < 10 {
            (48u8 + d) as char
        } else {
            (87u8 + d) as char
        };
        assert(c == hex_char((n % 16) as nat));
        s.push(c);
    }
    assert(s@ =~= old(s)@ + hex_of(n as nat, width as nat));
}

/// The number that a hexadecimal digit stands for.
pub open spec fn hex_value(c: char) -> Option<nat> {
    if '0' <= c <= '9' {
        Some((c as u32 - '0' as u32) as nat)
    } else if 'a' <= c <= 'f' {
        Some((c as u32 - 'a' as u32 + 10) as nat)
    } else if 'A' <= c <= 'F' {
        Some((c as u32 - 'A' as u32 + 10) as nat)
    } else {
        None
    }
}

/// The number that hexadecimal digits stand for.
pub open spec fn hex_number(s: Seq<char>) -> Option<nat>
    decreases s.len(),
{
    if s.len() == 0 {
        Some(0)
    } else {
        match (hex_number(s.drop_last()), hex_value(s.last())) {
            (Some(n), Some(d)) => Some(16 * n + d),
            _ => None,
        }
    }
}

/// The number has `width` hexadecimal digits at most.
pub open spec fn hex_fits(n: nat, width: nat) -> bool
    decreases width,
{
    if width == 0 {
        n == 0
    } else {
        hex_fits(n / 16, (width - 1) as nat)
    }
}

/// Reading the hexadecimal digits of a number gives it back, where they are enough for it.
pub proof fn hex_inverts_write(n: nat, width: nat)
    requires
        hex_fits(n, width),
    ensures
        hex_number(hex_of(n, width)) == Some(n),
    decreases width,
{
    if width > 0 {
        hex_inverts_write(n / 16, (width - 1) as nat);
        let digits = hex_of(n, width);
        assert(digits.drop_last() =~= hex_of(n / 16, (width - 1) as nat));
        assert(digits.last() == hex_char(n % 16));
        assert(hex_value(hex_char(n % 16)) == Some(n % 16));
    }
}

/// The digits are as many as asked for.
pub proof fn lemma_hex_length(n: nat, width: nat)
    ensures
        hex_of(n, width).len() == width,
    decreases width,
{
    if width > 0 {
        lemma_hex_length(n / 16, (width - 1) as nat);
    }
}

/// Different digits stand for different numbers.
pub proof fn lemma_hex_char_injective(a: nat, b: nat)
    requires
        a < 16,
        b < 16,
        hex_char(a) == hex_char(b),
    ensures
        a == b,
{
}

/// A digit stands for the numbers up to nine, and a small letter from `a` on for those from ten on.
pub proof fn letters_follow_digits(d: nat)
    requires
        d < 16,
    ensures
        d < 10 ==> hex_char(d) as u32 == 48 + d,
        d >= 10 ==> hex_char(d) as u32 == 97 + (d - 10),
        hex_value(hex_char(d)) == Some(d),
        d >= 10 ==> hex_value(((65 + (d - 10)) as u8) as char) == Some(d),
{
}

/// What stands for no digit is none, and nothing that holds it is a number.
pub proof fn other_characters_are_no_digits(s: Seq<char>, c: char)
    ensures
        hex_value(c) is Some <==> '0' <= c <= '9' || 'a' <= c <= 'f' || 'A' <= c <= 'F',
        hex_value(c) matches Some(d) ==> d < 16,
        hex_number(s.push(c)) is Some <==> hex_number(s) is Some && hex_value(c) is Some,
        hex_number(s.push(c)) matches Some(n) ==> n == 16 * hex_number(s)->0 + hex_value(c)->0,
        hex_number(Seq::empty()) == Some(0nat),
{
    assert(s.push(c).drop_last() =~= s);
}

/// The last digit is what is left of a number by sixteen, and the others are those of its sixteenth.
pub proof fn last_hex_digit_is_what_is_left(n: nat, width: nat)
    requires
        width > 0,
    ensures
        hex_of(n, width).last() == hex_char(n % 16),
        hex_of(n, width).drop_last() == hex_of(n / 16, (width - 1) as nat),
        hex_of(n, width).len() == width,
{
    lemma_hex_length(n, width);
    assert(hex_of(n, width).drop_last() =~= hex_of(n / 16, (width - 1) as nat));
}

} // verus!
