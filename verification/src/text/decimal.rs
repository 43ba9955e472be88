//! Decimal numbers as text.

use super::chars::chars;
use vstd::prelude::*;

verus! {

/// `c` is a decimal digit.
pub open spec fn is_digit(c: char) -> bool {
    '0' <= c <= '9'
}

/// The number that a digit stands for.
pub open spec fn digit_value(c: char) -> nat {
    (c as u32 - '0' as u32) as nat
}

/// Every character of `s` is a digit.
pub open spec fn all_digits(s: Seq<char>) -> bool {
    forall|i: int| 0 <= i < s.len() ==> is_digit(#[trigger] s[i])
}

/// The number that a sequence of digits stands for.
pub open spec fn number_of(s: Seq<char>) -> nat
    decreases s.len(),
{
    if s.len() == 0 {
        0
    } else {
        10 * number_of(s.drop_last()) + digit_value(s.last())
    }
}

/// What is left of `s` without one leading plus sign.
pub open spec fn unsigned_part(s: Seq<char>) -> Seq<char> {
    if s.len() > 0 && s[0] == '+' {
        s.skip(1)
    } else {
        s
    }
}

/// The number that `s` reads as: digits, at least one, after an optional plus
/// sign, and a value of `max` at most.
pub open spec fn read_number(s: Seq<char>, max: nat) -> Option<nat> {
    let digits = unsigned_part(s);
    if digits.len() > 0 && all_digits(digits) && number_of(digits) <= max {
        Some(number_of(digits))
    } else {
        None
    }
}

/// The digit that stands for a number below ten.
pub open spec fn digit_char(d: nat) -> char {
    ('0' as u32 + d) as u8 as char
}

/// The decimal digits of a number, without leading zeros.
pub open spec fn digits_of(n: nat) -> Seq<char>
    decreases n,
{
    if n < 10 {
        seq![digit_char(n)]
    } else {
        digits_of(n / 10).push(digit_char(n % 10))
    }
}

/// Why a text does not read as a number.
#[derive(Clone, Copy, Debug, PartialEq, Eq, Structural)]
pub enum NumberFault {
    Empty,
    InvalidDigit,
    TooLarge,
}

impl NumberFault {
    /// What the fault is called.
    pub open spec fn spec_message(self) -> Seq<char> {
        match self {
            NumberFault::Empty => "cannot parse integer from empty string"@,
            NumberFault::InvalidDigit => "invalid digit found in string"@,
            NumberFault::TooLarge => "number too large to fit in target type"@,
        }
    }

    pub fn message(&self) -> (r: &'static str)
        ensures
            r@ == self.spec_message(),
            self is Empty ==> r@ == "cannot parse integer from empty string"@,
            self is InvalidDigit ==> r@ == "invalid digit found in string"@,
            self is TooLarge ==> r@ == "number too large to fit in target type"@,
    {
        match self {
            NumberFault::Empty => "cannot parse integer from empty string",
            NumberFault::InvalidDigit => "invalid digit found in string",
            NumberFault::TooLarge => "number too large to fit in target type",
        }
    }
}

/// The first fault of what should be digits: the first character that is none, or the first digit
/// with which the number exceeds `max`.
pub open spec fn digits_fault(s: Seq<char>, max: nat) -> Option<NumberFault>
    decreases s.len(),
{
    if s.len() == 0 {
        None
    } else {
        match digits_fault(s.drop_last(), max) {
            Some(fault) => Some(fault),
            None => if !is_digit(s.last()) {
                Some(NumberFault::InvalidDigit)
            } else if number_of(s) > max {
                Some(NumberFault::TooLarge)
            } else {
                None
            },
        }
    }
}

/// Why `s` does not read as a number of `max` at most.
pub open spec fn number_fault(s: Seq<char>, max: nat) -> Option<NumberFault> {
    if s.len() == 0 {
        Some(NumberFault::Empty)
    } else if unsigned_part(s).len() == 0 {
        Some(NumberFault::InvalidDigit)
    } else {
        digits_fault(unsigned_part(s), max)
    }
}

/// A fault of the first digits is one of all.
proof fn lemma_fault_stays(s: Seq<char>, max: nat, i: int)
    requires
        0 <= i <= s.len(),
        digits_fault(s.take(i), max) is Some,
    ensures
        digits_fault(s, max) == digits_fault(s.take(i), max),
    decreases s.len() - i,
{
    if i < s.len() {
        assert(s.take(i + 1).drop_last() =~= s.take(i));
        lemma_fault_stays(s, max, i + 1);
    } else {
        assert(s.take(i) =~= s);
    }
}

/// Digits have no fault where they are digits that stand for `max` at most.
proof fn lemma_digits_fault(s: Seq<char>, max: nat)
    ensures
        digits_fault(s, max) is None <==> all_digits(s) && number_of(s) <= max || s.len() == 0,
    decreases s.len(),
{
    if s.len() > 0 {
        let shorter = s.drop_last();
        lemma_digits_fault(shorter, max);
        if all_digits(s) {
            assert(all_digits(shorter)) by {
                assert forall|i: int| 0 <= i < shorter.len() implies is_digit(
                    #[trigger] shorter[i],
                ) by {
                    assert(is_digit(s[i]));
                }
            }
            assert(is_digit(s[s.len() - 1]));
        } else if all_digits(shorter) && is_digit(s.last()) {
            assert forall|i: int| 0 <= i < s.len() implies is_digit(#[trigger] s[i]) by {
                if i < shorter.len() {
                    assert(is_digit(shorter[i]));
                }
            }
        }
    }
}

/// A text reads as a number, or there is a fault.
pub proof fn fault_or_number(s: Seq<char>, max: nat)
    ensures
        number_fault(s, max) is None <==> read_number(s, max) is Some,
{
    lemma_digits_fault(unsigned_part(s), max);
}

/// The number that `s` reads as, where it is `max` at most, or why it is none.
pub fn parse_number(s: &str, max: u64) -> (r: Result<u64, NumberFault>)
    ensures
        r matches Ok(n) ==> read_number(s@, max as nat) == Some(n as nat),
        r matches Err(fault) ==> read_number(s@, max as nat) is None && number_fault(
            s@,
            max as nat,
        ) == Some(fault),
{
    let v = chars(s);
    proof {
        fault_or_number(s@, max as nat);
    }
    if v.len() == 0 {
        return Err(NumberFault::Empty);
    }
    let start: usize = if v[0] == '+' {
        1
    } else {
        0
    };
    let ghost digits = unsigned_part(v@);
    assert(digits =~= v@.skip(start as int));
    if start >= v.len() {
        return Err(NumberFault::InvalidDigit);
    }
    let mut i: usize = start;
    let mut n: u64 = 0;
    assert(digits.take(0) =~= Seq::<char>::empty());
    while i < v.len()
        invariant
            start <= i <= v@.len(),
            start < v@.len(),
            v@ == s@,
            v@.len() > 0,
            digits == v@.skip(start as int),
            digits == unsigned_part(s@),
            n == number_of(digits.take(i - start)),
            digits_fault(digits.take(i - start), max as nat) is None,
            number_fault(s@, max as nat) is None <==> read_number(s@, max as nat) is Some,
        decreases v.len() - i,
    {
        let c = v[i];
        proof {
            assert(digits.take(i - start + 1).drop_last() =~= digits.take(i - start));
            assert(digits.take(i - start + 1).last() == c);
            if digits_fault(digits.take(i - start + 1), max as nat) is Some {
                lemma_fault_stays(digits, max as nat, i - start + 1);
            }
        }
        if !('0' <= c && c <= '9') {
            return Err(NumberFault::InvalidDigit);
        }
        let d: u64 = (c as u32 - '0' as u32) as u64;
        if d > max || n > (max - d) / 10 {
            return Err(NumberFault::TooLarge);
        }
        n = 10 * n + d;
        i = i + 1;
    }
    assert(digits.take(i - start) =~= digits);
    Ok(n)
}

/// The number that `s` reads as, where it is `max` at most.
pub fn parse(s: &str, max: u64) -> (r: Option<u64>)
    ensures
        r is Some <==> read_number(s@, max as nat) is Some,
        r matches Some(n) ==> read_number(s@, max as nat) == Some(n as nat),
{
    match parse_number(s, max) {
        Ok(n) => Some(n),
        Err(_) => None,
    }
}

/// Appends the decimal digits of `n` to `s`.
pub fn append_number(s: &mut String, n: u64)
    ensures
        final(s)@ == old(s)@ + digits_of(n as nat),
    decreases n,
{
    if n >= 10 {
        append_number(s, n / 10);
    }
    let d: u8 = (n % 10) as u8;
    let c: char = (48u8 + d) as char;
    assert(c == digit_char((n % 10) as nat));
    s.push(c);
    assert(s@ =~= old(s)@ + digits_of(n as nat));
}

/// The decimal digits of `n`.
pub fn digits(n: u64) -> (r: String)
    ensures
        r@ == digits_of(n as nat),
{
    let mut r = String::new();
    append_number(&mut r, n);
    assert(r@ =~= digits_of(n as nat));
    r
}

/// The digits of a number are digits, at least one, and stand for it.
pub proof fn lemma_digits(n: nat)
    ensures
        digits_of(n).len() > 0,
        all_digits(digits_of(n)),
        number_of(digits_of(n)) == n,
    decreases n,
{
    assert(is_digit(digit_char(n % 10)) && digit_value(digit_char(n % 10)) == n % 10);
    if n < 10 {
        assert(digits_of(n).drop_last() =~= Seq::<char>::empty());
        assert(digits_of(n).last() == digit_char(n));
        assert(number_of(digits_of(n)) == 10 * number_of(Seq::<char>::empty()) + n);
    } else {
        lemma_digits(n / 10);
        assert(digits_of(n).drop_last() =~= digits_of(n / 10));
        assert(digits_of(n).last() == digit_char(n % 10));
    }
}

/// Reading what was written gives the number back, whatever limit holds it.
pub proof fn read_inverts_write(n: nat, max: nat)
    requires
        n <= max,
    ensures
        read_number(digits_of(n), max) == Some(n),
{
    lemma_digits(n);
    assert(is_digit(digits_of(n)[0]));
}

/// A digit behind a number counts once, and what stands before it ten times.
pub proof fn digits_count_tenfold(s: Seq<char>, c: char)
    requires
        '0' <= c <= '9',
    ensures
        number_of(Seq::empty()) == 0,
        number_of(s.push(c)) == 10 * number_of(s) + (c as u32 - 48),
{
    assert(s.push(c).drop_last() =~= s);
}

/// The last digit of a number is what is left of it by ten, and the others are those of its tenth. A
/// number below ten has one digit.
pub proof fn last_digit_is_what_is_left(n: nat)
    ensures
        digits_of(n).last() as u32 == 48 + n % 10,
        n < 10 ==> digits_of(n).len() == 1,
        n >= 10 ==> digits_of(n).drop_last() == digits_of(n / 10),
{
    if n >= 10 {
        assert(digits_of(n).drop_last() =~= digits_of(n / 10));
    }
}

/// A text is read exactly when it is digits, with or without a plus sign in front, that stand for no
/// more than what is allowed, and it is read as what they stand for.
pub proof fn digits_are_read(s: Seq<char>, max: nat)
    ensures
        s.len() > 0 && (forall|i: int| 0 <= i < s.len() ==> '0' <= #[trigger] s[i] <= '9')
            && number_of(s) <= max ==> read_number(s, max) == Some(number_of(s)) && read_number(
            seq!['+'] + s,
            max,
        ) == Some(number_of(s)),
        number_of(s) > max && s.len() > 0 && s[0] != '+' ==> read_number(s, max) is None,
        read_number(s, max) is Some ==> s.len() > 0 && (s[0] == '+' || '0' <= s[0] <= '9') && (s[0]
            == '+' ==> s.len() > 1) && forall|i: int|
            1 <= i < s.len() ==> '0' <= #[trigger] s[i] <= '9',
        read_number(s, max) matches Some(n) ==> n <= max && n == number_of(
            if s[0] == '+' {
                s.skip(1)
            } else {
                s
            },
        ),
{
    let signed = seq!['+'] + s;
    assert(signed.skip(1) =~= s);
    if s.len() > 0 && (forall|i: int| 0 <= i < s.len() ==> '0' <= #[trigger] s[i] <= '9') {
        assert('0' <= s[0] <= '9');
        assert(all_digits(s));
        assert(unsigned_part(s) == s);
        assert(unsigned_part(signed) == s);
    }
    if read_number(s, max) is Some {
        let d = unsigned_part(s);
        assert(is_digit(d[0]));
        assert forall|i: int| 1 <= i < s.len() implies '0' <= #[trigger] s[i] <= '9' by {
            if s[0] == '+' {
                assert(d[i - 1] == s[i]);
            } else {
                assert(d[i] == s[i]);
            }
            assert(is_digit(s[i]));
        }
    }
}

/// The fault that is told is the first one: up to it there are only digits that stand for no more
/// than what is allowed.
pub proof fn first_fault_is_told(s: Seq<char>, max: nat)
    ensures
        digits_fault(s, max) == Some(NumberFault::InvalidDigit) ==> exists|i: int|
            0 <= i < s.len() && !('0' <= s[i] <= '9') && digits_fault(#[trigger] s.take(i), max)
                is None,
        digits_fault(s, max) == Some(NumberFault::TooLarge) ==> exists|i: int|
            0 <= i < s.len() && '0' <= s[i] <= '9' && number_of(s.take(i + 1)) > max
                && digits_fault(#[trigger] s.take(i), max) is None,
        digits_fault(s, max) != Some(NumberFault::Empty),
        digits_fault(s, max) is None <==> s.len() == 0 || (all_digits(s) && number_of(s) <= max),
    decreases s.len(),
{
    lemma_digits_fault(s, max);
    if s.len() > 0 {
        let shorter = s.drop_last();
        let n = s.len() - 1;
        first_fault_is_told(shorter, max);
        assert(s.take(n) =~= shorter);
        assert(s.take(n + 1) =~= s);
        match digits_fault(shorter, max) {
            Some(NumberFault::InvalidDigit) => {
                let i = choose|i: int|
                    0 <= i < shorter.len() && !('0' <= shorter[i] <= '9') && digits_fault(
                        #[trigger] shorter.take(i),
                        max,
                    ) is None;
                assert(shorter.take(i) =~= s.take(i));
                assert(s[i] == shorter[i]);
            },
            Some(NumberFault::TooLarge) => {
                let i = choose|i: int|
                    0 <= i < shorter.len() && '0' <= shorter[i] <= '9' && number_of(
                        shorter.take(i + 1),
                    ) > max && digits_fault(#[trigger] shorter.take(i), max) is None;
                assert(shorter.take(i) =~= s.take(i));
                assert(shorter.take(i + 1) =~= s.take(i + 1));
                assert(s[i] == shorter[i]);
            },
            _ => {
                assert(digits_fault(s.take(n), max) is None || digits_fault(shorter, max)
                    == Some(NumberFault::Empty));
            },
        }
    }
}

/// Nothing, and a sign alone, are faults of their own; a sign does not count otherwise.
pub proof fn sign_does_not_count(s: Seq<char>, max: nat)
    ensures
        number_fault(Seq::empty(), max) == Some(NumberFault::Empty),
        number_fault(seq!['+'], max) == Some(NumberFault::InvalidDigit),
        s.len() > 0 ==> number_fault(seq!['+'] + s, max) == digits_fault(s, max),
        s.len() > 0 && s[0] != '+' ==> number_fault(s, max) == digits_fault(s, max),
{
    assert(seq!['+'].skip(1) =~= Seq::<char>::empty());
    assert((seq!['+'] + s).skip(1) =~= s);
}

} // verus!
