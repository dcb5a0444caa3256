//! Decimal numbers as text.
use vstd::prelude::*;

use crate::text::chars_of;

verus! {

/// The character that writes the digit `d`.
pub open spec fn digit_char(d: nat) -> char
    recommends
        d < 10,
{
    ('0' as nat + d) as char
}

/// Whether `c` is one of the ten ASCII digits.
pub open spec fn is_digit(c: char) -> bool {
    '0' as nat <= c as nat <= '9' as nat
}

/// The number that the ASCII digit `c` writes.
pub open spec fn digit_value(c: char) -> nat
    recommends
        is_digit(c),
{
    (c as nat - '0' as nat) as nat
}

/// `n` in decimal, without leading zeros.
pub open spec fn decimal(n: nat) -> Seq<char>
    decreases n,
{
    if n < 10 {
        seq![digit_char(n)]
    } else {
        decimal(n / 10).push(digit_char(n % 10))
    }
}

/// `n` in decimal, with a leading zero when it has one digit only.
pub open spec fn two_digits(n: nat) -> Seq<char> {
    if n < 10 {
        seq!['0'] + decimal(n)
    } else {
        decimal(n)
    }
}

/// The number that a sequence of ASCII digits writes.
pub open spec fn digits_value(s: Seq<char>) -> nat
    decreases s.len(),
{
    if s.len() == 0 {
        0
    } else {
        digits_value(s.drop_last()) * 10 + digit_value(s.last())
    }
}

/// `s` without a leading plus sign.
pub open spec fn without_plus(s: Seq<char>) -> Seq<char> {
    if s.len() > 0 && s[0] == '+' {
        s.skip(1)
    } else {
        s
    }
}

/// Whether `s` consists of ASCII digits, and of at least one.
pub open spec fn all_digits(s: Seq<char>) -> bool {
    s.len() > 0 && forall|i: int| 0 <= i < s.len() ==> is_digit(#[trigger] s[i])
}

/// The number that `s` writes: an optional plus sign, then digits only, with
/// a value that fits in 32 bits.
pub open spec fn number_of(s: Seq<char>) -> Option<u32> {
    let digits = without_plus(s);
    if all_digits(digits) && digits_value(digits) <= u32::MAX {
        Some(digits_value(digits) as u32)
    } else {
        None
    }
}

/// Reading back what `decimal` writes.
pub proof fn lemma_decimal_value(n: nat)
    ensures
        all_digits(decimal(n)),
        digits_value(decimal(n)) == n,
    decreases n,
{
    if n < 10 {
        reveal_with_fuel(digits_value, 2);
        assert(decimal(n).drop_last() =~= Seq::<char>::empty());
    } else {
        lemma_decimal_value(n / 10);
        assert(decimal(n).drop_last() =~= decimal(n / 10));
    }
}

/// Reading back what `two_digits` writes.
pub proof fn lemma_two_digits_value(n: nat)
    ensures
        all_digits(two_digits(n)),
        digits_value(two_digits(n)) == n,
        n < 100 ==> two_digits(n).len() == 2,
        without_plus(two_digits(n)) == two_digits(n),
{
    lemma_decimal_value(n);
    if n < 10 {
        let s = two_digits(n);
        assert(s.drop_last() =~= seq!['0']);
        assert(seq!['0'].drop_last() =~= Seq::<char>::empty());
        assert(digits_value(seq!['0']) == 0) by {
            reveal_with_fuel(digits_value, 2);
        }
        assert(s.last() == decimal(n)[0]);
    } else if n < 100 {
        assert(decimal(n / 10) =~= seq![digit_char(n / 10)]);
    }
    assert(is_digit(two_digits(n)[0]));
}

/// A longer sequence of digits writes at least as large a number.
proof fn lemma_digits_grow(s: Seq<char>, n: int)
    requires
        0 <= n <= s.len(),
    ensures
        digits_value(s.take(n)) <= digits_value(s),
    decreases s.len(),
{
    if n == s.len() {
        assert(s.take(n) =~= s);
    } else {
        lemma_digits_grow(s.drop_last(), n);
        assert(s.drop_last().take(n) =~= s.take(n));
    }
}

/// The character that writes the digit `d`.
fn digit(d: u64) -> (c: char)
    requires
        d < 10,
    ensures
        c == digit_char(d as nat),
{
    match d {
        0 => '0',
        1 => '1',
        2 => '2',
        3 => '3',
        4 => '4',
        5 => '5',
        6 => '6',
        7 => '7',
        8 => '8',
        _ => '9',
    }
}

/// `n` in decimal.
pub fn decimal_string(n: u64) -> (s: String)
    ensures
        s@ == decimal(n as nat),
    decreases n,
{
    if n < 10 {
        let mut s = String::new();
        s.push(digit(n));
        assert(s@ =~= decimal(n as nat));
        s
    } else {
        let mut s = decimal_string(n / 10);
        s.push(digit(n % 10));
        s
    }
}

/// `n` in decimal, padded with a zero to two digits.
pub fn two_digit_string(n: u64) -> (s: String)
    ensures
        s@ == two_digits(n as nat),
{
    if n < 10 {
        let mut s = String::new();
        s.push('0');
        s.push_str(decimal_string(n).as_str());
        assert(s@ =~= two_digits(n as nat));
        s
    } else {
        decimal_string(n)
    }
}

/// The number that `s` writes, as `str::parse` reads it.
#[verifier::loop_isolation(false)]
pub fn parse_u32(s: &str) -> (res: Option<u32>)
    ensures
        res == number_of(s@),
{
    let chars = chars_of(s);
    let start: usize = if chars.len() > 0 && chars[0] == '+' {
        1
    } else {
        0
    };
    let ghost digits = without_plus(s@);
    assert(digits =~= chars@.skip(start as int));
    if start == chars.len() {
        return None;
    }
    let mut value: u32 = 0;
    let mut i = start;
    while i < chars.len()
        invariant
            start <= i <= chars@.len(),
            value == digits_value(digits.take(i - start)),
            forall|j: int| 0 <= j < i - start ==> is_digit(#[trigger] digits[j]),
        decreases chars@.len() - i,
    {
        let c = chars[i];
        let ghost at = i - start;
        assert(digits[at] == c);
        assert(digits.take(at + 1).drop_last() =~= digits.take(at));
        let code: u32 = c as u32;
        proof {
            vstd::utf8::char_u32_cast(c, code);
        }
        if code < 48 || code > 57 {
            assert(!is_digit(digits[at]));
            return None;
        }
        let d: u32 = code - 48;
        assert(digits_value(digits.take(at + 1)) == value * 10 + d);
        if value > (u32::MAX - d) / 10 {
            proof {
                lemma_digits_grow(digits, at + 1);
            }
            return None;
        }
        value = value * 10 + d;
        i += 1;
    }
    assert(digits.take(i - start) =~= digits);
    Some(value)
}

/// A number in decimal is read as itself, also with zeros or one plus sign
/// before it, as long as it fits in 32 bits; a larger one is not read at all.
pub proof fn law_numbers_are_read(n: nat)
    ensures
        n <= u32::MAX ==> number_of(decimal(n)) == Some(n as u32),
        n > u32::MAX ==> number_of(decimal(n)) is None,
        n <= u32::MAX ==> number_of(seq!['+'] + decimal(n)) == Some(n as u32),
{
    lemma_decimal_value(n);
    let digits = decimal(n);
    assert(digits[0] != '+') by {
        assert(is_digit(digits[0]));
    }
    assert((seq!['+'] + digits).skip(1) =~= digits);
}

/// Leading zeros do not change a number.
pub proof fn law_leading_zeros_do_not_count(digits: Seq<char>)
    requires
        all_digits(digits),
    ensures
        all_digits(seq!['0'] + digits),
        digits_value(seq!['0'] + digits) == digits_value(digits),
        number_of(seq!['0'] + digits) == number_of(digits),
{
    lemma_leading_zero(digits);
    let longer = seq!['0'] + digits;
    assert forall|i: int| 0 <= i < longer.len() implies is_digit(#[trigger] longer[i]) by {
        if i > 0 {
            assert(longer[i] == digits[i - 1]);
        }
    }
    assert(is_digit(digits[0]));
    assert(digits[0] != '+');
}

proof fn lemma_leading_zero(digits: Seq<char>)
    ensures
        digits_value(seq!['0'] + digits) == digits_value(digits),
    decreases digits.len(),
{
    let longer = seq!['0'] + digits;
    if digits.len() == 0 {
        assert(longer.drop_last() =~= Seq::<char>::empty());
        reveal_with_fuel(digits_value, 2);
    } else {
        lemma_leading_zero(digits.drop_last());
        assert(longer.drop_last() =~= seq!['0'] + digits.drop_last());
        assert(longer.last() == digits.last());
    }
}

/// Only digits, after one plus sign at most, make a number: nothing, a sign
/// alone, or any other character among them does not.
pub proof fn law_only_digits_are_numbers(before: Seq<char>, c: char, after: Seq<char>)
    requires
        !(48 <= c as nat <= 57),
        before.len() == 0 ==> c != '+',
    ensures
        number_of(Seq::empty()) is None,
        number_of(seq!['+']) is None,
        number_of(before + seq![c] + after) is None,
{
    assert(seq!['+'].skip(1) =~= Seq::<char>::empty());
    let s = before + seq![c] + after;
    let digits = without_plus(s);
    let n = before.len() as int;
    assert(s[n] == c);
    if s[0] == '+' {
        assert(digits[n - 1] == c);
    } else {
        assert(digits[n] == c);
    }
    assert(!is_digit(c));
}

/// Numbers below a hundred are written in two digits when two are asked for,
/// and either way they are read back.
pub proof fn law_two_digits(n: nat)
    requires
        n < 100,
    ensures
        two_digits(n).len() == 2,
        number_of(two_digits(n)) == Some(n as u32),
        n >= 10 ==> two_digits(n) == decimal(n),
        n < 10 ==> two_digits(n) == seq!['0'] + decimal(n),
{
    lemma_two_digits_value(n);
}

/// However large, a number is written in digits alone, which have its value,
/// without zeros before them.
pub proof fn law_numbers_are_written_in_digits(n: nat)
    ensures
        all_digits(decimal(n)),
        digits_value(decimal(n)) == n,
        n > 0 ==> decimal(n)[0] != '0',
        n == 0 ==> decimal(n) == seq!['0'],
    decreases n,
{
    lemma_decimal_value(n);
    if n >= 10 {
        law_numbers_are_written_in_digits(n / 10);
        assert(decimal(n)[0] == decimal(n / 10)[0]);
    }
}

} // verus!
