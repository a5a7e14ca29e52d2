//! Unsigned numbers in decimal: reading them from an argument, and writing them out.

use vstd::prelude::*;
use vstd::string::{StrSliceExecFns, StringExecFns};

verus! {

/// Whether `c` is one of the digits `0` to `9`.
pub open spec fn is_digit(c: char) -> bool {
    '0' <= c <= '9'
}

/// Whether every character of `text` is a digit.
pub open spec fn all_digits(text: Seq<char>) -> bool {
    forall|i: int| 0 <= i < text.len() ==> is_digit(#[trigger] text[i])
}

/// The number that a sequence of digits denotes.
pub open spec fn digits_value(digits: Seq<char>) -> nat
    decreases digits.len(),
{
    if digits.len() == 0 {
        0
    } else {
        digits_value(digits.drop_last()) * 10 + (digits.last() as int - '0' as int) as nat
    }
}

/// `text` without the plus sign that it may begin with.
pub open spec fn without_plus(text: Seq<char>) -> Seq<char> {
    if text.len() > 0 && text[0] == '+' {
        text.skip(1)
    } else {
        text
    }
}

/// The number that `text` denotes: at least one digit, nothing but digits, and at
/// most one plus sign before them.
pub open spec fn unsigned_value(text: Seq<char>) -> Option<nat> {
    let digits = without_plus(text);
    if digits.len() > 0 && all_digits(digits) {
        Some(digits_value(digits))
    } else {
        None
    }
}

/// The number that `text` denotes, where it is no greater than `max`.
pub open spec fn bounded_value(text: Seq<char>, max: nat) -> Option<nat> {
    match unsigned_value(text) {
        Some(value) => if value <= max {
            Some(value)
        } else {
            None
        },
        None => None,
    }
}

/// The digit that denotes `value`, which is less than ten.
pub open spec fn digit_char(value: nat) -> char {
    ('0' as int + value) as char
}

/// The decimal digits of `value`, without leading zeros.
pub open spec fn decimal_digits(value: nat) -> Seq<char>
    decreases value,
{
    if value < 10 {
        seq![digit_char(value)]
    } else {
        decimal_digits(value / 10).push(digit_char(value % 10))
    }
}

/// A longer run of digits never denotes a smaller number.
proof fn lemma_prefix_value(digits: Seq<char>, n: int)
    requires
        0 <= n <= digits.len(),
    ensures
        digits_value(digits.take(n)) <= digits_value(digits),
    decreases digits.len() - n,
{
    if n == digits.len() {
        assert(digits.take(n) =~= digits);
    } else {
        lemma_prefix_value(digits, n + 1);
        assert(digits.take(n + 1).drop_last() =~= digits.take(n));
    }
}

/// Reads an unsigned number that is at most `max`, the way the standard library
/// reads one: decimal digits, with an optional plus sign before them.
pub fn parse_unsigned(text: &str, max: u32) -> (number: Option<u32>)
    ensures
        match number {
            Some(value) => bounded_value(text@, max as nat) == Some(value as nat),
            None => bounded_value(text@, max as nat) is None,
        },
{
    let length: usize = text.unicode_len();
    let start: usize = if length > 0 && text.get_char(0) == '+' {
        1
    } else {
        0
    };
    let ghost digits = without_plus(text@);
    if start == length {
        return None;
    }
    let mut at: usize = start;
    let mut value: u64 = 0;
    while at < length
        invariant
            start <= at <= length,
            length == text@.len(),
            digits == without_plus(text@),
            digits == text@.skip(start as int),
            digits.len() > 0,
            all_digits(digits.take(at - start)),
            value == digits_value(digits.take(at - start)),
            value <= max,
        decreases length - at,
    {
        let c: char = text.get_char(at);
        let ghost n = at - start;
        assert(digits[n] == c);
        if !('0' <= c && c <= '9') {
            assert(!is_digit(digits[n]));
            return None;
        }
        value = value * 10 + (c as u64 - '0' as u64);
        at = at + 1;
        proof {
            assert(digits.take(n + 1).drop_last() =~= digits.take(n));
            assert(all_digits(digits.take(n + 1))) by {
                assert forall|i: int| 0 <= i < n + 1 implies is_digit(
                    #[trigger] digits.take(n + 1)[i],
                ) by {
                    if i < n {
                        assert(digits.take(n)[i] == digits[i]);
                    }
                }
            }
            lemma_prefix_value(digits, n + 1);
        }
        if value > max as u64 {
            return None;
        }
    }
    assert(digits.take(length - start) =~= digits);
    Some(value as u32)
}

/// The one-character text that holds a digit.
fn digit_text(value: u8) -> (digit: &'static str)
    requires
        value < 10,
    ensures
        digit@ == seq![digit_char(value as nat)],
{
    proof {
        reveal_strlit("0");
        reveal_strlit("1");
        reveal_strlit("2");
        reveal_strlit("3");
        reveal_strlit("4");
        reveal_strlit("5");
        reveal_strlit("6");
        reveal_strlit("7");
        reveal_strlit("8");
        reveal_strlit("9");
    }
    match value {
        0 => "0",
        1 => "1",
        2 => "2",
        3 => "3",
        4 => "4",
        5 => "5",
        6 => "6",
        7 => "7",
        8 => "8",
        _ => "9",
    }
}

/// Writes a number out in decimal.
pub fn decimal(value: u128) -> (digits: String)
    ensures
        digits@ == decimal_digits(value as nat),
    decreases value,
{
    if value < 10 {
        digit_text(value as u8).to_string()
    } else {
        let mut digits = decimal(value / 10);
        digits.append(digit_text((value % 10) as u8));
        assert(digits@ =~= decimal_digits(value as nat));
        digits
    }
}

/// A number that was written out reads back as itself.
pub proof fn law_decimal_reads_back(value: nat)
    ensures
        unsigned_value(decimal_digits(value)) == Some(value),
        decimal_digits(value).len() > 0,
        all_digits(decimal_digits(value)),
    decreases value,
{
    let digits = decimal_digits(value);
    if value >= 10 {
        law_decimal_reads_back(value / 10);
        assert(digits.drop_last() =~= decimal_digits(value / 10));
        assert(without_plus(decimal_digits(value / 10)) == decimal_digits(value / 10)) by {
            assert(is_digit(decimal_digits(value / 10)[0]));
        }
        assert forall|i: int| 0 <= i < digits.len() implies is_digit(#[trigger] digits[i]) by {
            if i < digits.len() - 1 {
                assert(is_digit(decimal_digits(value / 10)[i]));
            }
        }
    } else {
        assert(digits.drop_last() =~= Seq::empty());
        assert(digits_value(digits.drop_last()) == 0);
    }
    assert(is_digit(digits[0]));
    assert(without_plus(digits) == digits);
    assert(digits.last() as int - '0' as int == value % 10);
    assert(digits_value(digits) == value);
}

/// Two numbers are written alike only if they are equal.
pub proof fn law_decimal_is_unambiguous(a: nat, b: nat)
    requires
        decimal_digits(a) == decimal_digits(b),
    ensures
        a == b,
{
    law_decimal_reads_back(a);
    law_decimal_reads_back(b);
}

/// A digit by itself denotes its number, and one more digit behind others makes ten times
/// their number and its own.
pub proof fn law_digits_denote_a_number(digits: Seq<char>, c: char)
    requires
        forall|i: int| 0 <= i < digits.len() ==> '0' <= #[trigger] digits[i] <= '9',
        '0' <= c <= '9',
    ensures
        unsigned_value(seq![c]) matches Some(number) && number == c as int - '0' as int,
        digits.len() > 0 ==> (unsigned_value(digits) matches Some(number) && unsigned_value(
            digits.push(c),
        ) matches Some(more) && more == 10 * number + (c as int - '0' as int)),
{
    assert(seq![c].drop_last() =~= Seq::<char>::empty());
    assert(digits_value(seq![c]) == c as int - '0' as int) by {
        reveal_with_fuel(digits_value, 2);
    }
    assert(digits.push(c).drop_last() =~= digits);
    if digits.len() > 0 {
        assert('0' <= digits[0] <= '9');
        assert(digits.push(c)[0] == digits[0]);
        assert(all_digits(digits));
        assert forall|i: int| 0 <= i < digits.push(c).len() implies is_digit(
            #[trigger] digits.push(c)[i],
        ) by {
            if i < digits.len() {
                assert('0' <= digits[i] <= '9');
            }
        }
    }
}

/// One plus sign in front of digits makes no difference.
pub proof fn law_plus_sign_makes_no_difference(digits: Seq<char>)
    requires
        digits.len() > 0,
        digits[0] != '+',
    ensures
        unsigned_value(seq!['+'] + digits) == unsigned_value(digits),
{
    assert((seq!['+'] + digits).skip(1) =~= digits);
}

/// Nothing else is a number: not an empty text, not a sign alone, and none that holds
/// another character.
pub proof fn law_what_is_no_number(text: Seq<char>, at: int)
    requires
        0 <= at < text.len(),
        !('0' <= text[at] <= '9'),
        at > 0 || text[0] != '+',
    ensures
        unsigned_value(text) is None,
        unsigned_value(Seq::<char>::empty()) is None,
        unsigned_value(seq!['+']) is None,
{
    let digits = without_plus(text);
    if text[0] == '+' {
        assert(digits[at - 1] == text[at]);
        assert(!is_digit(digits[at - 1]));
    } else {
        assert(!is_digit(digits[at]));
    }
    assert(seq!['+'].skip(1).len() == 0);
}

/// A bound lets through what is no greater, and nothing else.
pub proof fn law_bound_lets_through(text: Seq<char>, max: nat)
    ensures
        match (unsigned_value(text), bounded_value(text, max)) {
            (Some(value), Some(passed)) => passed == value && value <= max,
            (Some(value), None) => value > max,
            (None, passed) => passed is None,
        },
{
}

/// A number is written with no zero in front, but for zero itself.
pub proof fn law_decimal_begins_with_no_zero(value: nat)
    ensures
        decimal_digits(value).len() > 0,
        value > 0 ==> decimal_digits(value)[0] != '0',
        decimal_digits(0) == seq!['0'],
        forall|i: int|
            0 <= i < decimal_digits(value).len() ==> '0' <= #[trigger] decimal_digits(value)[i]
                <= '9',
    decreases value,
{
    law_decimal_reads_back(value);
    if value >= 10 {
        law_decimal_begins_with_no_zero(value / 10);
        assert(decimal_digits(value)[0] == decimal_digits(value / 10)[0]);
    }
    assert forall|i: int| 0 <= i < decimal_digits(value).len() implies '0' <= #[trigger]
        decimal_digits(value)[i] <= '9' by {
        assert(is_digit(decimal_digits(value)[i]));
    }
}

} // verus!
