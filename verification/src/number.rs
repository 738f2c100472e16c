//! Reading the numbers and flags of a configuration.

use crate::text::chars_of;
use vstd::prelude::*;

verus! {

/// `c` is one of the ten decimal digits.
pub open spec fn is_digit(c: char) -> bool {
    '0' <= c <= '9'
}

/// The value of a decimal digit.
pub open spec fn digit_value(c: char) -> int {
    c as int - '0' as int
}

/// Every character of `text` is a decimal digit.
pub open spec fn all_digits(text: Seq<char>) -> bool {
    forall|i: int| 0 <= i < text.len() ==> is_digit(#[trigger] text[i])
}

/// The number that a run of decimal digits writes.
pub open spec fn digits_value(text: Seq<char>) -> int
    decreases text.len(),
{
    if text.len() == 0 {
        0
    } else {
        digits_value(text.drop_last()) * 10 + digit_value(text.last())
    }
}

/// A text without the one sign that may lead it.
pub open spec fn unsigned_part(text: Seq<char>) -> Seq<char> {
    if text.len() > 0 && (text[0] == '-' || text[0] == '+') {
        text.skip(1)
    } else {
        text
    }
}

/// The number a text writes: a sign or none, then digits, at least one,
/// and nothing else.
pub open spec fn signed_value(text: Seq<char>) -> Option<int> {
    let digits = unsigned_part(text);
    if digits.len() == 0 || !all_digits(digits) {
        None
    } else if text[0] == '-' {
        Some(-digits_value(digits))
    } else {
        Some(digits_value(digits))
    }
}

/// The 32-bit number a text writes, where it writes one that fits.
pub open spec fn i32_of(text: Seq<char>) -> Option<i32> {
    match signed_value(text) {
        Some(value) => if i32::MIN <= value <= i32::MAX {
            Some(value as i32)
        } else {
            None
        },
        None => None,
    }
}

/// The flag a text writes: `true` or `false`, in these letters only.
pub open spec fn bool_of(text: Seq<char>) -> Option<bool> {
    if text == "true"@ {
        Some(true)
    } else if text == "false"@ {
        Some(false)
    } else {
        None
    }
}

/// Digits never write a negative number, and more digits never write a
/// smaller one.
proof fn lemma_digits_grow(text: Seq<char>, k: int)
    requires
        all_digits(text),
        0 <= k <= text.len(),
    ensures
        0 <= digits_value(text.take(k)) <= digits_value(text),
    decreases text.len() - k,
{
    lemma_digits_not_negative(text.take(k));
    if k == text.len() {
        assert(text.take(k) =~= text);
    } else {
        lemma_digits_grow(text, k + 1);
        assert(text.take(k + 1).drop_last() =~= text.take(k));
        assert(is_digit(text[k]));
        assert(text.take(k + 1).last() == text[k]);
    }
}

/// Digits never write a negative number.
proof fn lemma_digits_not_negative(text: Seq<char>)
    requires
        all_digits(text),
    ensures
        0 <= digits_value(text),
    decreases text.len(),
{
    if text.len() > 0 {
        lemma_digits_not_negative(text.drop_last());
        assert(is_digit(text.last()));
    }
}

/// The value of a decimal digit, `None` for any other character.
fn digit_of(c: char) -> (r: Option<i64>)
    ensures
        match r {
            Some(d) => is_digit(c) && d == digit_value(c),
            None => !is_digit(c),
        },
{
    if c == '0' {
        Some(0)
    } else if c == '1' {
        Some(1)
    } else if c == '2' {
        Some(2)
    } else if c == '3' {
        Some(3)
    } else if c == '4' {
        Some(4)
    } else if c == '5' {
        Some(5)
    } else if c == '6' {
        Some(6)
    } else if c == '7' {
        Some(7)
    } else if c == '8' {
        Some(8)
    } else if c == '9' {
        Some(9)
    } else {
        None
    }
}

/// Reads a 32-bit number in decimal.
pub fn parse_i32(text: &str) -> (r: Option<i32>)
    ensures
        r == i32_of(text@),
{
    let chars = chars_of(text);
    let len: usize = chars.len();
    let negative = len > 0 && chars[0] == '-';
    let start: usize = if len > 0 && (chars[0] == '-' || chars[0] == '+') {
        1
    } else {
        0
    };
    if start == len {
        return None;
    }
    let ghost digits = unsigned_part(text@);
    let mut value: i64 = 0;
    let mut at: usize = start;
    assert(digits.take(0) =~= Seq::<char>::empty());
    while at < len
        invariant
            start <= at <= len,
            len == chars.len(),
            chars@ == text@,
            digits == chars@.skip(start as int),
            digits == unsigned_part(text@),
            digits.len() == len - start,
            forall|i: int| 0 <= i < at - start ==> is_digit(#[trigger] digits[i]),
            value == digits_value(digits.take(at - start)),
            0 <= value <= 2_147_483_648,
        decreases len - at,
    {
        let digit = match digit_of(chars[at]) {
            Some(digit) => digit,
            None => {
                assert(digits[at - start] == chars@[at as int]);
                assert(!all_digits(digits));
                return None;
            },
        };
        let next: i64 = value * 10 + digit;
        proof {
            assert(digits.take(at - start + 1).drop_last() =~= digits.take(at - start));
            assert(digits.take(at - start + 1).last() == chars@[at as int]);
            assert(next == digits_value(digits.take(at - start + 1)));
        }
        if next > 2_147_483_648 {
            proof {
                if all_digits(digits) {
                    lemma_digits_grow(digits, at - start + 1);
                    assert(digits_value(digits) > 2_147_483_648);
                }
            }
            return None;
        }
        assert(is_digit(digits[at - start]));
        value = next;
        at = at + 1;
    }
    assert(digits.take(at - start) =~= digits);
    if negative {
        Some((-value) as i32)
    } else if value > 2_147_483_647 {
        None
    } else {
        Some(value as i32)
    }
}

/// Reads a flag, `true` or `false`.
pub fn parse_bool(text: &str) -> (r: Option<bool>)
    ensures
        r == bool_of(text@),
{
    let given = text.to_owned();
    if given == "true".to_owned() {
        Some(true)
    } else if given == "false".to_owned() {
        Some(false)
    } else {
        None
    }
}

} // verus!
