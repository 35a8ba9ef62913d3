//! Whole numbers as decimal digits spell them.

use vstd::prelude::*;

verus! {

/// The value of a decimal digit; nothing for any other character.
pub open spec fn digit_value(c: char) -> Option<nat> {
    if '0' <= c <= '9' {
        Some((c as u32 - '0' as u32) as nat)
    } else {
        None
    }
}

/// The number that decimal digits spell; nothing where a character is no
/// digit. No digits spell zero.
pub open spec fn number(digits: Seq<char>) -> Option<nat>
    decreases digits.len(),
{
    if digits.len() == 0 {
        Some(0)
    } else {
        match (number(digits.drop_last()), digit_value(digits.last())) {
            (Some(n), Some(d)) => Some(10 * n + d),
            _ => None,
        }
    }
}

/// The number that a text spells as `u32`: decimal digits, at least one,
/// after at most one plus sign, and no more than the type holds.
pub open spec fn spelled_u32(text: Seq<char>) -> Option<u32> {
    let digits = if text.len() > 0 && text[0] == '+' {
        text.skip(1)
    } else {
        text
    };
    match number(digits) {
        Some(n) => if digits.len() > 0 && n <= u32::MAX {
            Some(n as u32)
        } else {
            None
        },
        None => None,
    }
}

/// A text that spells a number has beginnings that spell numbers, none of
/// them larger.
pub proof fn lemma_number_grows(digits: Seq<char>, k: int)
    requires
        0 <= k <= digits.len(),
        number(digits) is Some,
    ensures
        number(digits.take(k)) is Some,
        number(digits.take(k))->0 <= number(digits)->0,
    decreases digits.len(),
{
    if k == digits.len() {
        assert(digits.take(k) =~= digits);
    } else {
        lemma_number_grows(digits.drop_last(), k);
        assert(digits.drop_last().take(k) =~= digits.take(k));
    }
}

/// Reads a number as `str::parse::<u32>` does.
pub fn parse_u32(text: &str) -> (r: Option<u32>)
    ensures
        r == spelled_u32(text@),
{
    let n = text.unicode_len();
    let start: usize = if n > 0 && text.get_char(0) == '+' {
        1
    } else {
        0
    };
    let ghost digits = if start == 1 {
        text@.skip(1)
    } else {
        text@
    };
    if start == n {
        return None;
    }
    let mut value: u64 = 0;
    let mut k: usize = start;
    proof {
        assert(digits.take(0) =~= Seq::empty());
    }
    while k < n
        invariant
            start <= k <= n,
            n == text@.len(),
            digits.len() == n - start > 0,
            digits == if text@.len() > 0 && text@[0] == '+' {
                text@.skip(1)
            } else {
                text@
            },
            forall|i: int| 0 <= i < digits.len() ==> digits[i] == text@[i + start],
            number(digits.take(k - start)) == Some(value as nat),
            value <= u32::MAX,
        decreases n - k,
    {
        let c = text.get_char(k);
        proof {
            assert(digits.take(k - start + 1).drop_last() =~= digits.take(k - start));
            assert(digits.take(k - start + 1).last() == c);
        }
        if !(c >= '0' && c <= '9') {
            proof {
                assert(digit_value(c) is None);
                assert(number(digits.take(k - start + 1)) is None);
                if number(digits) is Some {
                    lemma_number_grows(digits, k - start + 1);
                }
            }
            return None;
        }
        let d: u64 = (c as u32 - '0' as u32) as u64;
        proof {
            assert(digit_value(c) == Some(d as nat));
            assert(number(digits.take(k - start + 1)) == Some((10 * value + d) as nat));
        }
        value = 10 * value + d;
        if value > u32::MAX as u64 {
            proof {
                if number(digits) is Some {
                    lemma_number_grows(digits, k - start + 1);
                }
            }
            return None;
        }
        k += 1;
    }
    proof {
        assert(digits.take(k - start) =~= digits);
    }
    Some(value as u32)
}

/// The character of a decimal digit.
pub open spec fn digit_char(digit: nat) -> char {
    ('0' as u32 + digit) as char
}

/// The decimal digits of a number, the first of them no zero unless the
/// number is zero.
pub open spec fn digits(n: nat) -> Seq<char>
    decreases n,
{
    if n < 10 {
        seq![digit_char(n)]
    } else {
        digits(n / 10).push(digit_char(n % 10))
    }
}

/// How a whole number is written: in decimal digits, after a minus sign
/// where it is negative.
pub open spec fn decimal(n: int) -> Seq<char> {
    if n < 0 {
        seq!['-'] + digits((-n) as nat)
    } else {
        digits(n as nat)
    }
}

/// The digits of a number spell the number.
pub proof fn lemma_digits_spell(n: nat)
    ensures
        number(digits(n)) == Some(n),
    decreases n,
{
    if n < 10 {
        assert(digits(n).drop_last() =~= Seq::<char>::empty());
        assert(digit_value(digits(n).last()) == Some(n));
        assert(number(digits(n).drop_last()) == Some(0nat));
    } else {
        lemma_digits_spell(n / 10);
        assert(digits(n).drop_last() =~= digits(n / 10));
        assert(digit_value(digits(n).last()) == Some(n % 10));
    }
}

/// Calls `i64::to_string` of the standard library. Trusted: the text is the
/// number in decimal digits, with a minus sign before a negative number.
#[verifier::external_body]
pub(crate) fn to_decimal(n: i64) -> (r: String)
    ensures
        r@ == decimal(n as int),
{
    n.to_string()
}

} // verus!
