//! Integers as decimal text.

use crate::text::{chars_of, text_of};
use vstd::prelude::*;

verus! {

/// A decimal digit.
pub open spec fn is_digit(c: char) -> bool {
    '0' <= c <= '9'
}

/// Nothing but decimal digits.
pub open spec fn all_digits(s: Seq<char>) -> bool {
    forall|i: int| 0 <= i < s.len() ==> is_digit(#[trigger] s[i])
}

/// The number that a row of digits writes.
pub open spec fn digits_value(s: Seq<char>) -> int
    decreases s.len(),
{
    if s.len() == 0 {
        0
    } else {
        digits_value(s.drop_last()) * 10 + (s.last() as int - '0' as int)
    }
}

/// The integer that a text writes: a sign or none, then at least one digit.
pub open spec fn integer_value(s: Seq<char>) -> Option<int> {
    let signed = s.len() > 0 && (s[0] == '-' || s[0] == '+');
    let digits = if signed {
        s.skip(1)
    } else {
        s
    };
    if digits.len() == 0 || !all_digits(digits) {
        None
    } else if signed && s[0] == '-' {
        Some(-digits_value(digits))
    } else {
        Some(digits_value(digits))
    }
}

/// The `i64` that a text writes, when it writes one.
pub open spec fn i64_value(s: Seq<char>) -> Option<i64> {
    match integer_value(s) {
        Some(v) => if i64::MIN <= v <= i64::MAX {
            Some(v as i64)
        } else {
            None
        },
        None => None,
    }
}

/// Digits never make the number smaller.
proof fn digits_value_grows(s: Seq<char>, k: int)
    requires
        all_digits(s),
        0 <= k <= s.len(),
    ensures
        0 <= digits_value(s.take(k)) <= digits_value(s),
    decreases s.len(),
{
    if k < s.len() {
        let t = s.drop_last();
        assert(all_digits(t)) by {
            assert forall|i: int| 0 <= i < t.len() implies is_digit(#[trigger] t[i]) by {
                assert(t[i] == s[i]);
            }
        }
        assert(t.take(k) == s.take(k));
        digits_value_grows(t, k);
        assert(is_digit(s[s.len() - 1]));
    } else {
        assert(s.take(k) == s);
        if s.len() > 0 {
            let t = s.drop_last();
            assert(all_digits(t)) by {
                assert forall|i: int| 0 <= i < t.len() implies is_digit(#[trigger] t[i]) by {
                    assert(t[i] == s[i]);
                }
            }
            digits_value_grows(t, t.len() as int);
            assert(t.take(t.len() as int) == t);
            assert(is_digit(s[s.len() - 1]));
        }
    }
}

/// The `i64` that the text writes, when it writes one.
pub fn parse_i64(text: &str) -> (r: Option<i64>)
    ensures
        r == i64_value(text@),
{
    let chars = chars_of(text);
    let negative = chars.len() > 0 && chars[0] == '-';
    let from: usize = if chars.len() > 0 && (chars[0] == '-' || chars[0] == '+') {
        1
    } else {
        0
    };
    let ghost digits = text@.skip(from as int);
    assert(from == 0 ==> digits == text@);
    if from == chars.len() {
        return None;
    }
    let mut value: i128 = 0;
    let mut i: usize = from;
    assert(digits.take(0) == Seq::<char>::empty());
    while i < chars.len()
        invariant
            chars@ == text@,
            from <= i <= chars@.len(),
            digits == text@.skip(from as int),
            digits.len() > 0,
            from == 0 ==> digits == text@,
            from == if text@.len() > 0 && (text@[0] == '-' || text@[0] == '+') {
                1int
            } else {
                0int
            },
            value == digits_value(digits.take(i - from)),
            0 <= value <= 0x8000_0000_0000_0000,
            forall|j: int| 0 <= j < i - from ==> is_digit(#[trigger] digits[j]),
        decreases chars@.len() - i,
    {
        let c = chars[i];
        assert(digits[i - from] == c);
        if c < '0' || c > '9' {
            return None;
        }
        let digit: i128 = (c as u32 - '0' as u32) as i128;
        let next: i128 = value * 10 + digit;
        proof {
            let k = i - from;
            assert(digits.take(k + 1).drop_last() == digits.take(k));
            assert(digits.take(k + 1).last() == c);
        }
        if next > 0x8000_0000_0000_0000 {
            proof {
                if all_digits(digits) {
                    digits_value_grows(digits, i - from + 1);
                }
            }
            return None;
        }
        value = next;
        i += 1;
    }
    proof {
        assert(digits.take(digits.len() as int) == digits);
    }
    if negative {
        Some((-value) as i64)
    } else if value > 0x7fff_ffff_ffff_ffff {
        None
    } else {
        Some(value as i64)
    }
}

/// The character of a digit.
pub open spec fn digit_char(d: int) -> char {
    ('0' as u32 + d) as u32 as char
}

/// The decimal text of a natural number, without leading zeros.
pub open spec fn nat_text(n: nat) -> Seq<char>
    decreases n,
{
    if n < 10 {
        seq![digit_char(n as int)]
    } else {
        nat_text(n / 10).push(digit_char(n as int % 10))
    }
}

/// The decimal text of an integer.
pub open spec fn integer_text(v: int) -> Seq<char> {
    if v < 0 {
        seq!['-'] + nat_text((-v) as nat)
    } else {
        nat_text(v as nat)
    }
}

fn digit_of(d: u8) -> (r: char)
    requires
        d < 10,
    ensures
        r == digit_char(d as int),
{
    (48 + d) as char
}

fn push_nat(out: &mut Vec<char>, n: u64)
    ensures
        final(out)@ == old(out)@ + nat_text(n as nat),
    decreases n,
{
    if n >= 10 {
        push_nat(out, n / 10);
    }
    let ghost before = out@;
    out.push(digit_of((n % 10) as u8));
    proof {
        if n >= 10 {
            assert(old(out)@ + nat_text(n as nat / 10).push(digit_char(n as int % 10)) == (old(
                out,
            )@ + nat_text(n as nat / 10)).push(digit_char(n as int % 10)));
        } else {
            assert(out@ == old(out)@ + nat_text(n as nat));
        }
    }
}

/// The decimal text of a `u64`.
pub fn u64_text(n: u64) -> (r: String)
    ensures
        r@ == nat_text(n as nat),
{
    let mut out: Vec<char> = Vec::new();
    push_nat(&mut out, n);
    assert(out@ == nat_text(n as nat));
    text_of(&out)
}

/// The decimal text of an `i64`.
pub fn i64_text(n: i64) -> (r: String)
    ensures
        r@ == integer_text(n as int),
{
    let mut out: Vec<char> = Vec::new();
    if n < 0 {
        out.push('-');
        let magnitude: u64 = (-(n as i128)) as u64;
        push_nat(&mut out, magnitude);
        assert(out@ == integer_text(n as int));
    } else {
        push_nat(&mut out, n as u64);
        assert(out@ == integer_text(n as int));
    }
    text_of(&out)
}

/// The text of a natural number is digits that write that number.
pub proof fn nat_text_reads_back(n: nat)
    ensures
        nat_text(n).len() > 0,
        all_digits(nat_text(n)),
        digits_value(nat_text(n)) == n,
    decreases n,
{
    if n < 10 {
        let t = nat_text(n);
        assert(t.drop_last() == Seq::<char>::empty());
        assert(digits_value(t.drop_last()) == 0);
        assert(t.last() as int == '0' as int + n);
    } else {
        nat_text_reads_back(n / 10);
        let t = nat_text(n);
        let h = nat_text(n / 10);
        assert(t.drop_last() == h);
        assert(t.last() as int == '0' as int + n % 10);
        assert forall|i: int| 0 <= i < t.len() implies is_digit(#[trigger] t[i]) by {
            if i < h.len() {
                assert(t[i] == h[i]);
            }
        }
    }
}

/// Reading back the text of an `i64` gives that `i64`.
pub proof fn i64_text_reads_back(n: i64)
    ensures
        i64_value(integer_text(n as int)) == Some(n),
{
    let magnitude: nat = if n < 0 {
        (-n) as nat
    } else {
        n as nat
    };
    nat_text_reads_back(magnitude);
    let t = integer_text(n as int);
    if n < 0 {
        assert(t.skip(1) == nat_text(magnitude));
    } else {
        assert(is_digit(t[0]));
    }
}

/// A text writes a number if and only if it is made of digits, at least one,
/// with or without a sign before them; a minus makes it negative, and a number
/// that is too great is none.
pub proof fn numbers_are_digits_with_a_sign(s: Seq<char>, digits: Seq<char>)
    requires
        digits.len() > 0,
        all_digits(digits),
    ensures
        digits_value(digits) <= i64::MAX ==> i64_value(digits) == Some(digits_value(digits) as i64)
            && i64_value(seq!['+'] + digits) == Some(digits_value(digits) as i64),
        digits_value(digits) > i64::MAX ==> i64_value(digits) is None && i64_value(
            seq!['+'] + digits,
        ) is None,
        digits_value(digits) <= -i64::MIN ==> i64_value(seq!['-'] + digits) == Some(
            (-digits_value(digits)) as i64,
        ),
        digits_value(digits) > -i64::MIN ==> i64_value(seq!['-'] + digits) is None,
        i64_value(s) is Some ==> s.len() > 0 && (s[0] == '-' || s[0] == '+' || is_digit(s[0]))
            && forall|i: int| 1 <= i < s.len() ==> is_digit(#[trigger] s[i]),
        i64_value(seq!['+']) is None && i64_value(seq!['-']) is None && i64_value(seq![]) is None,
{
    digits_value_grows(digits, 0);
    assert(digits.take(0) == Seq::<char>::empty());
    assert((seq!['+'] + digits).skip(1) == digits);
    assert((seq!['-'] + digits).skip(1) == digits);
    assert(is_digit(digits[0]));
    assert(seq!['+'].skip(1).len() == 0 && seq!['-'].skip(1).len() == 0);
    if i64_value(s) is Some {
        if s[0] == '-' || s[0] == '+' {
            assert forall|i: int| 1 <= i < s.len() implies is_digit(#[trigger] s[i]) by {
                assert(s.skip(1)[i - 1] == s[i]);
            }
        } else {
            assert(is_digit(s[0]));
        }
    }
}

/// A number is written without leading zeros.
pub proof fn numbers_have_no_leading_zero(n: nat)
    ensures
        n == 0 ==> nat_text(n) == seq!['0'],
        n > 0 ==> nat_text(n)[0] != '0',
    decreases n,
{
    if n >= 10 {
        numbers_have_no_leading_zero(n / 10);
        nat_text_reads_back(n / 10);
    }
}

} // verus!
