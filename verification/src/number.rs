//! Numbers as decimal text, in both directions.

use vstd::prelude::*;
use crate::text::chars_of;
use crate::text::string_of;

verus! {

/// The character of a digit.
pub open spec fn digit_char(d: nat) -> char {
    if d == 0 {
        '0'
    } else if d == 1 {
        '1'
    } else if d == 2 {
        '2'
    } else if d == 3 {
        '3'
    } else if d == 4 {
        '4'
    } else if d == 5 {
        '5'
    } else if d == 6 {
        '6'
    } else if d == 7 {
        '7'
    } else if d == 8 {
        '8'
    } else {
        '9'
    }
}

/// A number in decimal digits, without leading zeros.
pub open spec fn decimal(n: nat) -> Seq<char>
    decreases n,
{
    if n < 10 {
        seq![digit_char(n)]
    } else {
        decimal(n / 10).push(digit_char(n % 10))
    }
}

/// The digits in front of the last digits that are already written: none
/// for zero.
spec fn leading_digits(m: nat) -> Seq<char> {
    if m == 0 {
        Seq::empty()
    } else {
        decimal(m)
    }
}

fn digit_of(d: usize) -> (c: char)
    requires
        d < 10,
    ensures
        c == digit_char(d as nat),
{
    if d == 0 {
        '0'
    } else if d == 1 {
        '1'
    } else if d == 2 {
        '2'
    } else if d == 3 {
        '3'
    } else if d == 4 {
        '4'
    } else if d == 5 {
        '5'
    } else if d == 6 {
        '6'
    } else if d == 7 {
        '7'
    } else if d == 8 {
        '8'
    } else {
        '9'
    }
}

/// A number in decimal digits, without leading zeros.
pub fn decimal_string(n: usize) -> (r: String)
    ensures
        r@ == decimal(n as nat),
{
    let mut digits: Vec<char> = Vec::new();
    digits.push(digit_of(n % 10));
    let mut m: usize = n / 10;
    assert(decimal(n as nat) =~= leading_digits(m as nat) + digits@);
    while m > 0
        invariant
            decimal(n as nat) == leading_digits(m as nat) + digits@,
        decreases m,
    {
        let ghost before = digits@;
        digits.insert(0, digit_of(m % 10));
        assert(leading_digits(m as nat) + before =~= leading_digits((m / 10) as nat) + digits@);
        m = m / 10;
    }
    assert(digits@ =~= leading_digits(0) + digits@);
    string_of(&digits)
}

/// Whether a character is one of the digits `0` to `9`.
pub open spec fn is_digit(c: char) -> bool {
    0x30 <= c as u32 <= 0x39
}

/// Whether a text holds digits only.
pub open spec fn all_digits(s: Seq<char>) -> bool {
    forall|i: int| 0 <= i < s.len() ==> is_digit(#[trigger] s[i])
}

/// The number that a text of digits stands for.
pub open spec fn digits_value(s: Seq<char>) -> nat
    decreases s.len(),
{
    if s.len() == 0 {
        0
    } else {
        (digits_value(s.drop_last()) * 10 + (s.last() as u32 - 0x30)) as nat
    }
}

/// The digits of a number text: what follows an optional plus sign.
pub open spec fn number_body(s: Seq<char>) -> Seq<char> {
    if s.len() > 0 && s[0] == '+' {
        s.drop_first()
    } else {
        s
    }
}

/// The number that a text stands for, if it is a number: one or more
/// digits, with an optional plus sign in front.
pub open spec fn number_of(s: Seq<char>) -> Option<nat> {
    let body = number_body(s);
    if body.len() > 0 && all_digits(body) {
        Some(digits_value(body))
    } else {
        None
    }
}

/// The smaller of two numbers.
pub open spec fn least(a: nat, b: nat) -> nat {
    if a <= b {
        a
    } else {
        b
    }
}

/// Reads a number and caps it: for a text that is a number, the smaller of
/// that number and `cap`; for any other text, nothing. However many digits
/// the text has, the answer is exact.
pub fn parse_capped(arg: &str, cap: usize) -> (r: Option<usize>)
    ensures
        r == match number_of(arg@) {
            Some(n) => Some(least(n, cap as nat) as usize),
            None => None,
        },
{
    let cs = chars_of(arg);
    let start: usize = if cs.len() > 0 && cs[0] == '+' {
        1
    } else {
        0
    };
    let ghost body = number_body(cs@);
    assert(body =~= cs@.subrange(start as int, cs.len() as int));
    if start >= cs.len() {
        return None;
    }
    let mut i: usize = start;
    let mut value: usize = 0;
    let mut over = false;
    assert(body.take(0) =~= Seq::<char>::empty());
    while i < cs.len()
        invariant
            start <= i <= cs.len(),
            cs@ == arg@,
            body == number_body(cs@),
            body == cs@.subrange(start as int, cs.len() as int),
            all_digits(body.take(i - start)),
            over ==> digits_value(body.take(i - start)) > cap,
            !over ==> value == digits_value(body.take(i - start)) && value <= cap,
        decreases cs.len() - i,
    {
        let c = cs[i];
        let n: u32 = c as u32;
        let ghost k = (i - start) as int;
        assert(body[k] == c);
        assert(body.take(k + 1).drop_last() =~= body.take(k));
        assert(body.take(k + 1).last() == c);
        if !(0x30 <= n && n <= 0x39) {
            assert(!is_digit(body[k]));
            return None;
        }
        assert(all_digits(body.take(k + 1))) by {
            assert forall|j: int| 0 <= j < k + 1 implies is_digit(#[trigger] body.take(k + 1)[j]) by {
                if j < k {
                    assert(body.take(k + 1)[j] == body.take(k)[j]);
                }
            }
        }
        if !over {
            let next: u128 = (value as u128) * 10 + ((n - 0x30) as u128);
            if next > cap as u128 {
                over = true;
            } else {
                value = next as usize;
            }
        }
        i += 1;
    }
    assert(body.take(cs.len() - start) =~= body);
    if over {
        Some(cap)
    } else {
        Some(value)
    }
}

} // verus!
