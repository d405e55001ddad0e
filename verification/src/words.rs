//! Small operations on the words of a command line: comparing them, reading
//! numbers from them, and writing numbers.

use crate::text::chars_of;
use vstd::prelude::*;
use vstd::string::*;

verus! {

/// Whether two texts are the same.
pub fn same_text(a: &str, b: &str) -> (same: bool)
    ensures
        same == (a@ == b@),
{
    let x = chars_of(a);
    let y = chars_of(b);
    if x.len() != y.len() {
        return false;
    }
    let mut i: usize = 0;
    while i < x.len()
        invariant
            i <= x.len(),
            x.len() == y.len(),
            x@ == a@,
            y@ == b@,
            forall|j: int| 0 <= j < i ==> x@[j] == y@[j],
        decreases x.len() - i,
    {
        if x[i] != y[i] {
            return false;
        }
        i += 1;
    }
    assert(x@ =~= y@);
    true
}

/// The value of a decimal digit, where the character is one.
pub open spec fn digit_value(c: char) -> Option<nat> {
    if '0' <= c <= '9' {
        Some((c as nat - '0' as nat) as nat)
    } else {
        None
    }
}

/// The number that a sequence of decimal digits writes, where every character
/// is a digit. The empty sequence writes zero.
pub open spec fn digits_value(s: Seq<char>) -> Option<nat>
    decreases s.len(),
{
    if s.len() == 0 {
        Some(0)
    } else {
        match (digits_value(s.drop_last()), digit_value(s.last())) {
            (Some(high), Some(low)) => Some(high * 10 + low),
            _ => None,
        }
    }
}

/// The digits of a number as it may be written: without the plus sign that may
/// stand before them.
pub open spec fn unsigned_part(s: Seq<char>) -> Seq<char> {
    if s.len() > 0 && s[0] == '+' {
        s.drop_first()
    } else {
        s
    }
}

/// The number that a text writes in decimal: at least one digit, with or
/// without a plus sign before the digits, and nothing else.
pub open spec fn number_written(s: Seq<char>) -> Option<nat> {
    if unsigned_part(s).len() == 0 {
        None
    } else {
        digits_value(unsigned_part(s))
    }
}

/// A longer sequence of digits writes no smaller number, and a sequence with
/// something else in it writes none, however it goes on.
pub proof fn lemma_digits_prefix(s: Seq<char>, n: int)
    requires
        0 <= n <= s.len(),
    ensures
        digits_value(s.take(n)) is None ==> digits_value(s) is None,
        digits_value(s) is Some ==> digits_value(s.take(n))->Some_0 <= digits_value(s)->Some_0,
    decreases s.len() - n,
{
    if n < s.len() {
        lemma_digits_prefix(s, n + 1);
        assert(s.take(n + 1).drop_last() == s.take(n));
    } else {
        assert(s.take(n) == s);
    }
}

/// Reads a number that is written in decimal, where it is one that a `usize`
/// can hold.
pub fn parse_number(text: &str) -> (r: Option<usize>)
    ensures
        r is Some <==> number_written(text@) is Some && number_written(text@)->Some_0
            <= usize::MAX,
        r is Some ==> r->Some_0 == number_written(text@)->Some_0,
{
    let chars = chars_of(text);
    let start: usize = if chars.len() > 0 && chars[0] == '+' {
        1
    } else {
        0
    };
    if chars.len() == start {
        return None;
    }
    let ghost digits = unsigned_part(text@);
    assert(digits == chars@.subrange(start as int, chars.len() as int));
    let mut value: usize = 0;
    let mut i: usize = start;
    while i < chars.len()
        invariant
            start <= i <= chars.len(),
            start < chars.len(),
            digits == unsigned_part(text@),
            digits == chars@.subrange(start as int, chars.len() as int),
            digits_value(digits.take(i - start)) == Some(value as nat),
        decreases chars.len() - i,
    {
        let c = chars[i];
        proof {
            lemma_digits_prefix(digits, i - start + 1);
            assert(digits.take(i - start + 1).drop_last() == digits.take(i - start));
            assert(digits.take(i - start + 1).last() == c);
        }
        if c < '0' || c > '9' {
            return None;
        }
        let low = (c as u32 - '0' as u32) as usize;
        if value > (usize::MAX - low) / 10 {
            assert(value * 10 + low > usize::MAX) by (nonlinear_arith)
                requires
                    value > (usize::MAX - low) / 10,
                    low <= usize::MAX,
            ;
            return None;
        }
        assert(value * 10 + low <= usize::MAX) by (nonlinear_arith)
            requires
                value <= (usize::MAX - low) / 10,
                low <= usize::MAX,
        ;
        value = value * 10 + low;
        i += 1;
    }
    assert(digits.take(chars.len() - start) == digits);
    Some(value)
}

/// The character that writes a digit.
pub open spec fn digit_char(d: nat) -> char {
    ('0' as nat + d) as char
}

/// A number as it is written in decimal.
pub open spec fn decimal(n: nat) -> Seq<char>
    decreases n,
{
    if n < 10 {
        seq![digit_char(n)]
    } else {
        decimal(n / 10).push(digit_char(n % 10))
    }
}

/// Writes a number in decimal.
pub fn write_number(n: u64) -> (text: String)
    ensures
        text@ == decimal(n as nat),
    decreases n,
{
    let low = (n % 10) as u8;
    let c = (48u8 + low) as char;
    assert(c == digit_char((n % 10) as nat));
    if n < 10 {
        let mut text = String::new();
        text.push(c);
        assert(text@ == seq![c]);
        text
    } else {
        let mut text = write_number(n / 10);
        text.push(c);
        text
    }
}

} // verus!
