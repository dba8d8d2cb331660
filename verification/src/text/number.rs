//! Numbers in decimal.

use crate::text::chars;
use crate::text::chars::{ascii_char, chars_of, is_decimal_digit};
use vstd::prelude::*;
use vstd::string::StringExecFns;

verus! {

pub open spec fn digit(value: nat) -> char {
    (48 + value) as char
}

/// The decimal digits of a number, without leading zeros.
pub open spec fn decimal(n: nat) -> Seq<char>
    decreases n,
{
    if n < 10 {
        seq![digit(n)]
    } else {
        decimal(n / 10).push(digit(n % 10))
    }
}

/// A number with its sign where it is negative.
pub open spec fn signed_decimal(n: int) -> Seq<char> {
    if n < 0 {
        seq!['-'] + decimal((-n) as nat)
    } else {
        decimal(n as nat)
    }
}

pub open spec fn all_digits(s: Seq<char>) -> bool {
    forall|i: int| 0 <= i < s.len() ==> chars::is_digit(#[trigger] s[i])
}

/// The number that a run of digits spells.
pub open spec fn decimal_value(s: Seq<char>) -> nat
    decreases s.len(),
{
    if s.len() == 0 {
        0
    } else {
        decimal_value(s.drop_last()) * 10 + (s.last() as nat - 48) as nat
    }
}

/// The number that a text spells: digits, after a `+` or nothing.
pub open spec fn parse_unsigned(s: Seq<char>) -> Option<nat> {
    let body = if s.len() > 0 && s[0] == '+' {
        s.skip(1)
    } else {
        s
    };
    if body.len() > 0 && all_digits(body) {
        Some(decimal_value(body))
    } else {
        None
    }
}

/// A number that is no larger than `most`.
pub open spec fn parse_at_most(s: Seq<char>, most: nat) -> Option<nat> {
    match parse_unsigned(s) {
        Some(n) => if n <= most {
            Some(n)
        } else {
            None
        },
        None => None,
    }
}

pub fn wide_number_text(n: u128) -> (text: String)
    ensures
        text@ == decimal(n as nat),
    decreases n,
{
    let last: u128 = n % 10;
    let mut text = if n < 10 {
        String::new()
    } else {
        wide_number_text(n / 10)
    };
    text.push(ascii_char(48 + last as u8));
    assert(n < 10 ==> text@ =~= seq![digit(n as nat)]);
    text
}

pub fn number_text(n: u64) -> (text: String)
    ensures
        text@ == decimal(n as nat),
{
    wide_number_text(n as u128)
}

pub fn signed_text(n: i64) -> (text: String)
    ensures
        text@ == signed_decimal(n as int),
{
    if n < 0 {
        let size: u64 = if n == i64::MIN {
            9_223_372_036_854_775_808
        } else {
            (-n) as u64
        };
        let mut text = String::new();
        text.push('-');
        text.append(number_text(size).as_str());
        assert(text@ =~= seq!['-'] + decimal(size as nat));
        text
    } else {
        number_text(n as u64)
    }
}

/// The number that a text spells, where it is one that fits.
pub fn parse_u64(text: &str) -> (value: Option<u64>)
    ensures
        match value {
            Some(n) => parse_at_most(text@, u64::MAX as nat) == Some(n as nat),
            None => parse_at_most(text@, u64::MAX as nat) is None,
        },
{
    let chars = chars_of(text);
    let start: usize = if chars.len() > 0 && chars[0] == '+' {
        1
    } else {
        0
    };
    let ghost body = if text@.len() > 0 && text@[0] == '+' {
        text@.skip(1)
    } else {
        text@
    };
    assert(body =~= text@.skip(start as int));
    if start == chars.len() {
        return None;
    }
    let mut value: u64 = 0;
    let mut fits: bool = true;
    let mut i: usize = start;
    while i < chars.len()
        invariant
            start <= i <= chars.len(),
            start < chars.len(),
            chars@ == text@,
            body == text@.skip(start as int),
            parse_unsigned(text@) == (if all_digits(body) {
                Some(decimal_value(body))
            } else {
                None
            }),
            all_digits(body.take(i - start)),
            fits ==> value == decimal_value(body.take(i - start)),
            !fits ==> decimal_value(body.take(i - start)) > u64::MAX,
        decreases chars.len() - i,
    {
        let c = chars[i];
        assert(body[i - start] == c);
        if !is_decimal_digit(c) {
            assert(!all_digits(body));
            return None;
        }
        let d: u64 = (c as u32 - 48) as u64;
        assert(body.take(i + 1 - start).drop_last() =~= body.take(i - start));
        assert(body.take(i + 1 - start).last() == c);
        if fits {
            match value.checked_mul(10) {
                Some(shifted) => match shifted.checked_add(d) {
                    Some(sum) => {
                        value = sum;
                    },
                    None => {
                        fits = false;
                    },
                },
                None => {
                    fits = false;
                },
            }
        }
        i += 1;
    }
    assert(body.take(i - start) =~= body);
    if fits {
        Some(value)
    } else {
        None
    }
}

/// The number that a text spells, where it is one of 32 bits.
pub fn parse_u32(text: &str) -> (value: Option<u32>)
    ensures
        match value {
            Some(n) => parse_at_most(text@, u32::MAX as nat) == Some(n as nat),
            None => parse_at_most(text@, u32::MAX as nat) is None,
        },
{
    match parse_u64(text) {
        Some(n) => if n <= u32::MAX as u64 {
            Some(n as u32)
        } else {
            None
        },
        None => None,
    }
}

// ---------------------------------------------------------------------------------------------
// What holds of numbers

/// A number that is written is read back: its digits are digits, they spell the number, and it is
/// found to fit exactly where it does. It starts with a zero only where it is one.
pub proof fn a_written_number_is_read_back(n: nat, most: nat)
    ensures
        decimal(n).len() > 0,
        all_digits(decimal(n)),
        decimal_value(decimal(n)) == n,
        n > 0 ==> decimal(n)[0] != '0',
        parse_unsigned(decimal(n)) == Some(n),
        n <= most ==> parse_at_most(decimal(n), most) == Some(n),
        n > most ==> parse_at_most(decimal(n), most) is None,
        parse_unsigned(seq!['+'] + decimal(n)) == Some(n),
    decreases n,
{
    let own = decimal(n);
    if n >= 10 {
        a_written_number_is_read_back(n / 10, most);
        assert(own.drop_last() =~= decimal(n / 10));
        assert(own.last() == digit(n % 10));
        assert(own[0] == decimal(n / 10)[0]);
        assert forall|i: int| 0 <= i < own.len() implies chars::is_digit(#[trigger] own[i]) by {
            if i < own.len() - 1 {
                assert(decimal(n / 10)[i] == own[i]);
            }
        }
    } else {
        assert(own.drop_last() =~= Seq::<char>::empty());
        assert(decimal_value(own.drop_last()) == 0);
        assert(own[0] == digit(n));
    }
    assert(chars::is_digit(own[0]));
    let plus = seq!['+'] + own;
    assert(plus[0] == '+');
    assert(plus.skip(1) =~= own);
}

/// What is no run of digits, after a `+` or nothing, spells no number.
pub proof fn only_digits_spell_a_number(s: Seq<char>, i: int)
    requires
        0 <= i < s.len(),
        !chars::is_digit(s[i]),
        i > 0 || s[0] != '+',
    ensures
        parse_unsigned(s) is None,
        parse_unsigned(Seq::empty()) is None,
{
    if s[0] == '+' {
        assert(s.skip(1)[i - 1] == s[i]);
    }
}

/// A number below zero has a sign before it.
pub proof fn a_negative_number_has_a_sign(n: int)
    ensures
        n >= 0 ==> signed_decimal(n) == decimal(n as nat),
        n < 0 ==> signed_decimal(n) == seq!['-'] + decimal((-n) as nat),
{
}

} // verus!
