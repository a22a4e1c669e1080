//! Numbers as text.

use crate::text::{chars_of, is_digit};
use vstd::prelude::*;
use vstd::string::*;

verus! {

/// The digit that stands for `d`, in decimal and in hexadecimal notation.
pub open spec fn digit(d: nat) -> char {
    if d < 10 {
        (48 + d) as char
    } else {
        (87 + d) as char
    }
}

/// The digit that stands for `d`.
fn digit_char(d: u8) -> (c: char)
    requires
        d < 16,
    ensures
        c == digit(d as nat),
{
    let code: u8 = if d < 10 {
        48 + d
    } else {
        87 + d
    };
    code as char
}

/// `n` in decimal notation, without leading zeros.
pub open spec fn decimal(n: nat) -> Seq<char>
    decreases n,
{
    if n < 10 {
        seq![digit(n)]
    } else {
        decimal(n / 10).push(digit(n % 10))
    }
}

/// `n` in hexadecimal notation, with lowercase letters and without leading zeros.
pub open spec fn hexadecimal(n: nat) -> Seq<char>
    decreases n,
{
    if n < 16 {
        seq![digit(n)]
    } else {
        hexadecimal(n / 16).push(digit(n % 16))
    }
}

/// `n` in decimal notation.
pub fn decimal_text(n: u128) -> (s: String)
    ensures
        s@ == decimal(n as nat),
    decreases n,
{
    if n < 10 {
        let mut s = String::new();
        s.push(digit_char(n as u8));
        assert(s@ =~= seq![digit(n as nat)]);
        s
    } else {
        let mut s = decimal_text(n / 10);
        s.push(digit_char((n % 10) as u8));
        s
    }
}

/// `n` in hexadecimal notation.
pub fn hexadecimal_text(n: u16) -> (s: String)
    ensures
        s@ == hexadecimal(n as nat),
    decreases n,
{
    if n < 16 {
        let mut s = String::new();
        s.push(digit_char(n as u8));
        assert(s@ =~= seq![digit(n as nat)]);
        s
    } else {
        let mut s = hexadecimal_text(n / 16);
        s.push(digit_char((n % 16) as u8));
        s
    }
}

/// A decimal numeral is a nonempty sequence of digits.
pub proof fn lemma_decimal_digits(n: nat)
    ensures
        decimal(n).len() > 0,
        forall|i: int| 0 <= i < decimal(n).len() ==> is_digit(#[trigger] decimal(n)[i]),
    decreases n,
{
    if n >= 10 {
        lemma_decimal_digits(n / 10);
    }
}

/// The number that a sequence of digits stands for.
pub open spec fn digits_value(s: Seq<char>) -> nat
    decreases s.len(),
{
    if s.len() == 0 {
        0
    } else {
        digits_value(s.drop_last()) * 10 + (s.last() as nat - 48) as nat
    }
}

/// Reading a numeral in decimal notation gives back the number.
pub proof fn lemma_digits_value_of_decimal(n: nat)
    ensures
        digits_value(decimal(n)) == n,
    decreases n,
{
    if n < 10 {
        assert(decimal(n).drop_last() =~= Seq::<char>::empty());
        assert(digits_value(decimal(n).drop_last()) == 0);
        assert(decimal(n).last() == digit(n));
    } else {
        lemma_digits_value_of_decimal(n / 10);
        assert(decimal(n).drop_last() =~= decimal(n / 10));
    }
}

/// Different numbers have different numerals.
pub proof fn lemma_decimal_injective(a: nat, b: nat)
    requires
        decimal(a) == decimal(b),
    ensures
        a == b,
{
    lemma_digits_value_of_decimal(a);
    lemma_digits_value_of_decimal(b);
}

/// Whether every character of `s` is a digit.
pub open spec fn all_digits(s: Seq<char>) -> bool {
    forall|i: int| 0 <= i < s.len() ==> is_digit(#[trigger] s[i])
}

/// `s` without a plus sign in front.
pub open spec fn without_plus(s: Seq<char>) -> Seq<char> {
    if s.len() > 0 && s[0] == '+' {
        s.drop_first()
    } else {
        s
    }
}

/// The number that `s` writes down, if it is an optional plus sign and one or
/// more digits, and the number is at most `max`.
pub open spec fn number_in(s: Seq<char>, max: nat) -> Option<nat> {
    let digits = without_plus(s);
    if digits.len() > 0 && all_digits(digits) && digits_value(digits) <= max {
        Some(digits_value(digits))
    } else {
        None
    }
}

proof fn lemma_digits_value_grows(s: Seq<char>, k: int)
    requires
        0 <= k <= s.len(),
        all_digits(s),
    ensures
        digits_value(s.take(k)) <= digits_value(s),
    decreases s.len(),
{
    if k == s.len() {
        assert(s.take(k) =~= s);
    } else {
        let t = s.drop_last();
        assert forall|i: int| 0 <= i < t.len() implies is_digit(#[trigger] t[i]) by {
            assert(t[i] == s[i]);
        }
        lemma_digits_value_grows(t, k);
        assert(t.take(k) =~= s.take(k));
    }
}

/// The number that `s` writes down, if it is one and at most `max`.
fn parse_number(s: &str, max: u64) -> (r: Option<u64>)
    ensures
        match r {
            Some(n) => number_in(s@, max as nat) == Some(n as nat),
            None => number_in(s@, max as nat) is None,
        },
{
    let v = chars_of(s);
    let start: usize = if v.len() > 0 && v[0] == '+' {
        1
    } else {
        0
    };
    let ghost digits = without_plus(s@);
    assert(digits =~= v@.skip(start as int));
    if start == v.len() {
        return None;
    }
    let mut value: u128 = 0;
    let mut i: usize = start;
    assert(digits.take(0) =~= Seq::<char>::empty());
    while i < v.len()
        invariant
            start <= i <= v@.len(),
            digits == v@.skip(start as int),
            digits == without_plus(s@),
            digits.len() > 0,
            value == digits_value(digits.take(i - start)),
            value <= max,
            forall|j: int| 0 <= j < i - start ==> is_digit(#[trigger] digits[j]),
        decreases v@.len() - i,
    {
        let c = v[i];
        let ghost k = i - start;
        assert(digits[k] == c);
        if !('0' <= c && c <= '9') {
            return None;
        }
        proof {
            assert(digits.take(k + 1).drop_last() =~= digits.take(k));
            assert(digits.take(k + 1).last() == c);
        }
        value = value * 10 + (c as u32 - 48) as u128;
        if value > max as u128 {
            proof {
                if all_digits(digits) {
                    lemma_digits_value_grows(digits, k + 1);
                }
            }
            return None;
        }
        i += 1;
    }
    assert(digits.take(i - start) =~= digits);
    Some(value as u64)
}

/// The `u16` that `s` writes down, if it is one: an optional plus sign and digits.
pub fn parse_u16(s: &str) -> (r: Option<u16>)
    ensures
        match r {
            Some(n) => number_in(s@, 65535) == Some(n as nat),
            None => number_in(s@, 65535) is None,
        },
{
    match parse_number(s, 65535) {
        Some(n) => Some(n as u16),
        None => None,
    }
}

/// The `u64` that `s` writes down, if it is one: an optional plus sign and digits.
pub fn parse_u64(s: &str) -> (r: Option<u64>)
    ensures
        match r {
            Some(n) => number_in(s@, u64::MAX as nat) == Some(n as nat),
            None => number_in(s@, u64::MAX as nat) is None,
        },
{
    parse_number(s, u64::MAX)
}

/// A number that is written down in decimal notation is read back.
pub proof fn number_read_back(n: nat, max: nat)
    requires
        n <= max,
    ensures
        number_in(decimal(n), max) == Some(n),
{
    lemma_decimal_digits(n);
    lemma_digits_value_of_decimal(n);
    assert(is_digit(decimal(n)[0]));
}

/// Decimal notation: the last digit is the number of ones, and what stands
/// before it is the number of tens. There are no leading zeros.
pub proof fn decimals_count_tens_and_ones(n: nat)
    ensures
        decimal(n).len() > 0,
        decimal(n).last() as int == 48 + n % 10,
        n < 10 ==> decimal(n).len() == 1,
        n >= 10 ==> decimal(n).drop_last() == decimal(n / 10),
        n > 0 ==> decimal(n)[0] != '0',
    decreases n,
{
    if n >= 10 {
        decimals_count_tens_and_ones(n / 10);
        assert(decimal(n).drop_last() =~= decimal(n / 10));
        assert(decimal(n)[0] == decimal(n / 10)[0]);
    }
}

/// Hexadecimal notation: the last digit, from 0 to 9 and from a to f, is the
/// number of ones, and what stands before it is the number of sixteens.
pub proof fn hexadecimals_count_sixteens_and_ones(n: nat)
    ensures
        hexadecimal(n).len() > 0,
        n % 16 < 10 ==> hexadecimal(n).last() as int == 48 + n % 16,
        n % 16 >= 10 ==> hexadecimal(n).last() as int == 87 + n % 16,
        n < 16 ==> hexadecimal(n).len() == 1,
        n >= 16 ==> hexadecimal(n).drop_last() == hexadecimal(n / 16),
    decreases n,
{
    if n >= 16 {
        hexadecimals_count_sixteens_and_ones(n / 16);
        assert(hexadecimal(n).drop_last() =~= hexadecimal(n / 16));
    }
}

/// What is read as a number: digits, of which each counts ten times as much as
/// the one behind it, with a plus sign before them or without one. Nothing is,
/// where there is no digit, where anything else stands among them, or where the
/// number is too large.
pub proof fn numbers_are_digits(s: Seq<char>, c: char, max: nat)
    ensures
        number_in(Seq::empty(), max) is None,
        number_in(seq!['+'], max) is None,
        (s.len() == 0 || s[0] != '+') ==> number_in(seq!['+'] + s, max) == number_in(s, max),
        number_in(s, max) is Some ==> number_in(s, max)->0 <= max,
        number_in(s, max) is Some && '0' <= c <= '9' ==> {
            let next = (number_in(s, max)->0 * 10 + (c as int - 48)) as nat;
            number_in(s.push(c), max) == if next <= max {
                Some(next)
            } else {
                None
            }
        },
        number_in(s, max) is Some && !('0' <= c <= '9') ==> number_in(s.push(c), max) is None,
        '0' <= c <= '9' && c as int - 48 <= max ==> number_in(seq![c], max) == Some(
            (c as int - 48) as nat,
        ),
        c != '+' && !('0' <= c <= '9') ==> number_in(seq![c] + s, max) is None,
{
    let none = Seq::<char>::empty();
    assert(seq!['+'].drop_first() =~= none);
    assert((seq!['+'] + s).drop_first() =~= s);
    let digits = without_plus(s);
    let more = without_plus(s.push(c));
    if s.len() > 0 {
        assert(more =~= digits.push(c));
        assert(more.drop_last() =~= digits);
        assert(more.last() == c);
        assert(more[digits.len() as int] == c);
        if number_in(s, max) is Some && '0' <= c <= '9' {
            assert forall|i: int| 0 <= i < more.len() implies is_digit(#[trigger] more[i]) by {
                if i < digits.len() {
                    assert(more[i] == digits[i]);
                }
            }
        }
    }
    assert(seq![c].drop_last() =~= none);
    assert(digits_value(none) == 0);
    assert(seq![c].last() == c);
    assert(all_digits(seq![c]) == is_digit(c)) by {
        assert(seq![c][0] == c);
    }
    assert((seq![c] + s)[0] == c);
}

/// What begins with a number that is too large, or with none, is no number.
pub proof fn numbers_begin_with_numbers(s: Seq<char>, c: char, max: nat)
    requires
        number_in(s.push(c), max) is Some,
        s.len() > 0,
        s != seq!['+'],
    ensures
        number_in(s, max) is Some,
        '0' <= c <= '9',
{
    let digits = without_plus(s);
    let more = without_plus(s.push(c));
    assert(more =~= digits.push(c));
    assert(more.drop_last() =~= digits);
    assert(more.last() == c);
    assert(is_digit(more[digits.len() as int]));
    assert(digits.len() > 0) by {
        if digits.len() == 0 {
            assert(s =~= seq!['+']);
        }
    }
    assert forall|i: int| 0 <= i < digits.len() implies is_digit(#[trigger] digits[i]) by {
        assert(is_digit(more[i]));
    }
}

} // verus!
