//! Decimal numerals: their digits, the number that a run of digits spells,
//! and the numeral of a number.

use vstd::arithmetic::div_mod::{lemma_add_mod_noop, lemma_mul_mod_noop_left, lemma_small_mod};
use vstd::prelude::*;
use vstd::string::StringExecFns;

verus! {

/// `c` is one of `0` to `9`.
pub open spec fn is_digit(c: char) -> bool {
    '0' <= c <= '9'
}

/// The number that the digit `c` stands for.
pub open spec fn digit_value(c: char) -> nat
    recommends
        is_digit(c),
{
    (c as int - '0' as int) as nat
}

/// The digit that stands for `d`.
pub open spec fn digit_char(d: nat) -> char
    recommends
        d < 10,
{
    (d + '0' as nat) as char
}

/// The number that a run of digits spells in base ten, however large.
pub open spec fn digits_number(digits: Seq<char>) -> nat
    decreases digits.len(),
{
    if digits.len() == 0 {
        0
    } else {
        digits_number(digits.drop_last()) * 10 + digit_value(digits.last())
    }
}

/// 2^64. Arithmetic on `u64` that wraps is arithmetic modulo this.
pub open spec fn modulus() -> nat {
    0x1_0000_0000_0000_0000
}

/// The number that a run of digits stands for as a token: the number that
/// it spells, modulo 2^64.
pub open spec fn number_value(digits: Seq<char>) -> u64 {
    (digits_number(digits) % modulus()) as u64
}

/// Reading one more digit takes the value times ten, plus the digit, each
/// step wrapping: a run of digits can be read from the left in `u64`.
pub proof fn lemma_number_value_step(digits: Seq<char>, c: char)
    requires
        is_digit(c),
    ensures
        number_value(digits.push(c)) == number_value(digits).wrapping_mul(10).wrapping_add(
            digit_value(c) as u64,
        ),
{
    let exact = digits_number(digits) as int;
    let digit = digit_value(c) as int;
    let m = modulus() as int;
    assert(digits.push(c).drop_last() =~= digits);
    assert(digits_number(digits.push(c)) == exact * 10 + digit);
    lemma_mul_mod_noop_left(exact, 10, m);
    lemma_add_mod_noop(exact * 10, digit, m);
    lemma_small_mod(digit as nat, m as nat);
}

/// The decimal numeral of `n`: no sign, no leading zero, `0` for zero.
pub open spec fn decimal(n: nat) -> Seq<char>
    decreases n,
{
    if n < 10 {
        seq![digit_char(n)]
    } else {
        decimal(n / 10).push(digit_char(n % 10))
    }
}

/// Tells whether `c` is a decimal digit.
pub fn is_decimal_digit(c: char) -> (yes: bool)
    ensures
        yes == is_digit(c),
{
    '0' <= c && c <= '9'
}

/// The number that a digit stands for.
pub fn digit_to_number(c: char) -> (d: u64)
    requires
        is_digit(c),
    ensures
        d == digit_value(c),
        d < 10,
{
    (c as u64) - ('0' as u64)
}

/// The text of one digit.
fn digit_text(d: u64) -> (text: &'static str)
    requires
        d < 10,
    ensures
        text@ == seq![digit_char(d as nat)],
{
    proof {
        reveal_strlit("0");
        reveal_strlit("1");
        reveal_strlit("2");
        reveal_strlit("3");
        reveal_strlit("4");
        reveal_strlit("5");
        reveal_strlit("6");
        reveal_strlit("7");
        reveal_strlit("8");
        reveal_strlit("9");
    }
    if d == 0 {
        "0"
    } else if d == 1 {
        "1"
    } else if d == 2 {
        "2"
    } else if d == 3 {
        "3"
    } else if d == 4 {
        "4"
    } else if d == 5 {
        "5"
    } else if d == 6 {
        "6"
    } else if d == 7 {
        "7"
    } else if d == 8 {
        "8"
    } else {
        "9"
    }
}

/// The decimal numeral of a number.
pub fn numeral(n: u64) -> (text: String)
    ensures
        text@ == decimal(n as nat),
    decreases n,
{
    if n < 10 {
        String::from_str(digit_text(n))
    } else {
        let mut text = numeral(n / 10);
        text.append(digit_text(n % 10));
        text
    }
}

} // verus!
