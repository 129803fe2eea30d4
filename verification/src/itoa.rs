//! Decimal rendering of pin indices.

use vstd::prelude::*;
use crate::ascii::{is_digit, DIGIT_0};
use crate::atoi::{all_digits, decimal_value, digit_value, parse_u8};

verus! {

/// The decimal digits of `n`, most significant first, without leading zeros;
/// zero is the single digit `0`.
pub open spec fn decimal_digits(n: nat) -> Seq<u8>
    decreases n,
{
    if n < 10 {
        seq![(DIGIT_0 + n) as u8]
    } else {
        decimal_digits(n / 10).push((DIGIT_0 + n % 10) as u8)
    }
}

/// The digits of a number are digits, denote that number, and begin with a
/// zero only where the number is zero.
pub proof fn lemma_decimal_digits(n: nat)
    ensures
        decimal_digits(n).len() >= 1,
        all_digits(decimal_digits(n)),
        decimal_value(decimal_digits(n)) == n,
        n > 0 ==> decimal_digits(n)[0] != DIGIT_0,
    decreases n,
{
    let digits = decimal_digits(n);
    if n < 10 {
        assert(digits.drop_last() =~= Seq::<u8>::empty());
        assert(decimal_value(digits.drop_last()) == 0);
        assert(digit_value(digits.last()) == n);
    } else {
        lemma_decimal_digits(n / 10);
        let higher = decimal_digits(n / 10);
        assert(digits.drop_last() =~= higher);
        assert(is_digit(digits.last()));
        assert(digit_value(digits.last()) == n % 10);
        assert(digits[0] == higher[0]);
    }
}

/// Parsing the digits of a number gives the number back.
pub proof fn lemma_parse_decimal_digits(n: u8)
    ensures
        parse_u8(decimal_digits(n as nat)) == Some(n),
{
    lemma_decimal_digits(n as nat);
}

/// Renders `n` in decimal.
pub fn itoa_u8(n: u8) -> (digits: Vec<u8>)
    ensures
        digits@ == decimal_digits(n as nat),
{
    let mut digits: Vec<u8> = Vec::new();
    proof {
        reveal_with_fuel(decimal_digits, 3);
    }
    if n >= 100 {
        digits.push(DIGIT_0 + n / 100);
    }
    if n >= 10 {
        digits.push(DIGIT_0 + (n / 10) % 10);
    }
    digits.push(DIGIT_0 + n % 10);
    assert(digits@ =~= decimal_digits(n as nat));
    digits
}

} // verus!
