//! Strict decimal parsing of pin indices.

use vstd::prelude::*;
use crate::ascii::{is_digit, DIGIT_0, DIGIT_9};

verus! {

/// The number that the digit `b` denotes.
pub open spec fn digit_value(b: u8) -> nat
    recommends
        is_digit(b),
{
    if is_digit(b) {
        (b - DIGIT_0) as nat
    } else {
        0
    }
}

/// Whether every byte of `s` is an ASCII decimal digit.
pub open spec fn all_digits(s: Seq<u8>) -> bool {
    forall|i: int| 0 <= i < s.len() ==> is_digit(#[trigger] s[i])
}

/// The number that a string of decimal digits denotes, most significant digit
/// first. Unbounded: `decimal_value` of `"256"` is 256.
pub open spec fn decimal_value(s: Seq<u8>) -> nat
    decreases s.len(),
{
    if s.len() == 0 {
        0
    } else {
        decimal_value(s.drop_last()) * 10 + digit_value(s.last())
    }
}

/// What parsing `s` as an unsigned 8-bit number gives: the value of `s` when `s`
/// is a non-empty string of decimal digits whose value is at most 255, and
/// nothing otherwise.
pub open spec fn parse_u8(s: Seq<u8>) -> Option<u8> {
    if s.len() > 0 && all_digits(s) && decimal_value(s) <= u8::MAX {
        Some(decimal_value(s) as u8)
    } else {
        None
    }
}

/// The value of a digit string is at least the value of each of its prefixes.
pub proof fn lemma_decimal_value_prefix(s: Seq<u8>, k: int)
    requires
        0 <= k <= s.len(),
    ensures
        decimal_value(s.take(k)) <= decimal_value(s),
    decreases s.len(),
{
    if k == s.len() {
        assert(s.take(k) =~= s);
    } else {
        lemma_decimal_value_prefix(s.drop_last(), k);
        assert(s.drop_last().take(k) =~= s.take(k));
    }
}

/// Leading zeros do not change the value of a digit string.
pub proof fn lemma_decimal_value_leading_zero(s: Seq<u8>)
    ensures
        decimal_value(seq![DIGIT_0] + s) == decimal_value(s),
    decreases s.len(),
{
    let z = seq![DIGIT_0];
    if s.len() == 0 {
        assert(z + s =~= z);
        assert(z.drop_last() =~= Seq::<u8>::empty());
        assert(decimal_value(z.drop_last()) == 0);
    } else {
        lemma_decimal_value_leading_zero(s.drop_last());
        assert((z + s).drop_last() =~= z + s.drop_last());
        assert((z + s).last() == s.last());
    }
}

/// Parses `s` as a decimal number that fits in eight bits.
///
/// Every byte must be a digit and there must be at least one; a value above 255
/// is rejected rather than wrapped or saturated.
pub fn atoi_u8(s: &[u8]) -> (r: Option<u8>)
    ensures
        r == parse_u8(s@),
{
    if s.len() == 0 {
        return None;
    }
    let mut number: u8 = 0;
    let mut i: usize = 0;
    while i < s.len()
        invariant
            i <= s.len(),
            all_digits(s@.take(i as int)),
            number == decimal_value(s@.take(i as int)),
        decreases s.len() - i,
    {
        let c = s[i];
        if c < DIGIT_0 || c > DIGIT_9 {
            return None;
        }
        proof {
            assert(s@.take(i + 1).drop_last() =~= s@.take(i as int));
            assert(s@.take(i + 1).last() == c);
            lemma_decimal_value_prefix(s@, i + 1);
        }
        let scaled = match number.checked_mul(10) {
            Some(n) => n,
            None => {
                return None;
            },
        };
        number = match scaled.checked_add(c - DIGIT_0) {
            Some(n) => n,
            None => {
                return None;
            },
        };
        i += 1;
    }
    assert(s@.take(i as int) =~= s@);
    Some(number)
}

} // verus!
