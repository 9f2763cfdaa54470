//! Decimal text of integers: what it is, how it is produced, and that it reads
//! back as the value it was made from.

use vstd::prelude::*;

verus! {

/// The byte `-`.
pub const MINUS: u8 = 45;

/// The byte `0`; the digit `d` is the byte `ZERO + d`.
pub const ZERO: u8 = 48;

/// The digits of `n` in base ten, most significant first, with no leading zero
/// but for `n == 0`, which is the single digit `0`.
pub open spec fn digits(n: nat) -> Seq<u8>
    decreases n,
{
    if n < 10 {
        seq![(ZERO + n) as u8]
    } else {
        digits(n / 10).push((ZERO + n % 10) as u8)
    }
}

/// The decimal text of `value`: its digits, after a `-` where it is negative.
pub open spec fn decimal(value: int) -> Seq<u8> {
    if value < 0 {
        seq![MINUS] + digits((-value) as nat)
    } else {
        digits(value as nat)
    }
}

/// The number that a run of digits stands for.
pub open spec fn digits_value(text: Seq<u8>) -> nat
    decreases text.len(),
{
    if text.len() == 0 {
        0
    } else {
        (digits_value(text.drop_last()) * 10 + (text.last() - ZERO)) as nat
    }
}

/// The number that a decimal text stands for.
pub open spec fn parse_decimal(text: Seq<u8>) -> int {
    if text.len() > 0 && text[0] == MINUS {
        -(digits_value(text.skip(1)) as int)
    } else {
        digits_value(text) as int
    }
}

/// `itoa::Buffer::format`, on a fresh `itoa::Buffer`: the text it returns is the
/// decimal representation of the integer, as defined by `decimal`.
#[verifier::external_body]
pub(crate) fn format_integer(value: i64) -> (text: Vec<u8>)
    ensures
        text@ == decimal(value as int),
{
    itoa::Buffer::new().format(value).as_bytes().to_vec()
}

/// The decimal text of a signed integer.
pub fn format_signed(value: i32) -> (text: Vec<u8>)
    ensures
        text@ == decimal(value as int),
{
    format_integer(value as i64)
}

/// The decimal text of an unsigned integer.
pub fn format_unsigned(value: u32) -> (text: Vec<u8>)
    ensures
        text@ == decimal(value as int),
{
    format_integer(value as i64)
}

/// Digits are digits: every byte of `digits(n)` lies between `0` and `9`, there
/// is at least one, and the first is `0` only for `n == 0`.
pub proof fn lemma_digits_shape(n: nat)
    ensures
        digits(n).len() >= 1,
        forall|i: int| 0 <= i < digits(n).len() ==> ZERO <= #[trigger] digits(n)[i] <= ZERO + 9,
        digits(n)[0] == ZERO ==> n == 0,
    decreases n,
{
    if n >= 10 {
        lemma_digits_shape(n / 10);
    }
}

/// Reading the digits of `n` gives `n` back.
pub proof fn lemma_digits_round_trip(n: nat)
    ensures
        digits_value(digits(n)) == n,
    decreases n,
{
    if n < 10 {
        let text = digits(n);
        assert(text.drop_last().len() == 0);
        assert(digits_value(text.drop_last()) == 0);
    } else {
        lemma_digits_round_trip(n / 10);
        let text = digits(n);
        assert(text.drop_last() =~= digits(n / 10));
    }
}

/// Reading the decimal text of any integer gives that integer back.
pub proof fn lemma_decimal_round_trip(value: int)
    ensures
        parse_decimal(decimal(value)) == value,
{
    if value < 0 {
        let n = (-value) as nat;
        lemma_digits_round_trip(n);
        assert(decimal(value).skip(1) =~= digits(n));
    } else {
        let n = value as nat;
        lemma_digits_round_trip(n);
        lemma_digits_shape(n);
    }
}

/// What the two formatters return reads back as their argument: a signed value
/// through its text, and an unsigned value through its text.
pub proof fn lemma_formatted_round_trip(signed: i32, unsigned: u32)
    ensures
        parse_decimal(decimal(signed as int)) == signed,
        parse_decimal(decimal(unsigned as int)) == unsigned,
{
    lemma_decimal_round_trip(signed as int);
    lemma_decimal_round_trip(unsigned as int);
}

} // verus!
