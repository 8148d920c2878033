//! Arbitrary-precision integers.
//!
//! The numbers themselves are `num_bigint::BigInt` values. Verus does not look
//! inside them: each function of this module states, without proof, what one
//! operation of `num_bigint` does to the integers that the numbers stand for.

use crate::text::decimal;
use num_bigint::BigInt;
use num_bigint::Sign;
use vstd::prelude::*;

verus! {

/// `num_bigint::BigInt`, of which only `bigint_value` is known.
#[verifier::external_type_specification]
#[verifier::external_body]
pub struct ExBigInt(BigInt);

/// The mathematical integer that a number holds.
pub uninterp spec fn bigint_value(number: BigInt) -> int;

/// An integer in decimal notation, with a minus sign before a negative one.
pub open spec fn signed_decimal(value: int) -> Seq<char> {
    if value < 0 {
        seq!['-'] + decimal((-value) as nat)
    } else {
        decimal(value as nat)
    }
}

/// The bytes of a magnitude, the lowest first, without a zero at the high
/// end; no byte for zero.
pub open spec fn digits(magnitude: nat) -> Seq<u8>
    decreases magnitude,
{
    if magnitude == 0 {
        Seq::empty()
    } else {
        seq![(magnitude % 256) as u8] + digits(magnitude / 256)
    }
}

/// The number that bytes stand for, the lowest first.
pub open spec fn le_value(bytes: Seq<u8>) -> nat
    decreases bytes.len(),
{
    if bytes.len() == 0 {
        0
    } else {
        bytes[0] as nat + 256 * le_value(bytes.skip(1))
    }
}

/// The bytes of the magnitude of a number as `num_bigint` gives them: the
/// lowest first, as few as hold the magnitude, and a single zero for zero.
pub open spec fn magnitude_bytes(value: int) -> Seq<u8> {
    if value == 0 {
        seq![0u8]
    } else if value < 0 {
        digits((-value) as nat)
    } else {
        digits(value as nat)
    }
}

/// The number with the given sign and the magnitude that the bytes stand
/// for.
pub open spec fn signed(negative: bool, bytes: Seq<u8>) -> int {
    if negative {
        -(le_value(bytes) as int)
    } else {
        le_value(bytes) as int
    }
}

/// The quotient of a division that rounds toward zero.
pub open spec fn truncated_quotient(dividend: int, divisor: int) -> int {
    if dividend >= 0 && divisor > 0 {
        dividend / divisor
    } else if dividend >= 0 {
        -(dividend / (-divisor))
    } else if divisor > 0 {
        -((-dividend) / divisor)
    } else {
        (-dividend) / (-divisor)
    }
}

/// The remainder that goes with `truncated_quotient`; it has the sign of the
/// dividend.
pub open spec fn truncated_remainder(dividend: int, divisor: int) -> int {
    dividend - truncated_quotient(dividend, divisor) * divisor
}

/// `BigInt::from` on a `usize`: the number holds exactly that integer.
#[verifier::external_body]
pub(crate) fn bigint_from_usize(value: usize) -> (number: BigInt)
    ensures
        bigint_value(number) == value,
{
    BigInt::from(value)
}

/// `usize::try_from` on a `&BigInt`: the conversion succeeds exactly on the
/// integers that a `usize` can hold, and then keeps the integer.
#[verifier::external_body]
pub(crate) fn bigint_to_usize(number: &BigInt) -> (value: Option<usize>)
    ensures
        value.is_some() == (0 <= bigint_value(*number) <= usize::MAX),
        value matches Some(v) ==> v == bigint_value(*number),
{
    usize::try_from(number).ok()
}

/// `BigInt::clone`: the copy holds the same integer.
#[verifier::external_body]
pub(crate) fn bigint_clone(number: &BigInt) -> (copy: BigInt)
    ensures
        bigint_value(copy) == bigint_value(*number),
{
    number.clone()
}

/// `&BigInt + &BigInt`: exact addition.
#[verifier::external_body]
pub(crate) fn bigint_add(left: &BigInt, right: &BigInt) -> (sum: BigInt)
    ensures
        bigint_value(sum) == bigint_value(*left) + bigint_value(*right),
{
    left + right
}

/// `&BigInt - &BigInt`: exact subtraction.
#[verifier::external_body]
pub(crate) fn bigint_sub(left: &BigInt, right: &BigInt) -> (difference: BigInt)
    ensures
        bigint_value(difference) == bigint_value(*left) - bigint_value(*right),
{
    left - right
}

/// `&BigInt * &BigInt`: exact multiplication.
#[verifier::external_body]
pub(crate) fn bigint_mul(left: &BigInt, right: &BigInt) -> (product: BigInt)
    ensures
        bigint_value(product) == bigint_value(*left) * bigint_value(*right),
{
    left * right
}

/// `&BigInt / &BigInt`: the quotient rounded toward zero. The division panics
/// on a zero divisor, which the precondition leaves out.
#[verifier::external_body]
pub(crate) fn bigint_div(dividend: &BigInt, divisor: &BigInt) -> (quotient: BigInt)
    requires
        bigint_value(*divisor) != 0,
    ensures
        bigint_value(quotient) == truncated_quotient(
            bigint_value(*dividend),
            bigint_value(*divisor),
        ),
{
    dividend / divisor
}

/// `&BigInt % &BigInt`: the remainder of the division that rounds toward
/// zero. It panics on a zero divisor, which the precondition leaves out.
#[verifier::external_body]
pub(crate) fn bigint_rem(dividend: &BigInt, divisor: &BigInt) -> (remainder: BigInt)
    requires
        bigint_value(*divisor) != 0,
    ensures
        bigint_value(remainder) == truncated_remainder(
            bigint_value(*dividend),
            bigint_value(*divisor),
        ),
{
    dividend % divisor
}

/// `BigInt`'s `<`: the order of the integers.
#[verifier::external_body]
pub(crate) fn bigint_lt(left: &BigInt, right: &BigInt) -> (less: bool)
    ensures
        less == (bigint_value(*left) < bigint_value(*right)),
{
    left < right
}

/// `BigInt`'s `==`: two numbers are equal exactly when their integers are.
#[verifier::external_body]
pub(crate) fn bigint_eq(left: &BigInt, right: &BigInt) -> (equal: bool)
    ensures
        equal == (bigint_value(*left) == bigint_value(*right)),
{
    left == right
}

/// `BigInt::to_string`: the number in decimal notation, with a minus sign
/// before a negative one.
#[verifier::external_body]
pub(crate) fn bigint_to_string(number: &BigInt) -> (text: String)
    ensures
        text@ == signed_decimal(bigint_value(*number)),
{
    number.to_string()
}

/// `BigInt::to_bytes_le`: whether the number is negative, and the bytes of
/// its magnitude, the lowest first, as few as hold it (one zero byte for
/// zero).
#[verifier::external_body]
pub(crate) fn bigint_to_bytes(number: &BigInt) -> (parts: (bool, Vec<u8>))
    ensures
        parts.0 == (bigint_value(*number) < 0),
        parts.1@ == magnitude_bytes(bigint_value(*number)),
{
    match number.to_bytes_le() {
        (Sign::Minus, bytes) => (true, bytes),
        (Sign::NoSign, bytes) => (false, bytes),
        (Sign::Plus, bytes) => (false, bytes),
    }
}

/// `BigInt::from_bytes_le` with the sign of a positive number: the number
/// that the bytes stand for, the lowest first. No bytes stand for zero.
#[verifier::external_body]
pub(crate) fn bigint_from_bytes(bytes: &[u8]) -> (number: BigInt)
    ensures
        bigint_value(number) == le_value(bytes@),
{
    BigInt::from_bytes_le(Sign::Plus, bytes)
}

} // verus!
