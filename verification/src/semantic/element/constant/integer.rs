//! The semantic analyzer constant integer element.

use crate::number::bigint_from_usize;
use crate::number::bigint_lt;
use crate::number::bigint_mul;
use crate::number::bigint_to_string;
use crate::number::bigint_value;
use crate::number::signed_decimal;
use crate::semantic::element::types::Type;
use crate::semantic::element::types::BITLENGTH_BYTE;
use num_bigint::BigInt;
use vstd::arithmetic::power2::lemma2_to64;
use vstd::arithmetic::power2::lemma_pow2_adds;
use vstd::arithmetic::power2::pow2;
use vstd::prelude::*;

verus! {

/// The greatest number of bits of an integer type.
pub const BITLENGTH_MAX_INT: usize = 248;

/// Why a number is no integer constant.
#[derive(Debug)]
pub enum Error {
    /// The number, as it is written, does not fit the given number of bits.
    IntegerTooLarge(String, usize),
}

/// An error, with its text as a sequence of characters.
pub enum ErrorModel {
    IntegerTooLarge(Seq<char>, usize),
}

impl View for Error {
    type V = ErrorModel;

    open spec fn view(&self) -> ErrorModel {
        match self {
            Error::IntegerTooLarge(text, bitlength) => ErrorModel::IntegerTooLarge(
                text@,
                *bitlength,
            ),
        }
    }
}

/// The number of bits that an unsigned integer takes, counted in whole
/// bytes from `bitlength` on: the first number of bits, not more than the
/// greatest, that holds the value.
pub open spec fn bits_from(value: int, bitlength: nat) -> nat
    decreases BITLENGTH_MAX_INT + 8 - bitlength,
{
    if value < pow2(bitlength) || bitlength >= BITLENGTH_MAX_INT {
        bitlength
    } else {
        bits_from(value, bitlength + 8)
    }
}

/// The number of bits of the smallest unsigned integer type that holds the
/// value: whole bytes, one at least.
pub open spec fn minimal_bits(value: int) -> nat {
    bits_from(value, BITLENGTH_BYTE as nat)
}

/// Whether some integer type holds the value.
pub open spec fn fits(value: int) -> bool {
    value < pow2(BITLENGTH_MAX_INT as nat)
}

/// The most bits that the first `count` of the values take; none for no
/// value.
pub open spec fn most_bits(values: Seq<int>, count: nat) -> nat
    decreases count,
{
    if count == 0 || count > values.len() {
        0
    } else if minimal_bits(values[count - 1]) > most_bits(values, (count - 1) as nat) {
        minimal_bits(values[count - 1])
    } else {
        most_bits(values, (count - 1) as nat)
    }
}

/// An integer constant: its value, whether it has a sign, and how many bits
/// its type has.
#[derive(Debug)]
pub struct IntegerConstant {
    pub value: BigInt,
    pub is_signed: bool,
    pub bitlength: usize,
}

impl IntegerConstant {
    pub fn new(value: BigInt, is_signed: bool, bitlength: usize) -> (constant: Self)
        ensures
            constant.value == value,
            constant.is_signed == is_signed,
            constant.bitlength == bitlength,
    {
        Self { value, is_signed, bitlength }
    }

    /// The type of the constant.
    pub fn type_of(&self) -> (result: Type)
        ensures
            result == if self.is_signed {
                Type::IntegerSigned { bitlength: self.bitlength }
            } else {
                Type::IntegerUnsigned { bitlength: self.bitlength }
            },
    {
        Type::new_integer(self.is_signed, self.bitlength)
    }

    /// The number of bits of the smallest unsigned integer type that holds
    /// `value`. A value that no integer type holds is an error.
    pub fn minimal_bitlength(value: &BigInt) -> (res: Result<usize, Error>)
        ensures
            match res {
                Ok(bitlength) => fits(bigint_value(*value)) && bitlength == minimal_bits(
                    bigint_value(*value),
                ),
                Err(e) => !fits(bigint_value(*value)) && e@ == ErrorModel::IntegerTooLarge(
                    signed_decimal(bigint_value(*value)),
                    BITLENGTH_MAX_INT,
                ),
            },
    {
        let byte = bigint_from_usize(256);
        let mut bitlength: usize = BITLENGTH_BYTE;
        let mut exponent = bigint_from_usize(256);
        proof {
            lemma2_to64();
        }
        while !bigint_lt(value, &exponent)
            invariant
                bigint_value(byte) == 256,
                BITLENGTH_BYTE <= bitlength <= BITLENGTH_MAX_INT,
                bitlength % 8 == 0,
                bigint_value(exponent) == pow2(bitlength as nat),
                minimal_bits(bigint_value(*value)) == bits_from(
                    bigint_value(*value),
                    bitlength as nat,
                ),
            decreases BITLENGTH_MAX_INT - bitlength,
        {
            if bitlength == BITLENGTH_MAX_INT {
                return Err(Error::IntegerTooLarge(bigint_to_string(value), BITLENGTH_MAX_INT));
            }
            proof {
                lemma_pow2_adds(bitlength as nat, 8);
                lemma2_to64();
            }
            exponent = bigint_mul(&exponent, &byte);
            bitlength = bitlength + BITLENGTH_BYTE;
        }
        proof {
            if bitlength < BITLENGTH_MAX_INT {
                vstd::arithmetic::power2::lemma_pow2_strictly_increases(
                    bitlength as nat,
                    BITLENGTH_MAX_INT as nat,
                );
            }
        }
        Ok(bitlength)
    }

    /// The number of bits of the smallest unsigned integer type that holds
    /// every one of `values`; no bit for no value. The first value that no
    /// integer type holds is an error.
    pub fn minimal_bitlength_bigints(values: &[BigInt]) -> (res: Result<usize, Error>)
        ensures
            match res {
                Ok(bitlength) => {
                    &&& forall|i: int|
                        0 <= i < values@.len() ==> fits(bigint_value(#[trigger] values@[i]))
                    &&& bitlength == most_bits(integers(values@), values@.len())
                },
                Err(e) => exists|i: int|
                    {
                        &&& 0 <= i < values@.len()
                        &&& !fits(bigint_value(#[trigger] values@[i]))
                        &&& forall|j: int| 0 <= j < i ==> fits(bigint_value(#[trigger] values@[j]))
                        &&& e@ == ErrorModel::IntegerTooLarge(
                            signed_decimal(bigint_value(values@[i])),
                            BITLENGTH_MAX_INT,
                        )
                    },
            },
    {
        let mut max: usize = 0;
        let mut i: usize = 0;
        while i < values.len()
            invariant
                i <= values.len(),
                forall|j: int| 0 <= j < i ==> fits(bigint_value(#[trigger] values@[j])),
                max == most_bits(integers(values@), i as nat),
            decreases values.len() - i,
        {
            let bitlength = match Self::minimal_bitlength(&values[i]) {
                Ok(bitlength) => bitlength,
                Err(e) => {
                    return Err(e);
                },
            };
            if bitlength > max {
                max = bitlength;
            }
            i = i + 1;
        }
        Ok(max)
    }
}

/// The integers that numbers hold.
pub open spec fn integers(numbers: Seq<BigInt>) -> Seq<int> {
    Seq::new(numbers.len(), |i: int| bigint_value(numbers[i]))
}

} // verus!
