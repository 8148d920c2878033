//! The semantic analyzer constant range inclusive element.

use crate::number::bigint_to_string;
use crate::number::bigint_value;
use crate::number::signed_decimal;
use crate::semantic::element::types::Type;
use crate::semantic::element::types::BITLENGTH_BOOLEAN;
use crate::semantic::element::types::BITLENGTH_FIELD;
use num_bigint::BigInt;
use vstd::prelude::*;

verus! {

/// Inclusive range is a constant with the `start` and inclusive `end`
/// bounds, sign, and bitlength.
///
/// Ranges are used mostly as loop bounds and the array slice operator
/// argument.
#[derive(Debug)]
pub struct RangeInclusive {
    pub start: BigInt,
    pub end: BigInt,
    pub is_signed: bool,
    pub bitlength: usize,
}

impl RangeInclusive {
    pub fn new(start: BigInt, end: BigInt, is_signed: bool, bitlength: usize) -> (range: Self)
        ensures
            range.start == start,
            range.end == end,
            range.is_signed == is_signed,
            range.bitlength == bitlength,
    {
        Self { start, end, is_signed, bitlength }
    }

    /// The type of the bounds.
    pub open spec fn bounds(&self) -> Type {
        if self.is_signed {
            Type::IntegerSigned { bitlength: self.bitlength }
        } else if self.bitlength == BITLENGTH_BOOLEAN {
            Type::Boolean
        } else if self.bitlength == BITLENGTH_FIELD {
            Type::Field
        } else {
            Type::IntegerUnsigned { bitlength: self.bitlength }
        }
    }

    /// The type of the bounds: the number type of the range's sign and
    /// bitlength.
    pub fn bounds_type(&self) -> (result: Type)
        ensures
            result == self.bounds(),
    {
        Type::new_numeric(self.is_signed, self.bitlength)
    }

    /// Whether two ranges are of the same type: ranges are, where their
    /// bounds are.
    pub fn has_the_same_type_as(&self, other: &Self) -> (same: bool)
        ensures
            same == self.bounds().same(&other.bounds()),
    {
        self.bounds_type().is_same_as(&other.bounds_type())
    }

    /// The range as it is shown.
    pub open spec fn text(&self) -> Seq<char> {
        "range '"@ + signed_decimal(bigint_value(self.start)) + " .. "@ + signed_decimal(
            bigint_value(self.end),
        ) + "' of type '"@ + self.bounds().text() + "'"@
    }

    /// Writes the range.
    pub fn to_string(&self) -> (text: String)
        ensures
            text@ == self.text(),
    {
        let mut text = "range '".to_owned();
        text.append(bigint_to_string(&self.start).as_str());
        text.append(" .. ");
        text.append(bigint_to_string(&self.end).as_str());
        text.append("' of type '");
        text.append(self.bounds_type().to_string().as_str());
        text.append("'");
        text
    }
}

} // verus!
