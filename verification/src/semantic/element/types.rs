//! The semantic analyzer type element.

use crate::number::bigint_clone;
use crate::number::bigint_value;
use crate::number::signed_decimal;
use crate::semantic::element::constant::integer::fits;
use crate::semantic::element::constant::integer::integers;
use crate::semantic::element::constant::integer::most_bits;
use crate::semantic::element::constant::integer::ErrorModel as IntegerConstantErrorModel;
use crate::semantic::element::constant::integer::IntegerConstant;
use crate::semantic::element::constant::integer::BITLENGTH_MAX_INT;
use crate::semantic::error::Error;
use crate::semantic::error::ErrorModel;
use crate::syntax::tree::identifier::Identifier;
use crate::text::decimal;
use crate::text::decimal_text;
use num_bigint::BigInt;
use vstd::prelude::*;

verus! {

/// The values of the variants of an enumeration.
pub open spec fn variant_values(variants: Seq<(Identifier, BigInt)>) -> Seq<int> {
    Seq::new(variants.len(), |i: int| bigint_value(variants[i].1))
}

/// The number of bits of a boolean.
pub const BITLENGTH_BOOLEAN: usize = 1;

/// The number of bits of a byte.
pub const BITLENGTH_BYTE: usize = 8;

/// The number of bits of a field element.
pub const BITLENGTH_FIELD: usize = 254;

/// A type of the source language.
#[derive(Debug)]
pub enum Type {
    Unit,
    Boolean,
    IntegerUnsigned { bitlength: usize },
    IntegerSigned { bitlength: usize },
    Field,
    Array { element: Box<Type>, size: usize },
    Tuple { types: Vec<Type> },
    Structure { identifier: String, fields: Vec<(String, Type)> },
    Enumeration { identifier: String, bitlength: usize },
    Function { identifier: String, arguments: Vec<(String, Type)>, return_type: Box<Type> },
    String,
}

impl Type {
    /// How many cells of the data memory a value of the type takes.
    pub open spec fn cells(&self) -> nat
        decreases self,
    {
        match self {
            Type::Unit => 0,
            Type::Boolean => 1,
            Type::IntegerUnsigned { .. } => 1,
            Type::IntegerSigned { .. } => 1,
            Type::Field => 1,
            Type::Array { element, size } => element.cells() * (*size as nat),
            Type::Tuple { types } => Self::cells_of(types@, types@.len()),
            Type::Structure { fields, .. } => Self::cells_of_fields(fields@, fields@.len()),
            Type::Enumeration { .. } => 1,
            Type::Function { .. } => 0,
            Type::String => 0,
        }
    }

    /// The cells of the first `count` of some types together.
    pub open spec fn cells_of(types: Seq<Type>, count: nat) -> nat
        decreases types, count,
    {
        if count == 0 || count > types.len() {
            0
        } else {
            Self::cells_of(types, (count - 1) as nat) + types[count - 1].cells()
        }
    }

    /// The cells of the first `count` of some fields together.
    pub open spec fn cells_of_fields(fields: Seq<(String, Type)>, count: nat) -> nat
        decreases fields, count,
    {
        if count == 0 || count > fields.len() {
            0
        } else {
            Self::cells_of_fields(fields, (count - 1) as nat) + fields[count - 1].1.cells()
        }
    }

    /// The type as it is written.
    pub open spec fn text(&self) -> Seq<char>
        decreases self,
    {
        match self {
            Type::Unit => "()"@,
            Type::Boolean => "bool"@,
            Type::IntegerUnsigned { bitlength } => "u"@ + decimal(*bitlength as nat),
            Type::IntegerSigned { bitlength } => "i"@ + decimal(*bitlength as nat),
            Type::Field => "field"@,
            Type::Array { element, size } => "["@ + element.text() + "; "@ + decimal(*size as nat)
                + "]"@,
            Type::Tuple { types } => "("@ + Self::text_of(types@, types@.len()) + ")"@,
            Type::Structure { identifier, fields } => "struct "@ + identifier@ + " { "@
                + Self::text_of_fields(fields@, fields@.len()) + " }"@,
            Type::Enumeration { identifier, .. } => "enum "@ + identifier@,
            Type::Function { identifier, arguments, return_type } => "fn "@ + identifier@ + "("@
                + Self::text_of_fields(arguments@, arguments@.len()) + ") -> "@
                + return_type.text(),
            Type::String => "&str"@,
        }
    }

    /// The first `count` of some types as they are written, with a comma and
    /// a space between one and the next.
    pub open spec fn text_of(types: Seq<Type>, count: nat) -> Seq<char>
        decreases types, count,
    {
        if count == 0 || count > types.len() {
            Seq::empty()
        } else if count == 1 {
            types[0].text()
        } else {
            Self::text_of(types, (count - 1) as nat) + ", "@ + types[count - 1].text()
        }
    }

    /// The first `count` of some fields as they are written, each as its
    /// name, a colon, a space and its type, with a comma and a space between
    /// one and the next.
    pub open spec fn text_of_fields(fields: Seq<(String, Type)>, count: nat) -> Seq<char>
        decreases fields, count,
    {
        if count == 0 || count > fields.len() {
            Seq::empty()
        } else if count == 1 {
            fields[0].0@ + ": "@ + fields[0].1.text()
        } else {
            Self::text_of_fields(fields, (count - 1) as nat) + ", "@ + fields[count - 1].0@
                + ": "@ + fields[count - 1].1.text()
        }
    }

    pub fn new_integer(is_signed: bool, bitlength: usize) -> (result: Self)
        ensures
            result == if is_signed {
                Type::IntegerSigned { bitlength }
            } else {
                Type::IntegerUnsigned { bitlength }
            },
    {
        if is_signed {
            Self::new_integer_signed(bitlength)
        } else {
            Self::new_integer_unsigned(bitlength)
        }
    }

    /// The type of a number of `bitlength` bits: a signed integer where it
    /// has a sign; otherwise the boolean for one bit, the field element for
    /// the bits of the field, and an unsigned integer for any other length.
    pub fn new_numeric(is_signed: bool, bitlength: usize) -> (result: Self)
        ensures
            result == if is_signed {
                Type::IntegerSigned { bitlength }
            } else if bitlength == BITLENGTH_BOOLEAN {
                Type::Boolean
            } else if bitlength == BITLENGTH_FIELD {
                Type::Field
            } else {
                Type::IntegerUnsigned { bitlength }
            },
    {
        if is_signed {
            Self::new_integer_signed(bitlength)
        } else if bitlength == BITLENGTH_BOOLEAN {
            Type::Boolean
        } else if bitlength == BITLENGTH_FIELD {
            Type::Field
        } else {
            Self::new_integer_unsigned(bitlength)
        }
    }

    pub fn new_unit() -> (result: Self)
        ensures
            result == Type::Unit,
    {
        Type::Unit
    }

    pub fn new_boolean() -> (result: Self)
        ensures
            result == Type::Boolean,
    {
        Type::Boolean
    }

    pub fn new_integer_unsigned(bitlength: usize) -> (result: Self)
        ensures
            result == (Type::IntegerUnsigned { bitlength }),
    {
        Type::IntegerUnsigned { bitlength }
    }

    pub fn new_integer_signed(bitlength: usize) -> (result: Self)
        ensures
            result == (Type::IntegerSigned { bitlength }),
    {
        Type::IntegerSigned { bitlength }
    }

    pub fn new_field() -> (result: Self)
        ensures
            result == Type::Field,
    {
        Type::Field
    }

    pub fn new_array(element: Self, size: usize) -> (result: Self)
        ensures
            result == (Type::Array { element: Box::new(element), size }),
    {
        Type::Array { element: Box::new(element), size }
    }

    pub fn new_tuple(types: Vec<Self>) -> (result: Self)
        ensures
            result == (Type::Tuple { types }),
    {
        Type::Tuple { types }
    }

    pub fn new_structure(identifier: String, fields: Vec<(String, Self)>) -> (result: Self)
        ensures
            result == (Type::Structure { identifier, fields }),
    {
        Type::Structure { identifier, fields }
    }

    /// The enumeration with the given name and variants. Its values take
    /// the bits of the smallest unsigned integer type that holds the value
    /// of every variant; a variant that no integer type holds is an error at
    /// the place of the enumeration's name.
    pub fn new_enumeration(identifier: Identifier, variants: Vec<(Identifier, BigInt)>) -> (res:
        Result<Self, Error>)
        ensures
            match res {
                Ok(result) => {
                    &&& forall|i: int|
                        0 <= i < variants@.len() ==> fits(bigint_value((#[trigger] variants@[i]).1))
                    &&& result == (Type::Enumeration {
                        identifier: identifier.name,
                        bitlength: most_bits(variant_values(variants@), variants@.len()) as usize,
                    })
                },
                Err(e) => exists|i: int|
                    {
                        &&& 0 <= i < variants@.len()
                        &&& !fits(bigint_value((#[trigger] variants@[i]).1))
                        &&& forall|j: int|
                            0 <= j < i ==> fits(bigint_value((#[trigger] variants@[j]).1))
                        &&& e@ == ErrorModel::InferenceConstant(
                            identifier.location,
                            IntegerConstantErrorModel::IntegerTooLarge(
                                signed_decimal(bigint_value(variants@[i].1)),
                                BITLENGTH_MAX_INT,
                            ),
                        )
                    },
            },
    {
        let mut values: Vec<BigInt> = Vec::new();
        let mut i: usize = 0;
        while i < variants.len()
            invariant
                i <= variants.len(),
                values@.len() == i,
                forall|j: int|
                    0 <= j < i ==> bigint_value(#[trigger] values@[j]) == bigint_value(
                        variants@[j].1,
                    ),
            decreases variants.len() - i,
        {
            values.push(bigint_clone(&variants[i].1));
            i = i + 1;
        }
        assert(integers(values@) =~= variant_values(variants@));
        match IntegerConstant::minimal_bitlength_bigints(values.as_slice()) {
            Ok(bitlength) => {
                assert forall|i: int| 0 <= i < variants@.len() implies fits(
                    bigint_value((#[trigger] variants@[i]).1),
                ) by {
                    assert(fits(bigint_value(values@[i])));
                }
                Ok(Type::Enumeration { identifier: identifier.name, bitlength })
            },
            Err(error) => {
                proof {
                    let i = choose|i: int|
                        {
                            &&& 0 <= i < values@.len()
                            &&& !fits(bigint_value(#[trigger] values@[i]))
                            &&& forall|j: int|
                                0 <= j < i ==> fits(bigint_value(#[trigger] values@[j]))
                            &&& error@ == IntegerConstantErrorModel::IntegerTooLarge(
                                signed_decimal(bigint_value(values@[i])),
                                BITLENGTH_MAX_INT,
                            )
                        };
                    assert(!fits(bigint_value(variants@[i].1)));
                    assert forall|j: int| 0 <= j < i implies fits(
                        bigint_value((#[trigger] variants@[j]).1),
                    ) by {
                        assert(fits(bigint_value(values@[j])));
                    }
                }
                Err(Error::InferenceConstant(identifier.location, error))
            },
        }
    }

    pub fn new_function(identifier: String, arguments: Vec<(String, Self)>, return_type: Self) -> (result:
        Self)
        ensures
            result == (Type::Function {
                identifier,
                arguments,
                return_type: Box::new(return_type),
            }),
    {
        Type::Function { identifier, arguments, return_type: Box::new(return_type) }
    }

    pub fn new_string() -> (result: Self)
        ensures
            result == Type::String,
    {
        Type::String
    }

    /// How many cells of the data memory a value of the type takes. The
    /// number has to fit a `usize`.
    pub fn size(&self) -> (size: usize)
        requires
            self.cells() <= usize::MAX,
        ensures
            size == self.cells(),
        decreases self,
    {
        match self {
            Type::Unit => 0,
            Type::Boolean => 1,
            Type::IntegerUnsigned { .. } => 1,
            Type::IntegerSigned { .. } => 1,
            Type::Field => 1,
            Type::Array { element, size } => {
                if *size == 0 {
                    assert(element.cells() * 0 == 0);
                    0
                } else {
                    assert(element.cells() <= element.cells() * (*size as nat))
                        by (nonlinear_arith)
                        requires
                            *size >= 1,
                    ;
                    element.size() * *size
                }
            },
            Type::Tuple { types } => Self::size_of(types, types.len()),
            Type::Structure { fields, .. } => Self::size_of_fields(fields, fields.len()),
            Type::Enumeration { .. } => 1,
            Type::Function { .. } => 0,
            Type::String => 0,
        }
    }

    fn size_of(types: &Vec<Type>, count: usize) -> (size: usize)
        requires
            count <= types.len(),
            Self::cells_of(types@, count as nat) <= usize::MAX,
        ensures
            size == Self::cells_of(types@, count as nat),
        decreases types@, count,
    {
        if count == 0 {
            0
        } else {
            Self::size_of(types, count - 1) + types[count - 1].size()
        }
    }

    fn size_of_fields(fields: &Vec<(String, Type)>, count: usize) -> (size: usize)
        requires
            count <= fields.len(),
            Self::cells_of_fields(fields@, count as nat) <= usize::MAX,
        ensures
            size == Self::cells_of_fields(fields@, count as nat),
        decreases fields@, count,
    {
        if count == 0 {
            0
        } else {
            Self::size_of_fields(fields, count - 1) + fields[count - 1].1.size()
        }
    }

    /// Writes the type.
    pub fn to_string(&self) -> (text: String)
        ensures
            text@ == self.text(),
        decreases self,
    {
        match self {
            Type::Unit => "()".to_owned(),
            Type::Boolean => "bool".to_owned(),
            Type::IntegerUnsigned { bitlength } => {
                let mut text = "u".to_owned();
                text.append(decimal_text(*bitlength).as_str());
                text
            },
            Type::IntegerSigned { bitlength } => {
                let mut text = "i".to_owned();
                text.append(decimal_text(*bitlength).as_str());
                text
            },
            Type::Field => "field".to_owned(),
            Type::Array { element, size } => {
                let mut text = "[".to_owned();
                text.append(element.to_string().as_str());
                text.append("; ");
                text.append(decimal_text(*size).as_str());
                text.append("]");
                text
            },
            Type::Tuple { types } => {
                let mut text = "(".to_owned();
                text.append(Self::write_types(types, types.len()).as_str());
                text.append(")");
                text
            },
            Type::Structure { identifier, fields } => {
                let mut text = "struct ".to_owned();
                text.append(identifier.as_str());
                text.append(" { ");
                text.append(Self::write_fields(fields, fields.len()).as_str());
                text.append(" }");
                text
            },
            Type::Enumeration { identifier, .. } => {
                let mut text = "enum ".to_owned();
                text.append(identifier.as_str());
                text
            },
            Type::Function { identifier, arguments, return_type } => {
                let mut text = "fn ".to_owned();
                text.append(identifier.as_str());
                text.append("(");
                text.append(Self::write_fields(arguments, arguments.len()).as_str());
                text.append(") -> ");
                text.append(return_type.to_string().as_str());
                text
            },
            Type::String => "&str".to_owned(),
        }
    }

    fn write_types(types: &Vec<Type>, count: usize) -> (text: String)
        requires
            count <= types.len(),
        ensures
            text@ == Self::text_of(types@, count as nat),
        decreases types@, count,
    {
        if count == 0 {
            String::new()
        } else if count == 1 {
            types[0].to_string()
        } else {
            let mut text = Self::write_types(types, count - 1);
            text.append(", ");
            text.append(types[count - 1].to_string().as_str());
            text
        }
    }

    fn write_fields(fields: &Vec<(String, Type)>, count: usize) -> (text: String)
        requires
            count <= fields.len(),
        ensures
            text@ == Self::text_of_fields(fields@, count as nat),
        decreases fields@, count,
    {
        if count == 0 {
            String::new()
        } else if count == 1 {
            let mut text = fields[0].0.clone();
            text.append(": ");
            text.append(fields[0].1.to_string().as_str());
            text
        } else {
            let mut text = Self::write_fields(fields, count - 1);
            text.append(", ");
            text.append(fields[count - 1].0.as_str());
            text.append(": ");
            text.append(fields[count - 1].1.to_string().as_str());
            text
        }
    }
}

} // verus!
