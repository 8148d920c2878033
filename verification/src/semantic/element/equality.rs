//! When two types are the same.

use crate::semantic::element::types::Type;
use vstd::prelude::*;
use vstd::std_specs::cmp::PartialEqSpecImpl;

verus! {

impl Type {
    /// Whether two types are the same. The types without a name are the same
    /// where they are built alike from the same types; the types with a
    /// name, the structures, enumerations and functions, where they have the
    /// same name.
    pub open spec fn same(&self, other: &Type) -> bool
        decreases self,
    {
        match (self, other) {
            (Type::Unit, Type::Unit) => true,
            (Type::Boolean, Type::Boolean) => true,
            (Type::IntegerUnsigned { bitlength: b1 }, Type::IntegerUnsigned { bitlength: b2 }) => b1
                == b2,
            (Type::IntegerSigned { bitlength: b1 }, Type::IntegerSigned { bitlength: b2 }) => b1
                == b2,
            (Type::Field, Type::Field) => true,
            (
                Type::Array { element: element_1, size: size_1 },
                Type::Array { element: element_2, size: size_2 },
            ) => element_1.same(element_2) && size_1 == size_2,
            (Type::Tuple { types: types_1 }, Type::Tuple { types: types_2 }) => types_1@.len()
                == types_2@.len() && Self::same_all(types_1@, types_2@, types_1@.len()),
            (
                Type::Structure { identifier: identifier_1, .. },
                Type::Structure { identifier: identifier_2, .. },
            ) => identifier_1@ == identifier_2@,
            (
                Type::Enumeration { identifier: identifier_1, .. },
                Type::Enumeration { identifier: identifier_2, .. },
            ) => identifier_1@ == identifier_2@,
            (
                Type::Function { identifier: identifier_1, .. },
                Type::Function { identifier: identifier_2, .. },
            ) => identifier_1@ == identifier_2@,
            (Type::String, Type::String) => true,
            _ => false,
        }
    }

    /// Whether the first `count` types of two sequences are the same, one by
    /// one.
    pub open spec fn same_all(left: Seq<Type>, right: Seq<Type>, count: nat) -> bool
        decreases left, count,
    {
        if count == 0 {
            true
        } else if count > left.len() || count > right.len() {
            false
        } else {
            Self::same_all(left, right, (count - 1) as nat) && left[count - 1].same(
                &right[count - 1],
            )
        }
    }

    /// Whether two types are the same.
    pub fn is_same_as(&self, other: &Type) -> (same: bool)
        ensures
            same == self.same(other),
        decreases self,
    {
        match (self, other) {
            (Type::Unit, Type::Unit) => true,
            (Type::Boolean, Type::Boolean) => true,
            (Type::IntegerUnsigned { bitlength: b1 }, Type::IntegerUnsigned { bitlength: b2 }) => {
                *b1 == *b2
            },
            (Type::IntegerSigned { bitlength: b1 }, Type::IntegerSigned { bitlength: b2 }) => {
                *b1 == *b2
            },
            (Type::Field, Type::Field) => true,
            (
                Type::Array { element: element_1, size: size_1 },
                Type::Array { element: element_2, size: size_2 },
            ) => element_1.is_same_as(element_2) && *size_1 == *size_2,
            (Type::Tuple { types: types_1 }, Type::Tuple { types: types_2 }) => {
                types_1.len() == types_2.len() && Self::are_same(types_1, types_2, types_1.len())
            },
            (
                Type::Structure { identifier: identifier_1, .. },
                Type::Structure { identifier: identifier_2, .. },
            ) => *identifier_1 == *identifier_2,
            (
                Type::Enumeration { identifier: identifier_1, .. },
                Type::Enumeration { identifier: identifier_2, .. },
            ) => *identifier_1 == *identifier_2,
            (
                Type::Function { identifier: identifier_1, .. },
                Type::Function { identifier: identifier_2, .. },
            ) => *identifier_1 == *identifier_2,
            (Type::String, Type::String) => true,
            _ => false,
        }
    }

    fn are_same(left: &Vec<Type>, right: &Vec<Type>, count: usize) -> (same: bool)
        requires
            count <= left.len(),
            count <= right.len(),
        ensures
            same == Self::same_all(left@, right@, count as nat),
        decreases left@, count,
    {
        if count == 0 {
            true
        } else {
            Self::are_same(left, right, count - 1) && left[count - 1].is_same_as(
                &right[count - 1],
            )
        }
    }
}

impl PartialEq for Type {
    fn eq(&self, other: &Type) -> (same: bool) {
        self.is_same_as(other)
    }
}

impl PartialEqSpecImpl for Type {
    open spec fn obeys_eq_spec() -> bool {
        true
    }

    open spec fn eq_spec(&self, other: &Type) -> bool {
        self.same(other)
    }
}

} // verus!
