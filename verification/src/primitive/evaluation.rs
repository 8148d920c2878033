//! The backend that computes with plain numbers.
//!
//! A value is a number, or a placeholder where an input of the program is not
//! known. A placeholder spreads: an operation with an unknown operand gives an
//! unknown result. No constraint is recorded, so an operation fails only
//! where it has no result: a division by zero, an index outside an array.

use crate::number::bigint_add;
use crate::number::bigint_clone;
use crate::number::bigint_div;
use crate::number::bigint_eq;
use crate::number::bigint_from_usize;
use crate::number::bigint_lt;
use crate::number::bigint_mul;
use crate::number::bigint_rem;
use crate::number::bigint_sub;
use crate::number::bigint_to_usize;
use crate::number::bigint_value;
use crate::primitive::negated_value;
use crate::primitive::quotient_value;
use crate::primitive::remainder_value;
use crate::primitive::selected_value;
use crate::primitive::truth;
use crate::primitive::BinaryOperator;
use crate::primitive::Primitive;
use crate::primitive::PrimitiveOperations;
use crate::vm::RuntimeError;
use num_bigint::BigInt;
use vstd::prelude::*;

verus! {

/// A number, or the placeholder for a number that is not known.
#[derive(Debug)]
pub struct Evaluated {
    number: Option<BigInt>,
}

impl Evaluated {
    /// The value that stands for `number`; the placeholder for `None`.
    pub fn new(number: Option<BigInt>) -> (element: Self)
        ensures
            element.value() == match number {
                Some(n) => Some(bigint_value(n)),
                None => None,
            },
    {
        Evaluated { number }
    }

    /// The value that stands for 1 where `fact` holds, for 0 where it does
    /// not.
    fn from_bool(fact: bool) -> (element: Self)
        ensures
            element.value() == Some(truth(fact)),
    {
        let digit: usize = if fact {
            1
        } else {
            0
        };
        Evaluated { number: Some(bigint_from_usize(digit)) }
    }

    /// Whether a number is zero.
    fn is_zero(number: &BigInt) -> (zero: bool)
        ensures
            zero == (bigint_value(*number) == 0),
    {
        let nothing = bigint_from_usize(0);
        bigint_eq(number, &nothing)
    }

    /// One operator on two numbers.
    fn compute(operator: BinaryOperator, left: &BigInt, right: &BigInt) -> (element: Self)
        ensures
            element.value() == Some(operator.result(bigint_value(*left), bigint_value(*right))),
    {
        match operator {
            BinaryOperator::Add => Evaluated { number: Some(bigint_add(left, right)) },
            BinaryOperator::Sub => Evaluated { number: Some(bigint_sub(left, right)) },
            BinaryOperator::Mul => Evaluated { number: Some(bigint_mul(left, right)) },
            BinaryOperator::And => Self::from_bool(!Self::is_zero(left) && !Self::is_zero(right)),
            BinaryOperator::Or => Self::from_bool(!Self::is_zero(left) || !Self::is_zero(right)),
            BinaryOperator::Xor => Self::from_bool(Self::is_zero(left) != Self::is_zero(right)),
            BinaryOperator::Lt => Self::from_bool(bigint_lt(left, right)),
            BinaryOperator::Le => Self::from_bool(!bigint_lt(right, left)),
            BinaryOperator::Gt => Self::from_bool(bigint_lt(right, left)),
            BinaryOperator::Ge => Self::from_bool(!bigint_lt(left, right)),
            BinaryOperator::Eq => Self::from_bool(bigint_eq(left, right)),
            BinaryOperator::Ne => Self::from_bool(!bigint_eq(left, right)),
        }
    }

    /// One operator on two values, either of which may be unknown.
    pub fn apply(operator: BinaryOperator, left: &Self, right: &Self) -> (element: Self)
        ensures
            element.value() == operator.value(left.value(), right.value()),
    {
        match (&left.number, &right.number) {
            (Some(l), Some(r)) => Self::compute(operator, l, r),
            _ => Evaluated { number: None },
        }
    }
}

impl Primitive for Evaluated {
    closed spec fn value(&self) -> Option<int> {
        match self.number {
            Some(n) => Some(bigint_value(n)),
            None => None,
        }
    }

    fn duplicate(&self) -> (copy: Self) {
        match &self.number {
            Some(n) => Evaluated { number: Some(bigint_clone(n)) },
            None => Evaluated { number: None },
        }
    }

    fn to_bigint(&self) -> (number: Option<BigInt>) {
        match &self.number {
            Some(n) => Some(bigint_clone(n)),
            None => None,
        }
    }
}

/// The backend itself. It keeps no state.
#[derive(Debug)]
pub struct Evaluator {}

impl Evaluator {
    pub fn new() -> (operator: Self) {
        Evaluator {  }
    }
}

impl PrimitiveOperations<Evaluated> for Evaluator {
    /// The backend of plain numbers is reliable.
    open spec fn reliable(&self) -> bool {
        true
    }

    fn variable_none(&mut self) -> (res: Result<Evaluated, RuntimeError>)
        ensures
            res is Ok,
    {
        Ok(Evaluated { number: None })
    }

    fn variable_bigint(&mut self, value: &BigInt) -> (res: Result<Evaluated, RuntimeError>)
        ensures
            res is Ok,
    {
        Ok(Evaluated { number: Some(bigint_clone(value)) })
    }

    fn constant_bigint(&mut self, value: &BigInt) -> (res: Result<Evaluated, RuntimeError>)
        ensures
            res is Ok,
    {
        Ok(Evaluated { number: Some(bigint_clone(value)) })
    }

    fn output(&mut self, element: Evaluated) -> (res: Result<Evaluated, RuntimeError>)
        ensures
            res is Ok,
    {
        Ok(element)
    }

    fn add(&mut self, left: Evaluated, right: Evaluated) -> (res: Result<Evaluated, RuntimeError>)
        ensures
            res is Ok,
    {
        Ok(Evaluated::apply(BinaryOperator::Add, &left, &right))
    }

    fn sub(&mut self, left: Evaluated, right: Evaluated) -> (res: Result<Evaluated, RuntimeError>)
        ensures
            res is Ok,
    {
        Ok(Evaluated::apply(BinaryOperator::Sub, &left, &right))
    }

    fn mul(&mut self, left: Evaluated, right: Evaluated) -> (res: Result<Evaluated, RuntimeError>)
        ensures
            res is Ok,
    {
        Ok(Evaluated::apply(BinaryOperator::Mul, &left, &right))
    }

    fn div_rem(&mut self, left: Evaluated, right: Evaluated) -> (res: Result<
        (Evaluated, Evaluated),
        RuntimeError,
    >)
        ensures
            res is Ok <==> right.value() != Some(0int),
            res matches Err(e) ==> e == RuntimeError::InvalidArguments,
    {
        match (&left.number, &right.number) {
            (_, Some(d)) if Evaluated::is_zero(d) => Err(RuntimeError::InvalidArguments),
            (Some(n), Some(d)) => Ok(
                (
                    Evaluated { number: Some(bigint_div(n, d)) },
                    Evaluated { number: Some(bigint_rem(n, d)) },
                ),
            ),
            _ => Ok((Evaluated { number: None }, Evaluated { number: None })),
        }
    }

    fn not(&mut self, element: Evaluated) -> (res: Result<Evaluated, RuntimeError>)
        ensures
            res is Ok,
    {
        match &element.number {
            Some(n) => Ok(Evaluated::from_bool(Evaluated::is_zero(n))),
            None => Ok(Evaluated { number: None }),
        }
    }

    fn and(&mut self, left: Evaluated, right: Evaluated) -> (res: Result<Evaluated, RuntimeError>)
        ensures
            res is Ok,
    {
        Ok(Evaluated::apply(BinaryOperator::And, &left, &right))
    }

    fn or(&mut self, left: Evaluated, right: Evaluated) -> (res: Result<Evaluated, RuntimeError>)
        ensures
            res is Ok,
    {
        Ok(Evaluated::apply(BinaryOperator::Or, &left, &right))
    }

    fn xor(&mut self, left: Evaluated, right: Evaluated) -> (res: Result<Evaluated, RuntimeError>)
        ensures
            res is Ok,
    {
        Ok(Evaluated::apply(BinaryOperator::Xor, &left, &right))
    }

    fn lt(&mut self, left: Evaluated, right: Evaluated) -> (res: Result<Evaluated, RuntimeError>)
        ensures
            res is Ok,
    {
        Ok(Evaluated::apply(BinaryOperator::Lt, &left, &right))
    }

    fn le(&mut self, left: Evaluated, right: Evaluated) -> (res: Result<Evaluated, RuntimeError>)
        ensures
            res is Ok,
    {
        Ok(Evaluated::apply(BinaryOperator::Le, &left, &right))
    }

    fn eq(&mut self, left: Evaluated, right: Evaluated) -> (res: Result<Evaluated, RuntimeError>)
        ensures
            res is Ok,
    {
        Ok(Evaluated::apply(BinaryOperator::Eq, &left, &right))
    }

    fn ne(&mut self, left: Evaluated, right: Evaluated) -> (res: Result<Evaluated, RuntimeError>)
        ensures
            res is Ok,
    {
        Ok(Evaluated::apply(BinaryOperator::Ne, &left, &right))
    }

    fn ge(&mut self, left: Evaluated, right: Evaluated) -> (res: Result<Evaluated, RuntimeError>)
        ensures
            res is Ok,
    {
        Ok(Evaluated::apply(BinaryOperator::Ge, &left, &right))
    }

    fn gt(&mut self, left: Evaluated, right: Evaluated) -> (res: Result<Evaluated, RuntimeError>)
        ensures
            res is Ok,
    {
        Ok(Evaluated::apply(BinaryOperator::Gt, &left, &right))
    }

    fn conditional_select(
        &mut self,
        condition: Evaluated,
        if_true: Evaluated,
        if_false: Evaluated,
    ) -> (res: Result<Evaluated, RuntimeError>)
        ensures
            res is Ok,
    {
        match &condition.number {
            Some(c) => if Evaluated::is_zero(c) {
                Ok(if_false)
            } else {
                Ok(if_true)
            },
            None => Ok(Evaluated { number: None }),
        }
    }

    fn array_get(&mut self, array: &[Evaluated], index: Evaluated) -> (res: Result<
        Evaluated,
        RuntimeError,
    >)
        ensures
            res is Ok <==> (index.value() matches Some(i) ==> 0 <= i < array@.len()),
            res matches Err(e) ==> e == RuntimeError::IndexOutOfBounds,
    {
        match &index.number {
            Some(i) => match bigint_to_usize(i) {
                Some(position) => if position < array.len() {
                    Ok(array[position].duplicate())
                } else {
                    Err(RuntimeError::IndexOutOfBounds)
                },
                None => Err(RuntimeError::IndexOutOfBounds),
            },
            None => Ok(Evaluated { number: None }),
        }
    }
}

} // verus!
