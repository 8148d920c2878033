//! Values and the operations on them.
//!
//! The machine never looks inside a value. It asks a backend for every
//! arithmetic, logical or comparing step, so that the same instruction code
//! runs on plain numbers and on the variables of a constraint system. What a
//! value stands for is an integer, or nothing where the backend has not
//! resolved it; the contracts of the operations are stated over that.

pub mod evaluation;

use crate::number::bigint_value;
use crate::number::truncated_quotient;
use crate::number::truncated_remainder;
use crate::vm::Fault;
use crate::vm::RuntimeError;
use num_bigint::BigInt;
use vstd::prelude::*;

verus! {

/// The integer that stands for a truth value.
pub open spec fn truth(fact: bool) -> int {
    if fact {
        1
    } else {
        0
    }
}

/// The operations that take two values and give one.
#[derive(Clone, Copy, Debug, PartialEq, Eq, Structural)]
pub enum BinaryOperator {
    Add,
    Sub,
    Mul,
    And,
    Or,
    Xor,
    Lt,
    Le,
    Gt,
    Ge,
    Eq,
    Ne,
}

impl BinaryOperator {
    /// What the operator gives on two integers. The logical operators read
    /// every integer but zero as true; they and the comparisons give 0 or 1.
    pub open spec fn result(self, left: int, right: int) -> int {
        match self {
            BinaryOperator::Add => left + right,
            BinaryOperator::Sub => left - right,
            BinaryOperator::Mul => left * right,
            BinaryOperator::And => truth(left != 0 && right != 0),
            BinaryOperator::Or => truth(left != 0 || right != 0),
            BinaryOperator::Xor => truth((left != 0) != (right != 0)),
            BinaryOperator::Lt => truth(left < right),
            BinaryOperator::Le => truth(left <= right),
            BinaryOperator::Gt => truth(left > right),
            BinaryOperator::Ge => truth(left >= right),
            BinaryOperator::Eq => truth(left == right),
            BinaryOperator::Ne => truth(left != right),
        }
    }

    /// What the operator gives on two values, either of which may be unknown:
    /// the result is known exactly when both operands are.
    pub open spec fn value(self, left: Option<int>, right: Option<int>) -> Option<int> {
        match (left, right) {
            (Some(l), Some(r)) => Some(self.result(l, r)),
            _ => None,
        }
    }
}

/// The logical negation of a value: 1 for zero, 0 for anything else.
pub open spec fn negated_value(element: Option<int>) -> Option<int> {
    match element {
        Some(e) => Some(truth(e == 0)),
        None => None,
    }
}

/// The choice between two values by a condition. An unknown condition gives
/// an unknown result.
pub open spec fn selected_value(
    condition: Option<int>,
    if_true: Option<int>,
    if_false: Option<int>,
) -> Option<int> {
    match condition {
        Some(c) => if c != 0 {
            if_true
        } else {
            if_false
        },
        None => None,
    }
}

/// The quotient of two values, rounded toward zero.
pub open spec fn quotient_value(dividend: Option<int>, divisor: Option<int>) -> Option<int> {
    match (dividend, divisor) {
        (Some(n), Some(d)) => Some(truncated_quotient(n, d)),
        _ => None,
    }
}

/// The remainder that goes with `quotient_value`.
pub open spec fn remainder_value(dividend: Option<int>, divisor: Option<int>) -> Option<int> {
    match (dividend, divisor) {
        (Some(n), Some(d)) => Some(truncated_remainder(n, d)),
        _ => None,
    }
}

/// A value that the machine computes with.
pub trait Primitive: Sized {
    /// The integer that the value stands for, if the backend has resolved it.
    spec fn value(&self) -> Option<int>;

    /// A second value that stands for the same integer.
    fn duplicate(&self) -> (copy: Self)
        ensures
            copy.value() == self.value(),
    ;

    /// The integer as a number, where it is known.
    fn to_bigint(&self) -> (number: Option<BigInt>)
        ensures
            match number {
                Some(n) => self.value() == Some(bigint_value(n)),
                None => self.value() is None,
            },
    ;
}

/// The values of a sequence of primitives.
pub open spec fn values<P: Primitive>(primitives: Seq<P>) -> Seq<Option<int>> {
    Seq::new(primitives.len(), |i: int| primitives[i].value())
}

/// A backend: the only way in which the machine touches what a value means.
///
/// Every operation may fail, with an error of the backend's choosing (a
/// constraint that cannot be synthesized, an overflow, an index out of
/// bounds), unless the backend is reliable. Where it succeeds, the value it
/// returns stands for the integer stated here. A backend that records constraints does so on every call,
/// whether or not the result is used later.
pub trait PrimitiveOperations<P: Primitive> {
    /// Whether the backend is one that fails only where an operation has no
    /// result: a division by a divisor known to be zero, which it reports as
    /// invalid arguments, and an index known to lie outside its array, which
    /// it reports as out of bounds. A reliable backend stays reliable,
    /// whatever it is asked.
    spec fn reliable(&self) -> bool;

    /// A fresh value that stands for nothing yet.
    fn variable_none(&mut self) -> (res: Result<P, RuntimeError>)
        ensures
            res matches Ok(p) ==> p.value() is None,
            old(self).reliable() ==> res is Ok && final(self).reliable(),
    ;

    /// A fresh variable that stands for the given number.
    fn variable_bigint(&mut self, value: &BigInt) -> (res: Result<P, RuntimeError>)
        ensures
            res matches Ok(p) ==> p.value() == Some(bigint_value(*value)),
            old(self).reliable() ==> res is Ok && final(self).reliable(),
    ;

    /// The constant that stands for the given number.
    fn constant_bigint(&mut self, value: &BigInt) -> (res: Result<P, RuntimeError>)
        ensures
            res matches Ok(p) ==> p.value() == Some(bigint_value(*value)),
            old(self).reliable() ==> res is Ok && final(self).reliable(),
    ;

    /// Marks a value as a result of the program.
    fn output(&mut self, element: P) -> (res: Result<P, RuntimeError>)
        ensures
            res matches Ok(p) ==> p.value() == element.value(),
            old(self).reliable() ==> res is Ok && final(self).reliable(),
    ;

    fn add(&mut self, left: P, right: P) -> (res: Result<P, RuntimeError>)
        ensures
            res matches Ok(p) ==> p.value() == BinaryOperator::Add.value(
                left.value(),
                right.value(),
            ),
            old(self).reliable() ==> res is Ok && final(self).reliable(),
    ;

    fn sub(&mut self, left: P, right: P) -> (res: Result<P, RuntimeError>)
        ensures
            res matches Ok(p) ==> p.value() == BinaryOperator::Sub.value(
                left.value(),
                right.value(),
            ),
            old(self).reliable() ==> res is Ok && final(self).reliable(),
    ;

    fn mul(&mut self, left: P, right: P) -> (res: Result<P, RuntimeError>)
        ensures
            res matches Ok(p) ==> p.value() == BinaryOperator::Mul.value(
                left.value(),
                right.value(),
            ),
            old(self).reliable() ==> res is Ok && final(self).reliable(),
    ;

    /// Quotient and remainder of the division that rounds toward zero. A
    /// divisor known to be zero makes the operation fail.
    fn div_rem(&mut self, left: P, right: P) -> (res: Result<(P, P), RuntimeError>)
        ensures
            res matches Ok(pair) ==> {
                &&& right.value() != Some(0int)
                &&& pair.0.value() == quotient_value(left.value(), right.value())
                &&& pair.1.value() == remainder_value(left.value(), right.value())
            },
            old(self).reliable() ==> {
                &&& final(self).reliable()
                &&& right.value() != Some(0int) ==> res is Ok
                &&& res matches Err(e) ==> e@ == Fault::InvalidArguments
            },
    ;

    fn not(&mut self, element: P) -> (res: Result<P, RuntimeError>)
        ensures
            res matches Ok(p) ==> p.value() == negated_value(element.value()),
            old(self).reliable() ==> res is Ok && final(self).reliable(),
    ;

    fn and(&mut self, left: P, right: P) -> (res: Result<P, RuntimeError>)
        ensures
            res matches Ok(p) ==> p.value() == BinaryOperator::And.value(
                left.value(),
                right.value(),
            ),
            old(self).reliable() ==> res is Ok && final(self).reliable(),
    ;

    fn or(&mut self, left: P, right: P) -> (res: Result<P, RuntimeError>)
        ensures
            res matches Ok(p) ==> p.value() == BinaryOperator::Or.value(
                left.value(),
                right.value(),
            ),
            old(self).reliable() ==> res is Ok && final(self).reliable(),
    ;

    fn xor(&mut self, left: P, right: P) -> (res: Result<P, RuntimeError>)
        ensures
            res matches Ok(p) ==> p.value() == BinaryOperator::Xor.value(
                left.value(),
                right.value(),
            ),
            old(self).reliable() ==> res is Ok && final(self).reliable(),
    ;

    fn lt(&mut self, left: P, right: P) -> (res: Result<P, RuntimeError>)
        ensures
            res matches Ok(p) ==> p.value() == BinaryOperator::Lt.value(
                left.value(),
                right.value(),
            ),
            old(self).reliable() ==> res is Ok && final(self).reliable(),
    ;

    fn le(&mut self, left: P, right: P) -> (res: Result<P, RuntimeError>)
        ensures
            res matches Ok(p) ==> p.value() == BinaryOperator::Le.value(
                left.value(),
                right.value(),
            ),
            old(self).reliable() ==> res is Ok && final(self).reliable(),
    ;

    fn eq(&mut self, left: P, right: P) -> (res: Result<P, RuntimeError>)
        ensures
            res matches Ok(p) ==> p.value() == BinaryOperator::Eq.value(
                left.value(),
                right.value(),
            ),
            old(self).reliable() ==> res is Ok && final(self).reliable(),
    ;

    fn ne(&mut self, left: P, right: P) -> (res: Result<P, RuntimeError>)
        ensures
            res matches Ok(p) ==> p.value() == BinaryOperator::Ne.value(
                left.value(),
                right.value(),
            ),
            old(self).reliable() ==> res is Ok && final(self).reliable(),
    ;

    fn ge(&mut self, left: P, right: P) -> (res: Result<P, RuntimeError>)
        ensures
            res matches Ok(p) ==> p.value() == BinaryOperator::Ge.value(
                left.value(),
                right.value(),
            ),
            old(self).reliable() ==> res is Ok && final(self).reliable(),
    ;

    fn gt(&mut self, left: P, right: P) -> (res: Result<P, RuntimeError>)
        ensures
            res matches Ok(p) ==> p.value() == BinaryOperator::Gt.value(
                left.value(),
                right.value(),
            ),
            old(self).reliable() ==> res is Ok && final(self).reliable(),
    ;

    /// `if_true` where the condition is not zero, `if_false` where it is.
    fn conditional_select(&mut self, condition: P, if_true: P, if_false: P) -> (res: Result<
        P,
        RuntimeError,
    >)
        ensures
            res matches Ok(p) ==> p.value() == selected_value(
                condition.value(),
                if_true.value(),
                if_false.value(),
            ),
            old(self).reliable() ==> res is Ok && final(self).reliable(),
    ;

    /// The element of `array` at an index that is itself a value. An index
    /// known to lie outside the array makes the operation fail; an unknown
    /// index gives an unknown element.
    fn array_get(&mut self, array: &[P], index: P) -> (res: Result<P, RuntimeError>)
        ensures
            res matches Ok(p) ==> match index.value() {
                Some(i) => 0 <= i < array@.len() && p.value() == array@[i].value(),
                None => p.value() is None,
            },
            old(self).reliable() ==> {
                &&& final(self).reliable()
                &&& (index.value() matches Some(i) ==> 0 <= i < array@.len()) ==> res is Ok
                &&& res matches Err(e) ==> e@ == Fault::IndexOutOfBounds
            },
    ;
}

} // verus!
