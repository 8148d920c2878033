//! The expression.

pub mod structure;

use crate::lexical::token::Token;
use vstd::prelude::*;

verus! {

/// An expression: its tokens in reverse Polish notation.
#[derive(Debug)]
pub struct Expression {
    pub elements: Vec<Token>,
}

impl Expression {
    pub fn new(elements: Vec<Token>) -> (expression: Self)
        ensures
            expression == (Expression { elements }),
    {
        Expression { elements }
    }
}

} // verus!
