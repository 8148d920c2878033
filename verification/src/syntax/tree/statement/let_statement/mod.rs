//! The let statement.

pub mod builder;

use crate::lexical::token::Token;
use vstd::prelude::*;

verus! {

/// A let statement: the expression whose value it binds, in reverse Polish
/// notation.
#[derive(Debug)]
pub struct Let {
    pub expression: Vec<Token>,
}

impl Let {
    pub fn new(expression: Vec<Token>) -> (statement: Self)
        ensures
            statement == (Let { expression }),
    {
        Let { expression }
    }
}

} // verus!
