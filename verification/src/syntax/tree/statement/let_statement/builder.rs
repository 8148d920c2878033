//! The let statement builder.

use crate::lexical::token::Token;
use crate::syntax::tree::statement::let_statement::Let;
use vstd::prelude::*;

verus! {

/// Collects the parts of a let statement while it is parsed.
pub struct Builder {
    expression: Option<Vec<Token>>,
}

impl Default for Builder {
    fn default() -> (builder: Self)
        ensures
            builder.expression() is None,
    {
        Builder { expression: None }
    }
}

impl Builder {
    /// The expression that has been set, if one has.
    pub closed spec fn expression(&self) -> Option<Vec<Token>> {
        self.expression
    }

    pub fn set_expression(&mut self, value: Vec<Token>)
        ensures
            final(self).expression() == Some(value),
    {
        self.expression = Some(value);
    }

    /// The statement. The expression has to have been set.
    pub fn finish(self) -> (statement: Let)
        requires
            self.expression() is Some,
        ensures
            Some(statement.expression) == self.expression(),
    {
        let mut builder = self;
        Let::new(builder.expression.take().unwrap())
    }
}

} // verus!
