//! The structure expression.

pub mod builder;

use crate::lexical::token::Location;
use crate::syntax::tree::expression::Expression;
use crate::syntax::tree::identifier::Identifier;
use vstd::prelude::*;

verus! {

/// A structure literal: the path of the structure type and a value for
/// each field.
#[derive(Debug)]
pub struct StructureExpression {
    pub location: Location,
    pub path: Expression,
    pub fields: Vec<(Identifier, Expression)>,
}

impl StructureExpression {
    pub fn new(location: Location, path: Expression, fields: Vec<(Identifier, Expression)>) -> (expression:
        Self)
        ensures
            expression == (StructureExpression { location, path, fields }),
    {
        StructureExpression { location, path, fields }
    }
}

} // verus!
