//! The literal lexeme.

pub mod boolean;
pub mod integer;

pub use self::boolean::Boolean;
pub use self::integer::Integer;

use self::integer::IntegerModel;
use vstd::prelude::*;

verus! {

/// A literal of the source language.
#[derive(Debug)]
pub enum Literal {
    Boolean(Boolean),
    Integer(Integer),
}

/// A literal, with its text as a sequence of characters.
pub enum LiteralModel {
    Boolean(Boolean),
    Integer(IntegerModel),
}

impl View for Literal {
    type V = LiteralModel;

    open spec fn view(&self) -> LiteralModel {
        match self {
            Literal::Boolean(boolean) => LiteralModel::Boolean(*boolean),
            Literal::Integer(integer) => LiteralModel::Integer(integer@),
        }
    }
}

impl Literal {
    /// The literal as it is written.
    pub open spec fn text(&self) -> Seq<char> {
        match self {
            Literal::Boolean(boolean) => boolean.text(),
            Literal::Integer(integer) => integer@.text(),
        }
    }

    /// Writes the literal.
    pub fn to_string(&self) -> (text: String)
        ensures
            text@ == self.text(),
    {
        match self {
            Literal::Boolean(boolean) => boolean.to_string(),
            Literal::Integer(integer) => integer.to_string(),
        }
    }
}

} // verus!
