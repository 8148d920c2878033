//! The lexemes.

pub mod literal;

use self::literal::Literal;
use vstd::prelude::*;

verus! {

/// A sign of the source language that is neither a word nor a literal.
#[derive(Debug, Clone, Copy, PartialEq, Eq, Structural)]
pub enum Symbol {
    ParenthesisLeft,
    ParenthesisRight,
    BracketCurlyLeft,
    BracketCurlyRight,
    Colon,
    Semicolon,
    Comma,
    Equals,
    BooleanAnd,
    BooleanOr,
    BooleanXor,
    BooleanNot,
    ComparisonEqual,
    ComparisonNotEqual,
}

/// The smallest meaningful piece of the source text.
#[derive(Debug)]
pub enum Lexeme {
    Identifier(String),
    Literal(Literal),
    Symbol(Symbol),
}

} // verus!
