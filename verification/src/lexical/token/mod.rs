//! The lexical tokens.

pub mod lexeme;

use self::lexeme::Lexeme;
use vstd::prelude::*;

verus! {

/// A place in the source text, by line and column counted from one.
#[derive(Debug, Clone, Copy, PartialEq, Eq, Structural)]
pub struct Location {
    pub line: usize,
    pub column: usize,
}

impl Location {
    pub fn new(line: usize, column: usize) -> (location: Self)
        ensures
            location == (Location { line, column }),
    {
        Location { line, column }
    }
}

/// A lexeme and the place where it stands.
#[derive(Debug)]
pub struct Token {
    pub lexeme: Lexeme,
    pub location: Location,
}

impl Token {
    pub fn new(lexeme: Lexeme, location: Location) -> (token: Self)
        ensures
            token == (Token { lexeme, location }),
    {
        Token { lexeme, location }
    }
}

} // verus!
