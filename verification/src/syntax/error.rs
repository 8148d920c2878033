//! The syntax error.

use crate::lexical::token::Token;
use vstd::prelude::*;

verus! {

/// Why tokens are not what the grammar asks for.
#[derive(Debug)]
pub enum Error {
    /// An operand was to follow, and the tokens have ended.
    UnexpectedEnd,
    /// An operand was to follow, and this token is none.
    ExpectedOperand(Token),
}

} // verus!
