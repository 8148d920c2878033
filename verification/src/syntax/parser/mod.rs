//! The syntax parsers.

pub mod expression;

use crate::lexical::stream::TokenStream;
use crate::lexical::token::Token;
use crate::syntax::error::Error;
use vstd::prelude::*;

verus! {

/// What a parser has made of tokens: how many it has taken, and the
/// expression that they are, in reverse Polish notation.
pub struct Parsed {
    pub taken: nat,
    pub rpn: Seq<Token>,
}

/// A parser of one level of the grammar of expressions. Each level is built
/// on a parser of the level below it.
pub trait Parse {
    /// What the parser makes of the tokens before it.
    spec fn parsed(tokens: Seq<Token>) -> Result<Parsed, Error>;

    /// Parses an expression at the beginning of the stream: returns the
    /// stream behind the expression, and the expression in reverse Polish
    /// notation.
    fn parse(iterator: TokenStream) -> (res: Result<(TokenStream, Vec<Token>), Error>)
        ensures
            match res {
                Ok((rest, rpn)) => {
                    &&& Self::parsed(iterator@) matches Ok(parsed)
                    &&& parsed.taken <= iterator@.len()
                    &&& rest@ == iterator@.skip(parsed.taken as int)
                    &&& rpn@ == parsed.rpn
                },
                Err(e) => Self::parsed(iterator@) == Err::<Parsed, _>(e),
            },
    ;
}

} // verus!
