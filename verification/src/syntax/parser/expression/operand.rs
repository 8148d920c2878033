//! The operand parser.

use crate::lexical::stream::TokenStream;
use crate::lexical::token::lexeme::Lexeme;
use crate::lexical::token::Token;
use crate::syntax::error::Error;
use crate::syntax::parser::Parse;
use crate::syntax::parser::Parsed;
use vstd::prelude::*;

verus! {

/// The parser of the lowest level of the grammar: a single literal or
/// identifier.
pub struct Parser {}

/// Whether a token is an operand by itself.
pub open spec fn is_operand(token: Token) -> bool {
    token.lexeme is Identifier || token.lexeme is Literal
}

impl Parse for Parser {
    open spec fn parsed(tokens: Seq<Token>) -> Result<Parsed, Error> {
        if tokens.len() == 0 {
            Err(Error::UnexpectedEnd)
        } else if is_operand(tokens[0]) {
            Ok(Parsed { taken: 1, rpn: seq![tokens[0]] })
        } else {
            Err(Error::ExpectedOperand(tokens[0]))
        }
    }

    fn parse(iterator: TokenStream) -> (res: Result<(TokenStream, Vec<Token>), Error>) {
        let mut iterator = iterator;
        match iterator.next() {
            None => Err(Error::UnexpectedEnd),
            Some(token) => {
                let operand = match &token.lexeme {
                    Lexeme::Identifier(_) => true,
                    Lexeme::Literal(_) => true,
                    Lexeme::Symbol(_) => false,
                };
                if operand {
                    let mut rpn: Vec<Token> = Vec::new();
                    rpn.push(token);
                    assert(rpn@ =~= seq![token]);
                    Ok((iterator, rpn))
                } else {
                    Err(Error::ExpectedOperand(token))
                }
            },
        }
    }
}

} // verus!
