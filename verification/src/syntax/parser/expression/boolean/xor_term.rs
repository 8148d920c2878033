//! The boolean XOR term syntax parser.

use crate::lexical::stream::TokenStream;
use crate::lexical::token::lexeme::Lexeme;
use crate::lexical::token::lexeme::Symbol;
use crate::lexical::token::Token;
use crate::syntax::error::Error;
use crate::syntax::parser::Parse;
use crate::syntax::parser::Parsed;
use vstd::prelude::*;

verus! {

/// Where the parser stands in a term.
#[derive(Debug, Clone, Copy)]
pub enum State {
    AndFactor,
    AndOperator,
    End,
}

impl Default for State {
    fn default() -> (state: Self)
        ensures
            state is AndFactor,
    {
        State::AndFactor
    }
}

/// The parser of a term of an exclusive disjunction: one factor, or several
/// with the conjunction operator between them.
pub struct Parser {
    state: State,
    rpn: Vec<Token>,
    operator: Option<Token>,
}

impl Default for Parser {
    fn default() -> (parser: Self)
        ensures
            parser.is_fresh(),
    {
        Parser { state: State::AndFactor, rpn: Vec::new(), operator: None }
    }
}

/// Whether a token is the conjunction operator.
pub open spec fn is_and(token: Token) -> bool {
    token.lexeme == Lexeme::Symbol(Symbol::BooleanAnd)
}

/// The term whose first factors have been read: `taken` tokens have given
/// `rpn`. While the conjunction operator follows, another factor is read
/// behind it, and goes into the notation with the operator behind it.
pub open spec fn continued<F: Parse>(tokens: Seq<Token>, taken: nat, rpn: Seq<Token>) -> Result<
    Parsed,
    Error,
>
    decreases tokens.len() - taken,
{
    if taken < tokens.len() && is_and(tokens[taken as int]) {
        match F::parsed(tokens.skip(taken as int + 1)) {
            Err(error) => Err(error),
            Ok(factor) => if taken + 1 + factor.taken <= tokens.len() {
                continued::<F>(
                    tokens,
                    taken + 1 + factor.taken,
                    rpn + factor.rpn + seq![tokens[taken as int]],
                )
            } else {
                Ok(Parsed { taken, rpn })
            },
        }
    } else {
        Ok(Parsed { taken, rpn })
    }
}

/// The term at the beginning of the tokens, with `F` as the parser of its
/// factors.
pub open spec fn term<F: Parse>(tokens: Seq<Token>) -> Result<Parsed, Error> {
    match F::parsed(tokens) {
        Err(error) => Err(error),
        Ok(factor) => if factor.taken <= tokens.len() {
            continued::<F>(tokens, factor.taken, factor.rpn)
        } else {
            Ok(factor)
        },
    }
}

impl Parser {
    /// Whether the parser has read nothing yet.
    pub closed spec fn is_fresh(&self) -> bool {
        self.state is AndFactor && self.rpn@.len() == 0 && self.operator is None
    }

    /// Parses a term at the beginning of the stream, with `F` as the parser
    /// of its factors: returns the stream behind the term, and the term in
    /// reverse Polish notation.
    pub fn parse<F: Parse>(self, iterator: TokenStream) -> (res: Result<
        (TokenStream, Vec<Token>),
        Error,
    >)
        requires
            self.is_fresh(),
        ensures
            match res {
                Ok((rest, rpn)) => {
                    &&& term::<F>(iterator@) matches Ok(parsed)
                    &&& parsed.taken <= iterator@.len()
                    &&& rest@ == iterator@.skip(parsed.taken as int)
                    &&& rpn@ == parsed.rpn
                },
                Err(e) => term::<F>(iterator@) == Err::<Parsed, _>(e),
            },
    {
        let mut parser = self;
        let ghost tokens = iterator@;
        let ghost mut taken: nat = 0;
        let mut stream = iterator;
        assert(tokens.skip(0) =~= tokens);
        assert(parser.rpn@ =~= Seq::<Token>::empty());
        loop
            invariant
                taken <= tokens.len(),
                tokens == iterator@,
                stream@ == tokens.skip(taken as int),
                match parser.state {
                    State::AndFactor => match parser.operator {
                        None => taken == 0 && parser.rpn@.len() == 0,
                        Some(operator) => {
                            &&& taken > 0
                            &&& operator == tokens[taken - 1]
                            &&& is_and(operator)
                            &&& term::<F>(tokens) == continued::<F>(
                                tokens,
                                (taken - 1) as nat,
                                parser.rpn@,
                            )
                        },
                    },
                    State::AndOperator => term::<F>(tokens) == continued::<F>(
                        tokens,
                        taken,
                        parser.rpn@,
                    ),
                    State::End => term::<F>(tokens) == Ok::<_, Error>(
                        Parsed { taken, rpn: parser.rpn@ },
                    ),
                },
            decreases
                    tokens.len() - taken,
                    match parser.state {
                        State::AndFactor => 2nat,
                        State::AndOperator => 1nat,
                        State::End => 0nat,
                    },
        {
            match parser.state {
                State::AndFactor => {
                    let ghost before = parser.rpn@;
                    proof {
                        if taken == 0 {
                            assert(tokens.skip(0) =~= tokens);
                        } else {
                            assert(tokens.skip((taken - 1) as nat as int + 1) =~= tokens.skip(
                                taken as int,
                            ));
                        }
                    }
                    let (rest, mut rpn) = match F::parse(stream) {
                        Ok(parsed) => parsed,
                        Err(e) => {
                            return Err(e);
                        },
                    };
                    let ghost factor = F::parsed(tokens.skip(taken as int))->Ok_0;
                    proof {
                        assert(rest@ =~= tokens.skip((taken + factor.taken) as int));
                    }
                    stream = rest;
                    parser.rpn.append(&mut rpn);
                    match parser.operator.take() {
                        Some(operator) => {
                            parser.rpn.push(operator);
                            assert(parser.rpn@ =~= before + factor.rpn + seq![operator]);
                            assert(term::<F>(tokens) == continued::<F>(
                                tokens,
                                taken + factor.taken,
                                parser.rpn@,
                            ));
                        },
                        None => {
                            assert(parser.rpn@ =~= factor.rpn);
                            assert(term::<F>(tokens) == continued::<F>(
                                tokens,
                                taken + factor.taken,
                                parser.rpn@,
                            ));
                        },
                    }
                    proof {
                        taken = taken + factor.taken;
                    }
                    parser.state = State::AndOperator;
                },
                State::AndOperator => {
                    let follows = match stream.peek() {
                        Some(token) => match &token.lexeme {
                            Lexeme::Symbol(symbol) => match symbol {
                                Symbol::BooleanAnd => true,
                                _ => false,
                            },
                            _ => false,
                        },
                        None => false,
                    };
                    if follows {
                        assert(is_and(tokens[taken as int]));
                        parser.operator = stream.next();
                        proof {
                            assert(stream@ =~= tokens.skip(taken as int + 1));
                            taken = taken + 1;
                        }
                        parser.state = State::AndFactor;
                    } else {
                        assert(!(taken < tokens.len() && is_and(tokens[taken as int])));
                        parser.state = State::End;
                    }
                },
                State::End => {
                    return Ok((stream, parser.rpn));
                },
            }
        }
    }
}

} // verus!
