//! The parsers of single lexemes, and the stream of tokens that they make.

pub mod integer;

use crate::lexical::token::Token;
use vstd::prelude::*;

verus! {

/// The tokens of a source text that have not been read yet.
pub struct TokenStream {
    /// The tokens, the next one last.
    tokens: Vec<Token>,
}

impl View for TokenStream {
    type V = Seq<Token>;

    /// The tokens in the order in which they will be read.
    closed spec fn view(&self) -> Seq<Token> {
        self.tokens@.reverse()
    }
}

impl TokenStream {
    /// The stream of the given tokens, which are read from the first to the
    /// last.
    pub fn new(tokens: Vec<Token>) -> (stream: Self)
        ensures
            stream@ == tokens@,
    {
        let mut tokens = tokens;
        let ghost all = tokens@;
        let mut reversed: Vec<Token> = Vec::new();
        while tokens.len() > 0
            invariant
                tokens@ == all.take(tokens@.len() as int),
                tokens@.len() <= all.len(),
                reversed@.len() == all.len() - tokens@.len(),
                forall|i: int|
                    0 <= i < reversed@.len() ==> #[trigger] reversed@[i] == all[all.len() - 1 - i],
            decreases tokens.len(),
        {
            let ghost before = tokens@;
            let token = tokens.pop().unwrap();
            assert(before.last() == all[before.len() - 1]);
            assert(tokens@ =~= all.take(tokens@.len() as int));
            reversed.push(token);
        }
        assert(reversed@.reverse() =~= all);
        TokenStream { tokens: reversed }
    }

    /// Whether every token has been read.
    pub fn is_empty(&self) -> (empty: bool)
        ensures
            empty == (self@.len() == 0),
    {
        self.tokens.len() == 0
    }

    /// The next token, which stays in the stream.
    pub fn peek(&self) -> (token: Option<&Token>)
        ensures
            match token {
                Some(next) => self@.len() > 0 && *next == self@[0],
                None => self@.len() == 0,
            },
    {
        let left = self.tokens.len();
        if left == 0 {
            None
        } else {
            Some(&self.tokens[left - 1])
        }
    }

    /// Takes the next token out of the stream.
    pub fn next(&mut self) -> (token: Option<Token>)
        ensures
            match token {
                Some(next) => {
                    &&& old(self)@.len() > 0
                    &&& next == old(self)@[0]
                    &&& final(self)@ == old(self)@.skip(1)
                },
                None => old(self)@.len() == 0 && final(self)@ == old(self)@,
            },
    {
        let token = self.tokens.pop();
        assert(token is Some ==> self.tokens@.reverse() =~= old(self).tokens@.reverse().skip(1));
        token
    }
}

} // verus!
