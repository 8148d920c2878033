//! The lexical analysis of the source language.

pub mod stream;
pub mod token;

pub use stream::integer::parse as parse_integer;
pub use stream::TokenStream;
pub use token::lexeme::literal::Boolean as BooleanLiteral;
pub use token::lexeme::literal::Integer as IntegerLiteral;
pub use token::lexeme::literal::Literal;
pub use token::lexeme::Lexeme;
pub use token::lexeme::Symbol;
pub use token::Location;
pub use token::Token;
