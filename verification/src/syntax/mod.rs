//! The syntax of the source language.

pub mod error;
pub mod parser;
pub mod tree;

pub use tree::expression::structure::StructureExpression;
pub use tree::expression::Expression;
pub use tree::identifier::Identifier;
pub use tree::statement::let_statement::Let;
pub use error::Error;
pub use parser::expression::boolean::xor_term::Parser as XorTermParser;
pub use parser::expression::operand::Parser as OperandParser;
pub use parser::Parse;
