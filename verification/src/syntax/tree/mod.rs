//! The syntax tree.

pub mod expression;
pub mod identifier;
pub mod statement;
