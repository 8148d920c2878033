//! The expression parsers.

pub mod boolean;
pub mod operand;
