//! The statements.

pub mod let_statement;
