//! The elements that the semantic analysis works on.

pub mod constant;
pub mod equality;
pub mod types;
