//! The boolean expression parsers.

pub mod xor_term;
