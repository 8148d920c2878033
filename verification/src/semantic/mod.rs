//! The semantic analysis of the source language.

pub mod element;
pub mod error;

pub use element::types::Type;
pub use element::constant::IntegerConstant;
pub use element::constant::RangeInclusive;
pub use error::Error;
