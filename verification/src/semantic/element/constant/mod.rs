//! The constants that the semantic analysis works on.

pub mod integer;
pub mod range_inclusive;

pub use self::integer::IntegerConstant;
pub use self::range_inclusive::RangeInclusive;
