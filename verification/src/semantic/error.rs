//! The semantic analyzer error.

use crate::lexical::token::Location;
use crate::semantic::element::constant::integer::Error as IntegerConstantError;
use crate::semantic::element::constant::integer::ErrorModel as IntegerConstantErrorModel;
use vstd::prelude::*;

verus! {

/// Why a piece of source has no meaning.
#[derive(Debug)]
pub enum Error {
    /// A constant at the given place cannot be given a type.
    InferenceConstant(Location, IntegerConstantError),
}

/// An error, with its text as a sequence of characters.
pub enum ErrorModel {
    InferenceConstant(Location, IntegerConstantErrorModel),
}

impl View for Error {
    type V = ErrorModel;

    open spec fn view(&self) -> ErrorModel {
        match self {
            Error::InferenceConstant(location, error) => ErrorModel::InferenceConstant(
                *location,
                error@,
            ),
        }
    }
}

} // verus!
