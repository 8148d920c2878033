//! The identifier.

use crate::lexical::token::Location;
use vstd::prelude::*;

verus! {

/// A name and the place where it stands.
#[derive(Debug)]
pub struct Identifier {
    pub location: Location,
    pub name: String,
}

impl Identifier {
    pub fn new(location: Location, name: String) -> (identifier: Self)
        ensures
            identifier == (Identifier { location, name }),
    {
        Identifier { location, name }
    }
}

} // verus!
