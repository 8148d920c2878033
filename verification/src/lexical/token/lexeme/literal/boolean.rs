//! The boolean literal lexeme.

use vstd::prelude::*;

verus! {

/// One of the two truth values, as written in the source.
#[derive(Debug, Clone, Copy, PartialEq, Eq, Structural)]
pub enum Boolean {
    True,
    False,
}

impl Boolean {
    /// The literal as it is written.
    pub open spec fn text(&self) -> Seq<char> {
        match self {
            Boolean::True => "true"@,
            Boolean::False => "false"@,
        }
    }

    /// Writes the literal.
    pub fn to_string(&self) -> (text: String)
        ensures
            text@ == self.text(),
    {
        match self {
            Boolean::True => "true".to_owned(),
            Boolean::False => "false".to_owned(),
        }
    }
}

} // verus!
