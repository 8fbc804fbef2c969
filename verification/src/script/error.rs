//! The error that the parsers report for text they cannot read.
use vstd::prelude::*;

verus! {

/// A parse failure, with a message saying what was wrong.
#[derive(Debug, Clone)]
pub struct ParseError {
    pub message: String,
}

impl ParseError {
    /// The message of the error.
    pub fn to_string(&self) -> (r: String)
        ensures
            r@ == self.message@,
    {
        self.message.clone()
    }
}

} // verus!
