//! The one way an evaluation can fail.

use vstd::prelude::*;
use vstd::string::StringExecFns;

verus! {

/// An evaluation error.
#[derive(Clone, Copy, Debug, PartialEq, Eq, Structural)]
pub enum Error {
    /// A projection named a field position past the end of the document.
    OutOfBoundPropIndex,
}

/// The text that describes `e`.
pub open spec fn message_of(e: Error) -> Seq<char> {
    match e {
        Error::OutOfBoundPropIndex => "Prop index is out of bound"@,
    }
}

impl Error {
    /// A short description of the error.
    pub fn message(&self) -> (r: String)
        ensures
            r@ == message_of(*self),
    {
        match self {
            Error::OutOfBoundPropIndex => String::from_str("Prop index is out of bound"),
        }
    }
}

} // verus!
