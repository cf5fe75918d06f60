//! The error of a client whose operations are not implemented.
use vstd::prelude::*;
use vstd::string::*;

verus! {

/// The error reported by an operation that is not implemented.
#[derive(Debug)]
pub enum RconError {
    NotImplemented,
}

impl RconError {
    /// The user-facing text of the error.
    pub fn to_string(&self) -> (s: String)
        ensures
            s@ == "not yet implemented"@,
    {
        String::from_str("not yet implemented")
    }
}

} // verus!
