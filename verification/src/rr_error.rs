//! The engine's error value.

use vstd::prelude::*;

verus! {

/// A failure surfaced to the caller, carrying a human-readable description.
pub struct RrError {
    details: String,
}

impl View for RrError {
    type V = Seq<char>;

    closed spec fn view(&self) -> Seq<char> {
        self.details@
    }
}

impl RrError {
    pub fn new(msg: &str) -> (e: RrError)
        ensures
            e@ == msg@,
    {
        RrError { details: msg.to_owned() }
    }

    /// The description of the failure.
    pub fn description(&self) -> (r: &str)
        ensures
            r@ == self@,
    {
        self.details.as_str()
    }
}

} // verus!
