//! Defines the errors of the user interface.
use vstd::prelude::*;

verus! {

/// When a row has reached its end.
#[derive(Clone, Copy, Debug, PartialEq, Eq, Structural)]
pub struct ReachedEnd;

impl ReachedEnd {
    /// Returns the text that describes `self`, which is empty.
    pub fn message(&self) -> (result: &'static str)
        ensures
            result@ == ""@,
    {
        ""
    }
}

} // verus!
