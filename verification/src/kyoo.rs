//! Defines the errors of exchanging goods between producers and consumers.
use vstd::prelude::*;

verus! {

/// An error while consuming a good: all producers were cut.
#[derive(Clone, Copy, Debug, PartialEq, Eq, Structural)]
pub struct ConsumeError;

impl ConsumeError {
    /// Returns the text that describes `self`.
    pub fn message(&self) -> (result: &'static str)
        ensures
            result@ == "unable to consume; all producers were cut"@,
    {
        "unable to consume; all producers were cut"
    }
}

} // verus!
