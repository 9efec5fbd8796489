//! Defines the errors of the utilities that talk to the language server.
use vstd::prelude::*;

verus! {

/// An error while acquiring the mutex protecting the stdin of the language server process.
#[derive(Clone, Copy, Debug, PartialEq, Eq, Structural)]
pub struct AcquireLockError();

impl AcquireLockError {
    /// Returns the text that describes `self`.
    pub fn message(&self) -> (result: &'static str)
        ensures
            result@ == "lock on stdin of language server process is poisoned"@,
    {
        "lock on stdin of language server process is poisoned"
    }
}

} // verus!
