//! Failures of operations outside the library, carried as plain values.
use vstd::prelude::*;

verus! {

/// A failed input or output operation, by the wording that the system gave it.
#[derive(Debug, PartialEq, Eq)]
pub struct IoFailure {
    /// The system's wording.
    pub message: String,
}

impl Clone for IoFailure {
    fn clone(&self) -> (copy: Self)
        ensures
            copy == *self,
    {
        IoFailure { message: self.message.clone() }
    }
}

} // verus!
