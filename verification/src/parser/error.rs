//! The error a failed scan reports.

use vstd::prelude::*;

verus! {

/// A scanning error, carrying a human-readable message.
#[derive(Debug)]
pub struct Error {
    pub message: String,
}

impl Error {
    /// Wraps a message in an error.
    pub fn new(message: String) -> (r: Self)
        ensures
            r.message == message,
    {
        Self { message }
    }
}

} // verus!
