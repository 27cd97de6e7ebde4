//! The error type shared by every fallible operation of the tracer.

use vstd::prelude::*;

verus! {

/// General error type returned by this crate.
#[derive(Debug)]
pub enum Error {
    /// An element of the command line, or the replacement for its first
    /// argument, holds a null byte.
    InvalidCommand,
    /// Any other failure, with a message for the user.
    Internal(String),
}

impl Error {
    /// The text shown to the user for this error.
    pub open spec fn message_spec(&self) -> Seq<char> {
        match self {
            Error::InvalidCommand => "Invalid command"@,
            Error::Internal(s) => s@,
        }
    }

    /// Returns the text shown to the user for this error.
    pub fn message(&self) -> (text: String)
        ensures
            text@ == self.message_spec(),
    {
        match self {
            Error::InvalidCommand => "Invalid command".to_string(),
            Error::Internal(s) => s.clone(),
        }
    }
}

} // verus!
