//! The error surface of the driver core.

use vstd::prelude::*;

verus! {

/// The status kind of a failure, as the surrounding driver reports it.
#[derive(Clone, Copy, PartialEq, Eq, Structural, Debug)]
pub enum Status {
    IO,
    Internal,
    NotFound,
    InvalidArguments,
    NotImplemented,
    InvalidState,
}

/// A failure: a human-readable message and its status kind.
#[derive(Debug)]
pub struct DriverError {
    pub message: String,
    pub status: Status,
}

impl DriverError {
    /// An error of the given kind.
    pub fn new(message: String, status: Status) -> (e: DriverError)
        ensures
            e.message == message,
            e.status == status,
    {
        DriverError { message, status }
    }
}

} // verus!
