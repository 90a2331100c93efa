//! The ways in which the store fails.

use vstd::prelude::*;
use vstd::std_specs::convert::FromSpecImpl;

verus! {

/// The error type of `std::io`, carried through unread.
#[verifier::external_type_specification]
#[verifier::external_body]
pub struct ExIoError(std::io::Error);

#[derive(Debug)]
pub enum StorageError {
    /// A filesystem operation failed; the cause is passed on as it came.
    IOError(std::io::Error),
    /// A path is not what it has to be, or its metadata cannot be had.
    PathError(String),
    /// The storage root belongs to another user.
    PermissionError(String),
}

impl From<std::io::Error> for StorageError {
    fn from(io_err: std::io::Error) -> (err: StorageError) {
        StorageError::IOError(io_err)
    }
}

impl FromSpecImpl<std::io::Error> for StorageError {
    open spec fn obeys_from_spec() -> bool {
        true
    }

    open spec fn from_spec(io_err: std::io::Error) -> StorageError {
        StorageError::IOError(io_err)
    }
}

} // verus!
