//! Failures of board resolution and of the catalogue calls.

use vstd::prelude::*;

verus! {

/// A catalogue call that did not yield what was asked for.
#[derive(Clone, Copy, Debug, PartialEq, Eq, Structural)]
pub enum ApiError {
    /// The transport failed: no connection, a timeout, a refused status.
    RequestFailed,
    /// A field that every answer must carry is absent or has the wrong type.
    MissingField,
}

/// Why a board could not be resolved.
#[derive(Clone, Copy, Debug, PartialEq, Eq, Structural)]
pub enum CreationError {
    /// The catalogue call for the board failed.
    ApiError(ApiError),
    /// The address does not name an owner and a board.
    BadUrl,
}

impl ApiError {
    /// The message shown to the user for this failure.
    pub fn message(&self) -> (text: &'static str)
        ensures
            text@ == match *self {
                ApiError::RequestFailed => "Network request failed"@,
                ApiError::MissingField => "Missing expected data field"@,
            },
    {
        match self {
            ApiError::RequestFailed => "Network request failed",
            ApiError::MissingField => "Missing expected data field",
        }
    }
}

impl CreationError {
    /// The message shown to the user for this failure.
    pub fn message(&self) -> (text: &'static str)
        ensures
            text@ == match *self {
                CreationError::ApiError(_) => "Something went wrong during fetching data"@,
                CreationError::BadUrl => "Url is incorrect"@,
            },
    {
        match self {
            CreationError::ApiError(_) => "Something went wrong during fetching data",
            CreationError::BadUrl => "Url is incorrect",
        }
    }
}

} // verus!
