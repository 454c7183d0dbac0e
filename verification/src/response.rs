//! What an operation hands back: the failure of the store as the status that the
//! caller sees, and the bodies that report a write.

use vstd::prelude::*;
use crate::models::scalar::EntityId;

verus! {

/// Why the store did not carry out a statement.
#[derive(Clone, Copy, Debug, PartialEq, Eq, Structural)]
pub enum StoreError {
    /// A row with the same identifier or the same slug exists already.
    UniqueViolation,
    /// The row refers to a category that does not exist.
    ForeignKeyViolation,
    /// The store could not be reached, or failed for another reason.
    Unavailable,
}

/// The status of a response.
#[derive(Clone, Copy, Debug, PartialEq, Eq, Structural)]
pub enum StatusCode {
    Success,
    InternalServerError,
}

impl StatusCode {
    /// The status as a number.
    pub open spec fn code(self) -> int {
        match self {
            StatusCode::Success => 200,
            StatusCode::InternalServerError => 500,
        }
    }

    /// The status as a number.
    pub fn as_u16(&self) -> (n: u16)
        ensures
            n == self.code(),
    {
        match self {
            StatusCode::Success => 200,
            StatusCode::InternalServerError => 500,
        }
    }
}

/// The status that reports a failure of the store. Whatever went wrong, the
/// caller learns only that the server failed.
pub fn store_failure(error: StoreError) -> (status: StatusCode)
    ensures
        status == StatusCode::InternalServerError,
{
    StatusCode::InternalServerError
}

/// The status with which a response is sent: success with an answer, and with
/// a failure the failure's own status.
pub fn status_of<T>(response: &Result<T, StatusCode>) -> (status: StatusCode)
    ensures
        status == match *response {
            Ok(_) => StatusCode::Success,
            Err(failure) => failure,
        },
{
    match response {
        Ok(_) => StatusCode::Success,
        Err(failure) => *failure,
    }
}

/// The body that reports a created row: the success flag and the new identifier.
#[derive(Clone, Copy, Debug, PartialEq, Eq, Structural)]
pub struct Created {
    pub success: bool,
    pub id: EntityId,
}

/// The body that reports a delete: the success flag.
#[derive(Clone, Copy, Debug, PartialEq, Eq, Structural)]
pub struct Deleted {
    pub success: bool,
}

} // verus!
