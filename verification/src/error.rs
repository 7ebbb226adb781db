//! The ways in which an operation on a file can fail.

use vstd::prelude::*;

verus! {

/// Why an operation failed. The first failure of an operation is the one
/// that is reported; nothing is retried.
#[derive(Clone, Copy, Debug, PartialEq, Eq, Structural)]
pub enum IoError {
    /// The file does not exist and the operation may not create it.
    NotFound,
    /// The file exists and the operation must create it.
    AlreadyExists,
    /// The handle was not opened for the kind of access attempted.
    PermissionDenied,
    /// The bytes read are not valid UTF-8 text.
    InvalidData,
    /// Any other refusal, such as a combination of switches that no open
    /// call accepts.
    Other,
}

} // verus!
