//! Where the bytes of an image are kept, and what can go wrong on the way to them.

use vstd::prelude::*;
use vstd::string::StringExecFns;
use crate::http_date::Timestamp;

pub mod opendal;

verus! {

/// Why an object could not be opened.
#[derive(Clone, Debug, PartialEq, Eq)]
pub enum StorageError {
    AccessDenied,
    NotFound,
    Other(String),
}

/// What kind of failure a storage backend reports.
#[derive(Clone, Copy, Debug, PartialEq, Eq, Structural)]
pub enum BackendFailure {
    /// The object does not exist.
    NotFound,
    /// The backend refused to hand the object out.
    PermissionDenied,
    /// Anything else.
    Other,
}

/// What is known of a stored object besides its bytes.
#[derive(Clone, Debug, PartialEq, Eq)]
pub struct StorageObject {
    /// The name under which the object is stored, a hint for decoders.
    pub name: Option<String>,
    /// When the object was last written, to the second.
    pub last_modified: Option<Timestamp>,
}

impl StorageError {
    /// What the error says of itself.
    pub open spec fn message_text(self) -> Seq<char> {
        match self {
            StorageError::AccessDenied => "access was denied"@,
            StorageError::NotFound => "data could not be found"@,
            StorageError::Other(reason) => "other: "@ + reason@,
        }
    }

    /// What the error says of itself.
    pub fn message(&self) -> (text: String)
        ensures
            text@ == self.message_text(),
    {
        match self {
            StorageError::AccessDenied => String::from_str("access was denied"),
            StorageError::NotFound => String::from_str("data could not be found"),
            StorageError::Other(reason) => String::from_str("other: ").concat(reason.as_str()),
        }
    }

    /// The error for a failure that a backend reports: not found and denied
    /// keep their kind, and everything else keeps the backend's description.
    pub fn classify(failure: BackendFailure, description: String) -> (e: StorageError)
        ensures
            failure == BackendFailure::NotFound ==> e == StorageError::NotFound,
            failure == BackendFailure::PermissionDenied ==> e == StorageError::AccessDenied,
            failure == BackendFailure::Other ==> e == StorageError::Other(description),
    {
        match failure {
            BackendFailure::NotFound => StorageError::NotFound,
            BackendFailure::PermissionDenied => StorageError::AccessDenied,
            BackendFailure::Other => StorageError::Other(description),
        }
    }
}

/// The whole seconds since the epoch of a time given in seconds and
/// nanoseconds, so that it compares exactly with an HTTP date; none for a
/// time before the epoch, which no HTTP date can name.
pub open spec fn whole_seconds(seconds: i64, nanoseconds: u32) -> Option<Timestamp> {
    if seconds < 0 {
        None
    } else {
        Some(seconds as u64)
    }
}

/// Drops the fraction of a second from a modification time.
pub fn truncate_to_seconds(seconds: i64, nanoseconds: u32) -> (r: Option<Timestamp>)
    ensures
        r == whole_seconds(seconds, nanoseconds),
{
    if seconds < 0 {
        None
    } else {
        Some(seconds as u64)
    }
}

} // verus!
