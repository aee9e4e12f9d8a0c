//! The failures a request can end in, with the status and text each maps to.
use vstd::prelude::*;
use vstd::string::StringExecFns;

verus! {

/// Every way a read request can end other than with a result.
///
/// `NotFound` is an empty but successful outcome; it is kept apart from
/// `StorageError` so that callers can tell "nothing played" from an outage.
/// The `String` payloads carry the text of the underlying cause.
#[derive(Debug, Clone)]
pub enum ServiceError {
    InvalidInput,
    ResourceUnavailable(String),
    StorageError(String),
    NotFound,
    SerializationError(String),
}

/// The HTTP status that each error is answered with.
pub open spec fn status_of(e: ServiceError) -> u16 {
    match e {
        ServiceError::InvalidInput => 400,
        ServiceError::NotFound => 404,
        _ => 500,
    }
}

/// The human-readable text for each error, embedding its cause.
pub open spec fn message_of(e: ServiceError) -> Seq<char> {
    match e {
        ServiceError::InvalidInput => "Invalid category. Use 'artists', 'albums', or 'genres'."@,
        ServiceError::ResourceUnavailable(c) => "Failed to get DB from pool: "@ + c@,
        ServiceError::StorageError(c) => "Database error: "@ + c@,
        ServiceError::NotFound => "No top tracks found"@,
        ServiceError::SerializationError(c) => "Failed to serialize response: "@ + c@,
    }
}

impl ServiceError {
    pub fn status_code(&self) -> (r: u16)
        ensures
            r == status_of(*self),
    {
        match self {
            ServiceError::InvalidInput => 400,
            ServiceError::NotFound => 404,
            _ => 500,
        }
    }

    pub fn message(&self) -> (r: String)
        ensures
            r@ == message_of(*self),
    {
        match self {
            ServiceError::InvalidInput => String::from_str(
                "Invalid category. Use 'artists', 'albums', or 'genres'.",
            ),
            ServiceError::ResourceUnavailable(c) => String::from_str(
                "Failed to get DB from pool: ",
            ).concat(c.as_str()),
            ServiceError::StorageError(c) => String::from_str("Database error: ").concat(
                c.as_str(),
            ),
            ServiceError::NotFound => String::from_str("No top tracks found"),
            ServiceError::SerializationError(c) => String::from_str(
                "Failed to serialize response: ",
            ).concat(c.as_str()),
        }
    }
}

} // verus!
