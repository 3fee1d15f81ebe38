//! The error kinds that the storage core reports.

use vstd::prelude::*;

verus! {

/// An error of the storage core. Each kind carries the message that tells
/// the caller what was wrong.
#[derive(Debug, Clone, PartialEq, Eq)]
pub enum ErrorCode {
    /// A required table option is missing. Not retryable.
    Configuration(String),
    /// A block disagrees with the declared schema in width, type or
    /// nullability. Not retryable.
    TableSchemaMismatch(String),
    /// An object key is malformed.
    StorageOther(String),
    /// A read, write or delete of the object store failed.
    StorageUnavailable(String),
    /// A value could not be read from its bytes or text.
    BadBytes(String),
    /// An argument is outside what the operation accepts.
    BadArguments(String),
    /// A statement is well formed but means nothing.
    SemanticError(String),
    /// A token or credential was not accepted.
    AuthenticateFailure(String),
    /// No further connection is taken.
    TooManyUserConnections(String),
    /// The server is shutting down.
    AbortedSession(String),
    /// What is known of a table does not hold what was looked for.
    TableInfoError(String),
    /// A feature that is not there yet.
    Unimplemented(String),
    /// Anything else.
    Internal(String),
}

impl ErrorCode {
    /// The message carried by the error.
    pub open spec fn message_view(self) -> Seq<char> {
        match self {
            ErrorCode::Configuration(m) => m@,
            ErrorCode::TableSchemaMismatch(m) => m@,
            ErrorCode::StorageOther(m) => m@,
            ErrorCode::StorageUnavailable(m) => m@,
            ErrorCode::BadBytes(m) => m@,
            ErrorCode::BadArguments(m) => m@,
            ErrorCode::SemanticError(m) => m@,
            ErrorCode::AuthenticateFailure(m) => m@,
            ErrorCode::TooManyUserConnections(m) => m@,
            ErrorCode::AbortedSession(m) => m@,
            ErrorCode::TableInfoError(m) => m@,
            ErrorCode::Unimplemented(m) => m@,
            ErrorCode::Internal(m) => m@,
        }
    }

    /// The message carried by the error.
    pub fn message(&self) -> (m: &str)
        ensures
            m@ == self.message_view(),
    {
        match self {
            ErrorCode::Configuration(m) => m.as_str(),
            ErrorCode::TableSchemaMismatch(m) => m.as_str(),
            ErrorCode::StorageOther(m) => m.as_str(),
            ErrorCode::StorageUnavailable(m) => m.as_str(),
            ErrorCode::BadBytes(m) => m.as_str(),
            ErrorCode::BadArguments(m) => m.as_str(),
            ErrorCode::SemanticError(m) => m.as_str(),
            ErrorCode::AuthenticateFailure(m) => m.as_str(),
            ErrorCode::TooManyUserConnections(m) => m.as_str(),
            ErrorCode::AbortedSession(m) => m.as_str(),
            ErrorCode::TableInfoError(m) => m.as_str(),
            ErrorCode::Unimplemented(m) => m.as_str(),
            ErrorCode::Internal(m) => m.as_str(),
        }
    }
}

} // verus!
