//! The errors of the column library.

use vstd::prelude::*;
use vstd::string::*;
use crate::error::ErrorCode;

verus! {

/// Enum with all errors in this crate.
#[derive(Debug, Clone, PartialEq, Eq)]
#[non_exhaustive]
pub enum Error {
    /// Returned when functionality is not yet available.
    NotYetImplemented(String),
    /// Wrapper for an error triggered by a dependency: a message, and the
    /// dependency's error in words.
    External(String, String),
    /// Wrapper for IO errors, in words.
    Io(String),
    /// When an invalid argument is passed to a function.
    InvalidArgumentError(String),
    /// Error during import or export to/from a format
    ExternalFormat(String),
    /// Whenever pushing to a container fails because it does not support
    /// more entries. The solution is usually to use a higher-capacity
    /// container-backing type.
    Overflow,
    /// Whenever incoming data from the C data interface, IPC or Flight does
    /// not fulfil the Arrow specification.
    OutOfSpec(String),
}

/// Typedef for a [`std::result::Result`] of an [`Error`].
pub type Result<T> = std::result::Result<T, Error>;

impl Error {
    /// The error in words.
    pub open spec fn display(self) -> Seq<char> {
        match self {
            Error::NotYetImplemented(source) => "Not yet implemented: "@ + source@,
            Error::External(message, source) => "External error"@ + message@ + ": "@ + source@,
            Error::Io(desc) => "Io error: "@ + desc@,
            Error::InvalidArgumentError(desc) => "Invalid argument error: "@ + desc@,
            Error::ExternalFormat(desc) => "External format error: "@ + desc@,
            Error::Overflow => "Operation overflew the backing container."@,
            Error::OutOfSpec(message) => message@,
        }
    }

    /// Wraps an external error in an `Error`: the error is kept in the
    /// words that its `Display` gives.
    pub fn from_external_error<E: std::fmt::Display>(error: E) -> (r: Self)
        ensures
            r matches Error::External(message, source) && message@.len() == 0
                && to_string_from_display_ensures(&error, source),
    {
        proof {
            reveal_strlit("");
        }
        let source = error.to_string();
        Self::External(String::from_str(""), source)
    }

    /// An error of data that is out of specification.
    pub fn oos(msg: &str) -> (r: Self)
        ensures
            r matches Error::OutOfSpec(m) && m@ == msg@,
    {
        Self::OutOfSpec(String::from_str(msg))
    }

    /// An error of something that is not there yet.
    pub fn nyi(msg: &str) -> (r: Self)
        ensures
            r matches Error::NotYetImplemented(m) && m@ == msg@,
    {
        Self::NotYetImplemented(String::from_str(msg))
    }

    /// Writes the error in words.
    pub fn to_string(&self) -> (r: String)
        ensures
            r@ == self.display(),
    {
        match self {
            Error::NotYetImplemented(source) => {
                let mut r = String::from_str("Not yet implemented: ");
                r.append(source.as_str());
                r
            },
            Error::External(message, source) => {
                let mut r = String::from_str("External error");
                r.append(message.as_str());
                r.append(": ");
                r.append(source.as_str());
                r
            },
            Error::Io(desc) => {
                let mut r = String::from_str("Io error: ");
                r.append(desc.as_str());
                r
            },
            Error::InvalidArgumentError(desc) => {
                let mut r = String::from_str("Invalid argument error: ");
                r.append(desc.as_str());
                r
            },
            Error::ExternalFormat(desc) => {
                let mut r = String::from_str("External format error: ");
                r.append(desc.as_str());
                r
            },
            Error::Overflow => String::from_str("Operation overflew the backing container."),
            Error::OutOfSpec(message) => message.clone(),
        }
    }

    /// The error as an error of the storage core: what is not there yet
    /// stays so, marked as coming from the column library; anything else is
    /// an internal error with the error's words.
    pub fn into_error_code(self) -> (r: ErrorCode)
        ensures
            match self {
                Error::NotYetImplemented(v) => r matches ErrorCode::Unimplemented(m) && m@
                    == "arrow: "@ + v@,
                _ => r matches ErrorCode::Internal(m) && m@ == self.display(),
            },
    {
        match self {
            Error::NotYetImplemented(v) => {
                let mut m = String::from_str("arrow: ");
                m.append(v.as_str());
                ErrorCode::Unimplemented(m)
            },
            other => ErrorCode::Internal(other.to_string()),
        }
    }
}

} // verus!
