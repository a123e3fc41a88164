//! Error type of the engine.

use vstd::prelude::*;

verus! {

/// Errors that can occur in engine operations.
#[derive(Debug, Clone, PartialEq, Eq)]
pub enum Error {
    /// Storage I/O error.
    Storage(String),
    /// JSON or TOML could not be read or written.
    Serde(String),
    /// Invalid state encountered.
    InvalidState(String),
    /// Session not found.
    SessionNotFound(String),
    /// Decision kind other than COMPLETE or ISSUES.
    InvalidDecision(String),
    /// Missing required field in hook input.
    MissingField(String),
    /// Configuration error.
    Config(String),
}

/// The line shown to the user for each error.
pub open spec fn error_text(e: Error) -> Seq<char> {
    match e {
        Error::Storage(m) => "Storage error: "@ + m@,
        Error::Serde(m) => "Serialization error: "@ + m@,
        Error::InvalidState(m) => "Invalid state: "@ + m@,
        Error::SessionNotFound(m) => "Session not found: "@ + m@,
        Error::InvalidDecision(m) => "Invalid decision: "@ + m@,
        Error::MissingField(m) => "Missing required field: "@ + m@,
        Error::Config(m) => "Configuration error: "@ + m@,
    }
}

impl Error {
    /// The line shown to the user.
    pub fn message(&self) -> (r: String)
        ensures
            r@ == error_text(*self),
    {
        match self {
            Error::Storage(m) => crate::text::concat("Storage error: ", m.as_str()),
            Error::Serde(m) => crate::text::concat("Serialization error: ", m.as_str()),
            Error::InvalidState(m) => crate::text::concat("Invalid state: ", m.as_str()),
            Error::SessionNotFound(m) => crate::text::concat("Session not found: ", m.as_str()),
            Error::InvalidDecision(m) => crate::text::concat("Invalid decision: ", m.as_str()),
            Error::MissingField(m) => crate::text::concat("Missing required field: ", m.as_str()),
            Error::Config(m) => crate::text::concat("Configuration error: ", m.as_str()),
        }
    }
}

} // verus!
