//! The error taxonomy shared by every fallible operation of the crate.

use vstd::prelude::*;

use vstd::string::StrSliceExecFns;
use vstd::string::StringExecFns;

verus! {

/// Why an operation failed. Each variant carries a human-readable detail
/// message; which variant comes back is part of each function's contract.
#[derive(Debug)]
pub enum QuonitorError {
    /// A credential was missing or rejected for the attempted operation.
    Auth(String),
    /// An upstream usage API answered with a non-success response or an
    /// unusable payload.
    Provider(String),
    /// A transport-level failure talking to an upstream API.
    Network(String),
    /// A key or cipher failure while protecting stored credentials.
    Encryption(String),
    /// The persistent store reported a failure.
    Database(String),
    /// An unknown provider identifier or a missing account.
    Config(String),
}

impl QuonitorError {
    /// The detail message carried by the error, whatever its variant.
    pub open spec fn spec_message(&self) -> Seq<char> {
        match self {
            QuonitorError::Auth(m) => m@,
            QuonitorError::Provider(m) => m@,
            QuonitorError::Network(m) => m@,
            QuonitorError::Encryption(m) => m@,
            QuonitorError::Database(m) => m@,
            QuonitorError::Config(m) => m@,
        }
    }

    /// The full diagnostic line: the variant's prefix followed by the
    /// detail message.
    pub open spec fn spec_describe(&self) -> Seq<char> {
        match self {
            QuonitorError::Auth(m) => "Authentication error: "@ + m@,
            QuonitorError::Provider(m) => "Provider error: "@ + m@,
            QuonitorError::Network(m) => "Network error: "@ + m@,
            QuonitorError::Encryption(m) => "Encryption error: "@ + m@,
            QuonitorError::Database(m) => "Database error: "@ + m@,
            QuonitorError::Config(m) => "Invalid configuration: "@ + m@,
        }
    }

    /// Renders the error as one diagnostic line.
    pub fn describe(&self) -> (r: String)
        ensures
            r@ == self.spec_describe(),
    {
        let prefix = match self {
            QuonitorError::Auth(_) => "Authentication error: ",
            QuonitorError::Provider(_) => "Provider error: ",
            QuonitorError::Network(_) => "Network error: ",
            QuonitorError::Encryption(_) => "Encryption error: ",
            QuonitorError::Database(_) => "Database error: ",
            QuonitorError::Config(_) => "Invalid configuration: ",
        };
        let mut out = String::from_str(prefix);
        out.append(self.message());
        out
    }

    /// Returns the detail message of the error.
    pub fn message(&self) -> (r: &str)
        ensures
            r@ == self.spec_message(),
    {
        match self {
            QuonitorError::Auth(m) => m.as_str(),
            QuonitorError::Provider(m) => m.as_str(),
            QuonitorError::Network(m) => m.as_str(),
            QuonitorError::Encryption(m) => m.as_str(),
            QuonitorError::Database(m) => m.as_str(),
            QuonitorError::Config(m) => m.as_str(),
        }
    }
}

} // verus!
