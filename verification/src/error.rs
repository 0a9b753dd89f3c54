//! The errors of the library.

use vstd::prelude::*;
use crate::session::{hyphenated, SessionId};
use crate::text::{decimal, decimal_chars, from_chars};

verus! {

/// What can go wrong.
#[derive(Debug, Clone, PartialEq, Eq)]
pub enum Error {
    /// No session has this identifier.
    SessionNotFound(SessionId),
    /// No element has this reference.
    ElementNotFound(String),
    /// The pseudo-terminal failed.
    PtyError(String),
    /// The security policy rejects this command.
    CommandNotAllowed(String),
    /// A wait ended without its condition, after this many milliseconds.
    WaitTimeout(u64),
    /// This text names no key.
    InvalidKey(String),
    /// The registry is full; it holds at most this many sessions.
    SessionLimitReached(usize),
    /// A terminal cannot have this size.
    InvalidDimensions {
        /// Number of rows asked for.
        rows: u16,
        /// Number of columns asked for.
        cols: u16,
    },
    /// The session has been closed.
    SessionTerminated,
    /// Structured input could not be parsed.
    ParseError(String),
    /// Reading or writing failed.
    Io(String),
    /// The configuration is not valid.
    Config(String),
    /// A value could not be serialised or read back.
    Serialization(String),
    /// A parameter is outside its domain.
    InvalidInput(String),
    /// Anything else.
    Other(String),
}

/// The result of an operation of the library.
pub type Result<T> = core::result::Result<T, Error>;

impl Error {
    /// The message of the error.
    pub open spec fn message(&self) -> Seq<char> {
        match *self {
            Error::SessionNotFound(id) => "Session not found: "@ + hyphenated(id.bits()),
            Error::ElementNotFound(s) => "Element not found: "@ + s@,
            Error::PtyError(s) => "PTY error: "@ + s@,
            Error::CommandNotAllowed(s) => "Command not allowed: "@ + s@,
            Error::WaitTimeout(ms) => "Timeout waiting for condition after "@ + decimal(
                ms as nat,
            ) + "ms"@,
            Error::InvalidKey(s) => "Invalid key: "@ + s@,
            Error::SessionLimitReached(max) => "Session limit reached (max: "@ + decimal(
                max as nat,
            ) + ")"@,
            Error::InvalidDimensions { rows, cols } => "Invalid dimensions: "@ + decimal(
                rows as nat,
            ) + "x"@ + decimal(cols as nat),
            Error::SessionTerminated => "Session already terminated"@,
            Error::ParseError(s) => "Parse error: "@ + s@,
            Error::Io(s) => "IO error: "@ + s@,
            Error::Config(s) => "Configuration error: "@ + s@,
            Error::Serialization(s) => "Serialization error: "@ + s@,
            Error::InvalidInput(s) => "Invalid input: "@ + s@,
            Error::Other(s) => s@,
        }
    }

    /// The message of the error, as it is shown to a caller.
    pub fn to_string(&self) -> (text: String)
        ensures
            text@ == self.message(),
    {
        match self {
            Error::SessionNotFound(id) => {
                let t = id.to_string();
                String::from_str("Session not found: ").concat(t.as_str())
            },
            Error::ElementNotFound(s) => String::from_str("Element not found: ").concat(
                s.as_str(),
            ),
            Error::PtyError(s) => String::from_str("PTY error: ").concat(s.as_str()),
            Error::CommandNotAllowed(s) => String::from_str("Command not allowed: ").concat(
                s.as_str(),
            ),
            Error::WaitTimeout(ms) => {
                let n = from_chars(&decimal_chars(*ms as u128));
                String::from_str("Timeout waiting for condition after ").concat(
                    n.as_str(),
                ).concat("ms")
            },
            Error::InvalidKey(s) => String::from_str("Invalid key: ").concat(s.as_str()),
            Error::SessionLimitReached(max) => {
                let n = from_chars(&decimal_chars(*max as u128));
                String::from_str("Session limit reached (max: ").concat(n.as_str()).concat(")")
            },
            Error::InvalidDimensions { rows, cols } => {
                let r = from_chars(&decimal_chars(*rows as u128));
                let c = from_chars(&decimal_chars(*cols as u128));
                String::from_str("Invalid dimensions: ").concat(r.as_str()).concat("x").concat(
                    c.as_str(),
                )
            },
            Error::SessionTerminated => String::from_str("Session already terminated"),
            Error::ParseError(s) => String::from_str("Parse error: ").concat(s.as_str()),
            Error::Io(s) => String::from_str("IO error: ").concat(s.as_str()),
            Error::Config(s) => String::from_str("Configuration error: ").concat(s.as_str()),
            Error::Serialization(s) => String::from_str("Serialization error: ").concat(
                s.as_str(),
            ),
            Error::InvalidInput(s) => String::from_str("Invalid input: ").concat(s.as_str()),
            Error::Other(s) => s.clone(),
        }
    }
}

} // verus!
