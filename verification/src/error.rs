//! The unified error taxonomy.
//!
//! Every failure of the credential layer is returned as an [`Error`] value:
//! a kind from the closed taxonomy [`KeyringError`], together with the
//! underlying cause where one exists. Native platform errors and UTF-8
//! decoding failures are the two distinct failure universes merged here;
//! each gets its own construction entry point. An `Error` is built at the
//! point of failure and never mutated afterwards.

use vstd::prelude::*;
use vstd::string::StringExecFns;

verus! {

/// The kinds of failure this layer can report.
#[derive(Clone, Copy, PartialEq, Eq, Structural, Debug)]
pub enum KeyringError {
    /// The native secure-storage facility itself could not be opened.
    NoStorage,
    /// No secret exists at the given address.
    NoEntry,
    /// A stored secret's bytes are not valid UTF-8.
    BadEncoding,
    /// The native facility rejected an operation.
    PlatformFailure,
    /// The supplied identity variant does not match the active backend.
    BadIdentityMapPlatform,
}

/// The underlying cause of a failure, as plain values: the status code a
/// native call reported, or how far a stored value was valid UTF-8.
#[derive(Clone, Copy, PartialEq, Eq, Structural, Debug)]
pub enum ErrorCause {
    /// A native status code, as the platform API reported it.
    Platform { code: i32 },
    /// Decoding a stored secret failed; the first `valid_up_to` bytes were
    /// valid UTF-8.
    Encoding { valid_up_to: usize },
}

/// A failure of the credential layer: a kind plus its cause, if any.
#[derive(Clone, Copy, PartialEq, Eq, Structural, Debug)]
pub struct Error {
    pub kind: KeyringError,
    pub cause: Option<ErrorCause>,
}

/// The human-readable message that describes each failure kind.
pub open spec fn message_of(kind: KeyringError) -> Seq<char> {
    match kind {
        KeyringError::NoStorage => "the secure storage facility could not be opened"@,
        KeyringError::NoEntry => "no secret is stored for this identity"@,
        KeyringError::BadEncoding => "the stored secret is not valid UTF-8"@,
        KeyringError::PlatformFailure => "the platform storage facility reported a failure"@,
        KeyringError::BadIdentityMapPlatform => "the identity does not match the active platform"@,
    }
}

impl Error {
    /// Wraps a native platform failure: the given kind, with the native
    /// status code kept as the cause.
    pub fn new_from_platform(kind: KeyringError, code: i32) -> (r: Error)
        ensures
            r == (Error { kind, cause: Some(ErrorCause::Platform { code }) }),
    {
        Error { kind, cause: Some(ErrorCause::Platform { code }) }
    }

    /// Wraps a UTF-8 decoding failure: the length of the longest valid
    /// prefix is kept as the cause.
    pub fn new_from_encoding(valid_up_to: usize) -> (r: Error)
        ensures
            r == (Error {
                kind: KeyringError::BadEncoding,
                cause: Some(ErrorCause::Encoding { valid_up_to }),
            }),
    {
        Error { kind: KeyringError::BadEncoding, cause: Some(ErrorCause::Encoding { valid_up_to }) }
    }

    /// The message for this error's kind.
    pub fn message(&self) -> (s: String)
        ensures
            s@ == message_of(self.kind),
    {
        match self.kind {
            KeyringError::NoStorage => String::from_str(
                "the secure storage facility could not be opened",
            ),
            KeyringError::NoEntry => String::from_str("no secret is stored for this identity"),
            KeyringError::BadEncoding => String::from_str("the stored secret is not valid UTF-8"),
            KeyringError::PlatformFailure => String::from_str(
                "the platform storage facility reported a failure",
            ),
            KeyringError::BadIdentityMapPlatform => String::from_str(
                "the identity does not match the active platform",
            ),
        }
    }
}

impl From<KeyringError> for Error {
    /// An error with no underlying cause: the kind alone.
    fn from(kind: KeyringError) -> (r: Error) {
        Error { kind, cause: None }
    }
}

impl vstd::std_specs::convert::FromSpecImpl<KeyringError> for Error {
    open spec fn obeys_from_spec() -> bool {
        true
    }

    open spec fn from_spec(kind: KeyringError) -> Error {
        Error { kind, cause: None }
    }
}

} // verus!
