//! The error taxonomy of the login flow.

use vstd::prelude::*;

verus! {

/// Every terminal or locally recoverable failure the login flow can report.
#[derive(Clone, Copy, Debug, PartialEq, Eq, Structural)]
pub enum LoginError {
    /// Discovery yielded zero usable flows.  Fatal, never retried.
    NoCompatibleLoginMethod,
    /// Malformed or out-of-range menu input.  Recovered locally by re-prompting.
    InvalidUserSelection,
    /// Password authentication failed.  Recovered locally with fresh credentials.
    CredentialRejected,
    /// A network or protocol-level error.  Fatal for the current run.
    TransportOrProtocolFailure,
    /// Persistence was attempted before any authenticator succeeded.
    NotAuthenticated,
    /// Serialization or storage-write error.  Fatal, surfaced, no retry.
    PersistenceFailure,
}

/// The display text of each error variant.
pub open spec fn message_of(e: LoginError) -> Seq<char> {
    match e {
        LoginError::NoCompatibleLoginMethod => "Homeserver login types incompatible with this client"@,
        LoginError::InvalidUserSelection => "This is not a valid choice"@,
        LoginError::CredentialRejected => "Error logging in: the credentials were rejected"@,
        LoginError::TransportOrProtocolFailure => "A network or protocol error occurred"@,
        LoginError::NotAuthenticated => "A logged-in client should have a session"@,
        LoginError::PersistenceFailure => "The session could not be persisted"@,
    }
}

impl LoginError {
    /// A human-readable description of the error.
    pub fn message(&self) -> (r: &'static str)
        ensures
            r@ == message_of(*self),
    {
        match self {
            LoginError::NoCompatibleLoginMethod => "Homeserver login types incompatible with this client",
            LoginError::InvalidUserSelection => "This is not a valid choice",
            LoginError::CredentialRejected => "Error logging in: the credentials were rejected",
            LoginError::TransportOrProtocolFailure => "A network or protocol error occurred",
            LoginError::NotAuthenticated => "A logged-in client should have a session",
            LoginError::PersistenceFailure => "The session could not be persisted",
        }
    }
}

} // verus!
