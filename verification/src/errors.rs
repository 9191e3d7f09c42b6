//! Error taxonomy of the session engine.
//!
//! Admission failures surface as invalid-argument errors before any session
//! state is touched; registry and mailbox failures abort the requesting
//! operation; matchmaking lookups that cannot be served are unavailable.

use vstd::prelude::*;

verus! {

/// The class of a [`SessionError`].
#[derive(Debug, Clone, Copy, PartialEq, Eq, Structural)]
pub enum ErrorCode {
    /// The caller supplied missing or malformed identifiers.
    InvalidArgument,
    /// The operation had to give up, e.g. because a mailbox closed.
    Aborted,
    /// An upstream collaborator could not serve the request.
    Unavailable,
}

/// An error carried back to the immediate caller of a session operation.
#[derive(Debug)]
pub struct SessionError {
    pub code: ErrorCode,
    pub message: String,
}

impl SessionError {
    /// An admission error: the connection lacked a resolvable identifier.
    pub fn invalid_argument(message: String) -> (r: SessionError)
        ensures
            r.code == ErrorCode::InvalidArgument,
            r.message == message,
    {
        SessionError { code: ErrorCode::InvalidArgument, message }
    }

    /// An aborted operation, such as a send into a closed mailbox.
    pub fn aborted(message: String) -> (r: SessionError)
        ensures
            r.code == ErrorCode::Aborted,
            r.message == message,
    {
        SessionError { code: ErrorCode::Aborted, message }
    }

    /// An unavailable upstream collaborator.
    pub fn unavailable(message: String) -> (r: SessionError)
        ensures
            r.code == ErrorCode::Unavailable,
            r.message == message,
    {
        SessionError { code: ErrorCode::Unavailable, message }
    }
}

} // verus!
