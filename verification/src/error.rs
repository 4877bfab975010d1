//! Errors that the tunnel core distinguishes.
//!
//! Protocol-level failures become client errors on the HTTP side; transfer
//! failures inside a running handler are signalled out of band through the
//! session state instead, so they are not listed here.

use vstd::prelude::*;

verus! {

/// A failure that a session endpoint reports to its caller.
#[derive(Clone, Copy, Debug, PartialEq, Eq, Structural)]
pub enum TunnelError {
    /// The id in the request path is not the canonical textual form of a
    /// 128-bit session id.
    MalformedId,
    /// The id parsed, but the registry holds no session under it.
    SessionNotFound,
    /// The body answering `open` was not a 16-byte session id, so no session
    /// was established.
    OpenFailed,
}

impl TunnelError {
    /// A short operator-readable description, used as an HTTP response body.
    pub fn message(&self) -> (m: &'static str)
        ensures
            *self == TunnelError::MalformedId ==> m@ == "malformed session id"@,
            *self == TunnelError::SessionNotFound ==> m@ == "session not found"@,
            *self == TunnelError::OpenFailed ==> m@ == "could not open session"@,
    {
        match self {
            TunnelError::MalformedId => "malformed session id",
            TunnelError::SessionNotFound => "session not found",
            TunnelError::OpenFailed => "could not open session",
        }
    }
}

} // verus!
