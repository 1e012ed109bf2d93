//! Errors of the authentication flows.
use vstd::prelude::*;

verus! {

#[derive(Clone, Copy, Debug, PartialEq, Eq, Structural)]
pub enum AuthError {
    /// Malformed input, rejected before any state changes.
    InvalidInput,
    /// No such user or session for this actor.
    NotFound,
    /// Wrong code, expired code or unknown pending id: one answer for all three.
    InvalidCode,
    AlreadyConsumed,
    TooManyAttempts,
    EmailTaken,
    UsernameTaken,
    TwoFaRequired,
    TwoFaMismatch,
    TwoFaNotEnabled,
    TwoFaAlreadyEnabled,
    TwoFaNotPending,
    /// A bearer token that is malformed, unknown, revoked or expired.
    InvalidToken,
    /// Ids ran out.
    Internal,
}

} // verus!
