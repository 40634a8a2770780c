//! The ways in which a request is refused.

use vstd::prelude::*;

verus! {

/// Why a presented token did not get its bearer in.
#[derive(Clone, Copy, Debug, PartialEq, Eq, Structural)]
pub enum AuthError {
    /// The presented string has the shape of no kind of token.
    MalformedToken,
    /// The presented string is a token of the format that is no longer
    /// accepted.
    LegacyTokenRejected,
    /// No token that is in force has the presented secret. Whether there
    /// never was one or it has been revoked is not told.
    InvalidOrRevokedToken,
    /// The token is in force but does not cover what was asked for.
    InsufficientScope,
    /// The table of tokens could not be reached.
    StoreUnavailable,
}

/// What the bearer of a refused token gets to see.
#[derive(Clone, Copy, Debug, PartialEq, Eq, Structural)]
pub enum Refusal {
    /// The bearer is not known. Nothing tells apart a malformed token, an
    /// outdated one, one that never existed and one that has been revoked.
    Unauthenticated,
    /// The bearer is known but may not do this.
    Forbidden,
    /// The service cannot answer now.
    Unavailable,
}

impl AuthError {
    /// What the bearer gets to see of this error.
    pub open spec fn shown(self) -> Refusal {
        match self {
            AuthError::MalformedToken => Refusal::Unauthenticated,
            AuthError::LegacyTokenRejected => Refusal::Unauthenticated,
            AuthError::InvalidOrRevokedToken => Refusal::Unauthenticated,
            AuthError::InsufficientScope => Refusal::Forbidden,
            AuthError::StoreUnavailable => Refusal::Unavailable,
        }
    }

    /// What the bearer gets to see of this error.
    pub fn refusal(&self) -> (shown: Refusal)
        ensures
            shown == self.shown(),
    {
        match self {
            AuthError::MalformedToken => Refusal::Unauthenticated,
            AuthError::LegacyTokenRejected => Refusal::Unauthenticated,
            AuthError::InvalidOrRevokedToken => Refusal::Unauthenticated,
            AuthError::InsufficientScope => Refusal::Forbidden,
            AuthError::StoreUnavailable => Refusal::Unavailable,
        }
    }

    /// Whether this error is an expected outcome of a request, as opposed
    /// to a fault of the service that is to be reported to its operators.
    pub fn is_expected(&self) -> (expected: bool)
        ensures
            expected == (*self != AuthError::StoreUnavailable),
    {
        match self {
            AuthError::StoreUnavailable => false,
            _ => true,
        }
    }
}

/// Every failure to authenticate is shown to the bearer in the same way,
/// so that the answer does not tell whether a token exists.
pub proof fn lemma_failures_to_authenticate_look_alike(a: AuthError, b: AuthError)
    requires
        a == AuthError::MalformedToken || a == AuthError::LegacyTokenRejected || a
            == AuthError::InvalidOrRevokedToken,
        b == AuthError::MalformedToken || b == AuthError::LegacyTokenRejected || b
            == AuthError::InvalidOrRevokedToken,
    ensures
        a.shown() == b.shown(),
        a.shown() == Refusal::Unauthenticated,
{
}

} // verus!
