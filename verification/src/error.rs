//! The error taxonomy of the authorization flow.

use vstd::prelude::*;

verus! {

/// Every way an authorization, exchange or resource request can fail.
///
/// Validation errors (client, redirect, scope) are terminal client errors.
/// Consent and presence errors collapse to a generic denial toward the
/// client, so that a caller cannot probe which precondition failed.
/// Storage errors are fatal for the current request and never retried.
#[derive(Clone, Copy, Debug, PartialEq, Eq, Structural)]
pub enum AuthError {
    ClientNotRegistered,
    RedirectMismatch,
    ScopeNotGranted,
    ConsentDenied,
    OwnerNotFound,
    OwnerNotActivated,
    PresenceNotRecorded,
    PresenceNotReady,
    CodeInvalidOrConsumed,
    TokenInvalidSignature,
    TokenExpired,
    TokenAudienceUnknown,
    StorageUnavailable,
}

/// The consent-gate outcomes that must stay indistinguishable to the client.
pub open spec fn spec_is_consent_error(e: AuthError) -> bool {
    ||| e == AuthError::ConsentDenied
    ||| e == AuthError::OwnerNotFound
    ||| e == AuthError::OwnerNotActivated
    ||| e == AuthError::PresenceNotRecorded
    ||| e == AuthError::PresenceNotReady
}

/// The form of an error shown to the client: consent and presence failures
/// all collapse to `ConsentDenied`; every other error keeps its identity.
pub fn outward_error(e: AuthError) -> (r: AuthError)
    ensures
        spec_is_consent_error(e) ==> r == AuthError::ConsentDenied,
        !spec_is_consent_error(e) ==> r == e,
{
    match e {
        AuthError::ConsentDenied => AuthError::ConsentDenied,
        AuthError::OwnerNotFound => AuthError::ConsentDenied,
        AuthError::OwnerNotActivated => AuthError::ConsentDenied,
        AuthError::PresenceNotRecorded => AuthError::ConsentDenied,
        AuthError::PresenceNotReady => AuthError::ConsentDenied,
        _ => e,
    }
}

} // verus!
