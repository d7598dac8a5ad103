//! The semantic Grant tuple and the issued-token value.

use vstd::prelude::*;

verus! {

/// How long an issued bearer token stays valid, in seconds (30 days).
pub const TOKEN_LIFETIME_SECONDS: i64 = 2592000;

/// How long an authorization code stays valid, in seconds.
pub const CODE_LIFETIME_SECONDS: i64 = 600;

/// The mathematical value of a [`Grant`].
#[verifier::ext_equal]
pub struct SpecGrant {
    pub owner_id: int,
    pub client_id: Seq<char>,
    pub scope: Seq<char>,
    pub redirect_uri: Seq<char>,
    pub until: int,
}

/// The authorized tuple underlying a code or token: which owner granted
/// which client which scope, toward which redirect URI, until when
/// (seconds since the epoch).
pub struct Grant {
    /// The resource owner, by integer identifier (never negative).
    pub owner_id: i32,
    pub client_id: String,
    pub scope: String,
    pub redirect_uri: String,
    pub until: i64,
}

impl View for Grant {
    type V = SpecGrant;

    open spec fn view(&self) -> SpecGrant {
        SpecGrant {
            owner_id: self.owner_id as int,
            client_id: self.client_id@,
            scope: self.scope@,
            redirect_uri: self.redirect_uri@,
            until: self.until as int,
        }
    }
}

/// A freshly minted bearer token and the moment it expires.
pub struct IssuedToken {
    pub token: String,
    pub until: i64,
}

} // verus!
