//! The signed-token issuer and the signed-code authorizer.
//!
//! Both are stateless: the bearer token (or the authorization code) is a
//! signed claim set.  Recovery verifies the signature, the issuer name,
//! that the audience is a registered client, and that the expiry has not
//! passed, and re-derives the redirect URI from the registry — never from
//! the token itself.

use vstd::prelude::*;

use crate::error::AuthError;
use crate::grant::Grant;
use crate::grant::IssuedToken;
use crate::grant::SpecGrant;
use crate::grant::TOKEN_LIFETIME_SECONDS;
use crate::jwt::Claims;
use crate::jwt::SpecClaims;
use crate::jwt::jwt_decode;
use crate::jwt::jwt_sign;
use crate::jwt::spec_jwk_signs;
use crate::jwt::token_claims_of;
use crate::numstr::dec_to_i32;
use crate::numstr::i32_to_dec;
use crate::numstr::lemma_parse_of_dec_str;
use crate::numstr::spec_dec_str;
use crate::numstr::spec_parse_dec;
use crate::registry::ClientData;
use crate::registry::ClientRegistry;
use crate::registry::spec_lookup;

verus! {

/// The claims that a signed credential for `g` carries: subject is the
/// owner in decimal, audience is the client, issued at `iat`, expiring at
/// `exp`, under issuer `iss`.
pub open spec fn spec_claims_for(g: SpecGrant, iss: Seq<char>, iat: int, exp: int) -> SpecClaims {
    SpecClaims { sub: spec_dec_str(g.owner_id), iss, aud: g.client_id, scope: g.scope, iat, exp }
}

/// What recovering a signed credential yields: the signature must check
/// out under `key`, the issuer must be `iss`, the audience must be a
/// registered client, the expiry must lie in the future, and the subject
/// must spell an owner identifier; the grant is then rebuilt with the
/// registered redirect URI.
pub open spec fn spec_recover_signed(
    key: Seq<char>,
    clients: Seq<ClientData>,
    token: Seq<char>,
    iss: Seq<char>,
    now: int,
) -> Result<SpecGrant, AuthError> {
    match token_claims_of(key, token) {
        None => Err(AuthError::TokenInvalidSignature),
        Some(c) => if c.iss != iss {
            Err(AuthError::TokenInvalidSignature)
        } else {
            match spec_lookup(clients, c.aud) {
                None => Err(AuthError::TokenAudienceUnknown),
                Some(cd) => if c.exp <= now {
                    Err(AuthError::TokenExpired)
                } else {
                    match spec_parse_dec(c.sub) {
                        None => Err(AuthError::TokenInvalidSignature),
                        Some(o) => if o <= i32::MAX {
                            Ok(
                                SpecGrant {
                                    owner_id: o,
                                    client_id: c.aud,
                                    scope: c.scope,
                                    redirect_uri: cd.url@,
                                    until: c.exp,
                                },
                            )
                        } else {
                            Err(AuthError::TokenInvalidSignature)
                        },
                    }
                },
            }
        },
    }
}

/// Verifies a signed credential and rebuilds its grant, exactly as
/// `spec_recover_signed` says.
fn recover_signed(
    jwk: &String,
    registry: &ClientRegistry,
    token: &String,
    iss: &String,
    now: i64,
) -> (r: Result<Grant, AuthError>)
    ensures
        match r {
            Ok(g) => spec_recover_signed(jwk@, registry.clients@, token@, iss@, now as int)
                == Ok::<SpecGrant, AuthError>(g@),
            Err(e) => spec_recover_signed(jwk@, registry.clients@, token@, iss@, now as int)
                == Err::<SpecGrant, AuthError>(e),
        },
{
    let c = match jwt_decode(jwk.as_str(), token.as_str()) {
        Some(c) => c,
        None => {
            return Err(AuthError::TokenInvalidSignature);
        },
    };
    if !(c.iss == *iss) {
        return Err(AuthError::TokenInvalidSignature);
    }
    let cd = match registry.lookup(&c.aud) {
        Some(cd) => cd,
        None => {
            return Err(AuthError::TokenAudienceUnknown);
        },
    };
    if c.exp <= now {
        return Err(AuthError::TokenExpired);
    }
    let o = match dec_to_i32(c.sub.as_str()) {
        Some(o) => o,
        None => {
            return Err(AuthError::TokenInvalidSignature);
        },
    };
    Ok(
        Grant {
            owner_id: o,
            client_id: c.aud.clone(),
            scope: c.scope.clone(),
            redirect_uri: cd.url.clone(),
            until: c.exp,
        },
    )
}

/// The signed-token issuer: mints self-contained bearer tokens under the
/// issuer name `id`, valid for `TOKEN_LIFETIME_SECONDS`.
pub struct JwtIssuer {
    /// The signing key, as JSON Web Key text.
    pub jwk: String,
}

impl JwtIssuer {
    /// Mints a signed bearer token for `grant` at time `now`.  Whatever
    /// token string the signer returns, it decodes under the same key to
    /// exactly the claims of the grant.  Succeeds exactly when the key
    /// can sign.
    pub fn issue(&self, grant: &Grant, now: i64) -> (r: Result<IssuedToken, AuthError>)
        requires
            0 <= grant.owner_id,
            now + TOKEN_LIFETIME_SECONDS <= i64::MAX,
        ensures
            r is Ok <==> spec_jwk_signs(self.jwk@),
            match r {
                Ok(t) => {
                    &&& t.until == now + TOKEN_LIFETIME_SECONDS
                    &&& token_claims_of(self.jwk@, t.token@) == Some(
                        spec_claims_for(grant@, "id"@, now as int, now + TOKEN_LIFETIME_SECONDS),
                    )
                },
                Err(e) => e == AuthError::StorageUnavailable,
            },
    {
        let until = now + TOKEN_LIFETIME_SECONDS;
        let claims = Claims {
            sub: i32_to_dec(grant.owner_id),
            iss: "id".to_owned(),
            aud: grant.client_id.clone(),
            scope: grant.scope.clone(),
            iat: now,
            exp: until,
        };
        match jwt_sign(self.jwk.as_str(), &claims) {
            Some(token) => Ok(IssuedToken { token, until }),
            None => Err(AuthError::StorageUnavailable),
        }
    }

    /// Verifies a bearer token issued under `id` and rebuilds its grant,
    /// re-deriving the redirect URI from the registry by audience.
    pub fn recover_token(&self, registry: &ClientRegistry, token: &String, now: i64) -> (r: Result<
        Grant,
        AuthError,
    >)
        ensures
            match r {
                Ok(g) => spec_recover_signed(self.jwk@, registry.clients@, token@, "id"@, now as int)
                    == Ok::<SpecGrant, AuthError>(g@),
                Err(e) => spec_recover_signed(
                    self.jwk@,
                    registry.clients@,
                    token@,
                    "id"@,
                    now as int,
                ) == Err::<SpecGrant, AuthError>(e),
            },
    {
        let iss = "id".to_owned();
        recover_signed(&self.jwk, registry, token, &iss, now)
    }

    /// Refresh tokens are unsupported by design: re-authorization is
    /// required each time, so refreshing always fails.
    pub fn refresh(&self, _token: &String, _grant: &Grant) -> (r: Option<IssuedToken>)
        ensures
            r is None,
    {
        None
    }

    /// Refresh tokens are unsupported by design, so none can be recovered.
    pub fn recover_refresh(&self, _token: &String) -> (r: Option<Grant>)
        ensures
            r is None,
    {
        None
    }
}

/// The signed-code authorizer: authorization codes as signed claim sets
/// under the issuer name `id-grant`, expiring with the grant itself.
pub struct JwtAuthorizer {
    /// The signing key, as JSON Web Key text.
    pub jwk: String,
}

impl JwtAuthorizer {
    /// Mints a signed authorization code for `grant` at time `now`,
    /// expiring when the grant does.  Succeeds exactly when the key can
    /// sign.  Being stateless, such a code is not single-use: only the
    /// relational authorizer redeems exactly once.
    pub fn authorize(&self, grant: &Grant, now: i64) -> (r: Result<String, AuthError>)
        requires
            0 <= grant.owner_id,
        ensures
            r is Ok <==> spec_jwk_signs(self.jwk@),
            match r {
                Ok(code) => token_claims_of(self.jwk@, code@) == Some(
                    spec_claims_for(grant@, "id-grant"@, now as int, grant@.until),
                ),
                Err(e) => e == AuthError::StorageUnavailable,
            },
    {
        let claims = Claims {
            sub: i32_to_dec(grant.owner_id),
            iss: "id-grant".to_owned(),
            aud: grant.client_id.clone(),
            scope: grant.scope.clone(),
            iat: now,
            exp: grant.until,
        };
        match jwt_sign(self.jwk.as_str(), &claims) {
            Some(code) => Ok(code),
            None => Err(AuthError::StorageUnavailable),
        }
    }

    /// Verifies a signed authorization code issued under `id-grant` and
    /// rebuilds its grant.
    pub fn extract(&self, registry: &ClientRegistry, code: &String, now: i64) -> (r: Result<
        Grant,
        AuthError,
    >)
        ensures
            match r {
                Ok(g) => spec_recover_signed(
                    self.jwk@,
                    registry.clients@,
                    code@,
                    "id-grant"@,
                    now as int,
                ) == Ok::<SpecGrant, AuthError>(g@),
                Err(e) => spec_recover_signed(
                    self.jwk@,
                    registry.clients@,
                    code@,
                    "id-grant"@,
                    now as int,
                ) == Err::<SpecGrant, AuthError>(e),
            },
    {
        let iss = "id-grant".to_owned();
        recover_signed(&self.jwk, registry, code, &iss, now)
    }
}

/// Issuing then recovering, signed strategy: a token whose claims are
/// those of grant `g` under issuer `id`, recovered before its expiry
/// against a registry that knows `g`'s client, rebuilds a grant with the
/// same owner, client and scope, the registered redirect URI, and the
/// token's expiry.
pub proof fn lemma_signed_round_trip(
    key: Seq<char>,
    clients: Seq<ClientData>,
    token: Seq<char>,
    g: SpecGrant,
    iat: int,
    exp: int,
    now: int,
)
    requires
        0 <= g.owner_id <= i32::MAX,
        token_claims_of(key, token) == Some(spec_claims_for(g, "id"@, iat, exp)),
        spec_lookup(clients, g.client_id) is Some,
        now < exp,
    ensures
        spec_recover_signed(key, clients, token, "id"@, now) == Ok::<SpecGrant, AuthError>(
            SpecGrant {
                owner_id: g.owner_id,
                client_id: g.client_id,
                scope: g.scope,
                redirect_uri: spec_lookup(clients, g.client_id).unwrap().url@,
                until: exp,
            },
        ),
{
    lemma_parse_of_dec_str(g.owner_id);
}

/// What recovery always rejects, whatever the token: a token whose
/// signature does not verify, one whose audience is not a registered
/// client, and one whose expiry has passed.
pub proof fn lemma_signed_recover_rejects(
    key: Seq<char>,
    clients: Seq<ClientData>,
    token: Seq<char>,
    iss: Seq<char>,
    now: int,
)
    ensures
        token_claims_of(key, token) is None ==> spec_recover_signed(key, clients, token, iss, now)
            == Err::<SpecGrant, AuthError>(AuthError::TokenInvalidSignature),
        (token_claims_of(key, token) matches Some(c) && c.iss == iss && spec_lookup(
            clients,
            c.aud,
        ) is None) ==> spec_recover_signed(key, clients, token, iss, now) == Err::<
            SpecGrant,
            AuthError,
        >(AuthError::TokenAudienceUnknown),
        (token_claims_of(key, token) matches Some(c) && c.iss == iss && spec_lookup(
            clients,
            c.aud,
        ) is Some && c.exp <= now) ==> spec_recover_signed(key, clients, token, iss, now) == Err::<
            SpecGrant,
            AuthError,
        >(AuthError::TokenExpired),
{
}

} // verus!
