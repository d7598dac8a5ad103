//! The authorization flow orchestrator.
//!
//! Four entry points compose the registry, the consent gate, the code
//! authorizer and the token issuer: initiate an authorization (redirect to
//! the login surface), submit the consent decision (redeem the presence
//! signal and issue a code), exchange the code for a bearer token, and
//! check a bearer token for resource access.

use vstd::prelude::*;

use crate::consent;
use crate::consent::spec_decide;
use crate::error::AuthError;
use crate::error::outward_error;
use crate::error::spec_is_consent_error;
use crate::grant::CODE_LIFETIME_SECONDS;
use crate::grant::Grant;
use crate::grant::SpecGrant;
use crate::grant::TOKEN_LIFETIME_SECONDS;
use crate::jwt::token_claims_of;
use crate::presence::OwnerDirectory;
use crate::presence::PresenceStore;
use crate::registry::ClientRegistry;
use crate::registry::spec_lookup;
use crate::registry::spec_validate;
use crate::scope::scope_within;
use crate::scope::spec_scope_within_chars;
use crate::store::DbAuthorizer;
use crate::store::RelationalStore;
use crate::store::SpecGrantRow;
use crate::store::SpecStore;
use crate::store::spec_clear_code;
use crate::store::spec_find_code;
use crate::store::spec_grant_of_row;
use crate::jwt::spec_jwk_signs;
use crate::token::JwtIssuer;
use crate::token::spec_claims_for;
use crate::token::spec_recover_signed;

verus! {

/// The login surface that an authorization attempt is first sent to.
pub open spec fn spec_login_base() -> Seq<char> {
    "https://id.purduehackers.com/authorize"@
}

pub uninterp spec fn url_with_params_of(base: Seq<char>, params: Seq<(Seq<char>, Seq<char>)>) -> Option<
    Seq<char>,
>;

/// The key-value views of a list of string pairs.
pub open spec fn spec_pairs_view(v: Seq<(String, String)>) -> Seq<(Seq<char>, Seq<char>)> {
    v.map_values(|p: (String, String)| (p.0@, p.1@))
}

/// Relies on url::Url::parse_with_params and Url::to_string: parsing the
/// base URL and appending the pairs to its query is a function of the
/// arguments alone; yields the serialized URL, or nothing when the base
/// does not parse.  That function is `url_with_params_of`.
#[verifier::external_body]
fn url_with_params(base: &str, params: &Vec<(String, String)>) -> (r: Option<String>)
    ensures
        match r {
            Some(u) => url_with_params_of(base@, spec_pairs_view(params@)) == Some(u@),
            None => url_with_params_of(base@, spec_pairs_view(params@)) is None,
        },
{
    let pairs = params.iter().map(|p| (p.0.as_str(), p.1.as_str()));
    url::Url::parse_with_params(base, pairs).ok().map(|u| u.to_string())
}

/// Relies on chrono's `DateTime::<Utc>::from(SystemTime)` and
/// `timestamp()`: seconds since the epoch by the machine clock, with a
/// clock before the epoch read as a negative count rather than a panic.
/// Nothing is assumed of the reading: every caller must hold for every
/// value.
#[verifier::external_body]
pub fn current_timestamp() -> (r: i64) {
    chrono::DateTime::<chrono::Utc>::from(std::time::SystemTime::now()).timestamp()
}

/// The token-endpoint response: the bearer token, its type, and how many
/// seconds it stays valid.
pub struct TokenResponse {
    pub access_token: String,
    pub token_type: String,
    pub expires_in: i64,
}

/// The store took on exactly one new grant row, carrying grant `g` under
/// the single-use code `code`.
pub open spec fn spec_code_issued(prev: SpecStore, post: SpecStore, g: SpecGrant, code: Seq<char>) -> bool {
    post == (SpecStore {
        grants: prev.grants.push(
            SpecGrantRow {
                id: prev.next_grant_id,
                owner_id: g.owner_id,
                client_id: g.client_id,
                redirect_uri: g.redirect_uri,
                scope: g.scope,
                until: g.until,
                code: Some(code),
            },
        ),
        next_grant_id: prev.next_grant_id + 1,
        ..prev
    })
}

/// Some scope demanded at the resource covers no more than `granted`.
pub open spec fn spec_scope_allows(scopes: Seq<String>, granted: Seq<char>) -> bool {
    exists|i: int|
        0 <= i < scopes.len() && spec_scope_within_chars((#[trigger] scopes[i])@, granted)
}

/// The orchestrator: the registry, the scopes demanded at the resource
/// endpoint, the signed-token issuer and the relational code authorizer,
/// chosen at construction.
pub struct OAuthEndpoint {
    pub registry: ClientRegistry,
    pub scopes: Vec<String>,
    pub issuer: JwtIssuer,
    pub authorizer: DbAuthorizer,
}

impl OAuthEndpoint {
    /// Builds the orchestrator from its injected configuration: the
    /// client registry, the signing key (as JSON Web Key text) and the
    /// scopes demanded at the resource endpoint.
    pub fn new(registry: ClientRegistry, jwk: String, scopes: Vec<String>) -> (r: OAuthEndpoint)
        ensures
            r.registry == registry,
            r.issuer.jwk == jwk,
            r.scopes == scopes,
    {
        OAuthEndpoint { registry, scopes, issuer: JwtIssuer { jwk }, authorizer: DbAuthorizer }
    }

    /// Initiates an authorization attempt: validates the client, redirect
    /// URI and scope against the registry and yields the login-surface
    /// URL echoing exactly the request's parameters.  Never touches any
    /// store.
    pub fn initiate(
        &self,
        client_id: &String,
        redirect_uri: &String,
        scope: &String,
        response_type: &String,
    ) -> (r: Result<String, AuthError>)
        ensures
            ({
                let v = spec_validate(self.registry.clients@, client_id@, redirect_uri@, scope@);
                match r {
                    Ok(url) => v is Ok && url_with_params_of(
                        spec_login_base(),
                        seq![
                            ("client_id"@, client_id@),
                            ("redirect_uri"@, redirect_uri@),
                            ("scope"@, scope@),
                            ("response_type"@, response_type@),
                        ],
                    ) == Some(url@),
                    Err(e) => (v matches Err(e0) && e == e0) || (v is Ok && e
                        == AuthError::StorageUnavailable && url_with_params_of(
                        spec_login_base(),
                        seq![
                            ("client_id"@, client_id@),
                            ("redirect_uri"@, redirect_uri@),
                            ("scope"@, scope@),
                            ("response_type"@, response_type@),
                        ],
                    ) is None),
                }
            }),
    {
        match self.registry.validate(client_id, redirect_uri, scope) {
            Ok(_) => (),
            Err(e) => {
                return Err(e);
            },
        };
        let mut params: Vec<(String, String)> = Vec::new();
        params.push(("client_id".to_owned(), client_id.clone()));
        params.push(("redirect_uri".to_owned(), redirect_uri.clone()));
        params.push(("scope".to_owned(), scope.clone()));
        params.push(("response_type".to_owned(), response_type.clone()));
        proof {
            assert(spec_pairs_view(params@) =~= seq![
                ("client_id"@, client_id@),
                ("redirect_uri"@, redirect_uri@),
                ("scope"@, scope@),
                ("response_type"@, response_type@),
            ]);
        }
        match url_with_params("https://id.purduehackers.com/authorize", &params) {
            Some(u) => Ok(u),
            None => Err(AuthError::StorageUnavailable),
        }
    }

    /// Submits the consent decision: validates the request, runs the
    /// presence-gated consent gate (consuming the presence signal), and on
    /// authorization persists the grant under a fresh single-use code and
    /// yields the client's redirect URI carrying that code.  Gate
    /// failures collapse to `ConsentDenied` toward the client.
    pub fn decide(
        &self,
        owners: &OwnerDirectory,
        presence: &mut PresenceStore,
        store: &mut RelationalStore,
        client_id: &String,
        redirect_uri: &String,
        scope: &String,
        owner_id: i32,
        allow: bool,
        now: i64,
    ) -> (r: Result<String, AuthError>)
        requires
            old(presence).wf(),
            old(store).wf(),
            0 <= owner_id,
            now + CODE_LIFETIME_SECONDS <= i64::MAX,
        ensures
            final(presence).wf(),
            final(store).wf(),
            ({
                let v = spec_validate(self.registry.clients@, client_id@, redirect_uri@, scope@);
                let d = spec_decide(owners.owners@, old(presence).entries@, owner_id as int, allow);
                let g = SpecGrant {
                    owner_id: owner_id as int,
                    client_id: client_id@,
                    scope: scope@,
                    redirect_uri: redirect_uri@,
                    until: now + CODE_LIFETIME_SECONDS,
                };
                match r {
                    Ok(url) => {
                        &&& v is Ok
                        &&& d.0 == Ok::<int, AuthError>(owner_id as int)
                        &&& final(presence).entries@ == d.1
                        &&& exists|code: Seq<char>|
                            #[trigger] spec_code_issued(old(store)@, final(store)@, g, code)
                                && url_with_params_of(redirect_uri@, seq![("code"@, code)])
                                == Some(url@)
                    },
                    Err(e) => match v {
                        Err(e0) => e == e0 && final(presence).entries@ == old(presence).entries@
                            && final(store)@ == old(store)@,
                        Ok(_) => {
                            &&& final(presence).entries@ == d.1
                            &&& match d.0 {
                                Err(e1) => e == AuthError::ConsentDenied && spec_is_consent_error(
                                    e1,
                                ) && final(store)@ == old(store)@,
                                Ok(_) => e == AuthError::StorageUnavailable && (final(store)@
                                    == old(store)@ || exists|code: Seq<char>|
                                    #[trigger] spec_code_issued(old(store)@, final(store)@, g, code)
                                        && url_with_params_of(
                                        redirect_uri@,
                                        seq![("code"@, code)],
                                    ) is None),
                            }
                        },
                    },
                }
            }),
    {
        match self.registry.validate(client_id, redirect_uri, scope) {
            Ok(_) => (),
            Err(e) => {
                return Err(e);
            },
        };
        let owner = match consent::decide(owners, presence, owner_id, allow) {
            Ok(o) => o,
            Err(e) => {
                return Err(outward_error(e));
            },
        };
        let grant = Grant {
            owner_id: owner,
            client_id: client_id.clone(),
            scope: scope.clone(),
            redirect_uri: redirect_uri.clone(),
            until: now + CODE_LIFETIME_SECONDS,
        };
        let code = match self.authorizer.authorize(store, &grant) {
            Ok(c) => c,
            Err(_) => {
                return Err(AuthError::StorageUnavailable);
            },
        };
        let ghost codev = code@;
        let mut params: Vec<(String, String)> = Vec::new();
        params.push(("code".to_owned(), code));
        proof {
            assert(spec_pairs_view(params@) =~= seq![("code"@, codev)]);
            assert(spec_code_issued(old(store)@, store@, grant@, codev));
        }
        match url_with_params(redirect_uri.as_str(), &params) {
            Some(u) => Ok(u),
            None => Err(AuthError::StorageUnavailable),
        }
    }

    /// Exchanges a single-use authorization code for a signed bearer
    /// token.  The code is redeemed (and cleared) exactly once: an
    /// invalid, expired or already-used code is turned away with
    /// `CodeInvalidOrConsumed`, a second exchange of the same code always
    /// is, and a code whose grant's expiry has passed is cleared and
    /// turned away the same way.
    pub fn exchange(&self, store: &mut RelationalStore, client_id: &String, code: &String, now: i64) -> (r:
        Result<TokenResponse, AuthError>)
        requires
            old(store).wf(),
            now + TOKEN_LIFETIME_SECONDS <= i64::MAX,
        ensures
            final(store).wf(),
            ({
                let l = spec_lookup(self.registry.clients@, client_id@);
                let f = spec_find_code(old(store)@.grants, code@);
                let cleared = match f {
                    Some(i) => (SpecStore {
                        grants: old(store)@.grants.update(
                            i,
                            spec_clear_code(old(store)@.grants[i]),
                        ),
                        ..old(store)@
                    }),
                    None => old(store)@,
                };
                match r {
                    Ok(tr) => {
                        &&& l is Some
                        &&& f matches Some(i)
                        &&& final(store)@ == cleared
                        &&& now < old(store)@.grants[i].until
                        &&& 0 <= old(store)@.grants[i].owner_id
                        &&& spec_jwk_signs(self.issuer.jwk@)
                        &&& tr.token_type@ == "bearer"@
                        &&& tr.expires_in == TOKEN_LIFETIME_SECONDS
                        &&& token_claims_of(self.issuer.jwk@, tr.access_token@) == Some(
                            spec_claims_for(
                                spec_grant_of_row(old(store)@.grants[i]),
                                "id"@,
                                now as int,
                                now + TOKEN_LIFETIME_SECONDS,
                            ),
                        )
                    },
                    Err(e) => match l {
                        None => e == AuthError::ClientNotRegistered && final(store)@ == old(
                            store,
                        )@,
                        Some(_) => match f {
                            None => e == AuthError::CodeInvalidOrConsumed && final(store)@ == old(
                                store,
                            )@,
                            Some(i) => final(store)@ == cleared && if old(
                                store,
                            )@.grants[i].until <= now {
                                e == AuthError::CodeInvalidOrConsumed
                            } else {
                                e == AuthError::StorageUnavailable && (old(
                                    store,
                                )@.grants[i].owner_id < 0 || !spec_jwk_signs(self.issuer.jwk@))
                            },
                        },
                    },
                }
            }),
    {
        if self.registry.lookup(client_id).is_none() {
            return Err(AuthError::ClientNotRegistered);
        }
        let g = match self.authorizer.extract(store, code) {
            Some(g) => g,
            None => {
                return Err(AuthError::CodeInvalidOrConsumed);
            },
        };
        if g.until <= now {
            return Err(AuthError::CodeInvalidOrConsumed);
        }
        if g.owner_id < 0 {
            return Err(AuthError::StorageUnavailable);
        }
        let t = match self.issuer.issue(&g, now) {
            Ok(t) => t,
            Err(_) => {
                return Err(AuthError::StorageUnavailable);
            },
        };
        Ok(
            TokenResponse {
                access_token: t.token,
                token_type: "bearer".to_owned(),
                expires_in: TOKEN_LIFETIME_SECONDS,
            },
        )
    }

    /// Checks a bearer token for resource access: recovers the grant from
    /// the token (signature, issuer, audience and expiry all checked) and
    /// demands that some scope of the resource stays within the granted
    /// one; yields the owner identifier.  This path needs no consent
    /// gate: possession of a valid token is the authorization.
    pub fn resource_check(&self, token: &String, now: i64) -> (r: Result<i32, AuthError>)
        ensures
            ({
                let rec = spec_recover_signed(
                    self.issuer.jwk@,
                    self.registry.clients@,
                    token@,
                    "id"@,
                    now as int,
                );
                match r {
                    Ok(o) => rec matches Ok(g) && g.owner_id == o as int && spec_scope_allows(
                        self.scopes@,
                        g.scope,
                    ),
                    Err(e) => match rec {
                        Err(e2) => e == e2,
                        Ok(g) => e == AuthError::ScopeNotGranted && !spec_scope_allows(
                            self.scopes@,
                            g.scope,
                        ),
                    },
                }
            }),
    {
        let g = match self.issuer.recover_token(&self.registry, token, now) {
            Ok(g) => g,
            Err(e) => {
                return Err(e);
            },
        };
        let n = self.scopes.len();
        let mut i: usize = 0;
        while i < n
            invariant
                n == self.scopes@.len(),
                0 <= i <= n,
                spec_recover_signed(
                    self.issuer.jwk@,
                    self.registry.clients@,
                    token@,
                    "id"@,
                    now as int,
                ) == Ok::<SpecGrant, AuthError>(g@),
                forall|j: int|
                    0 <= j < i ==> !spec_scope_within_chars((#[trigger] self.scopes@[j])@, g@.scope),
            decreases n - i,
        {
            if scope_within(self.scopes[i].as_str(), g.scope.as_str()) {
                proof {
                    assert(spec_scope_within_chars((self.scopes@[i as int])@, g@.scope));
                    assert(spec_scope_allows(self.scopes@, g@.scope));
                }
                return Ok(g.owner_id);
            }
            i = i + 1;
        }
        Err(AuthError::ScopeNotGranted)
    }
}

/// Resolves the owner of a bearer token at the clock's current time.
/// Whatever the clock read, the outcome is the one a resource check at
/// that reading yields: the recovered owner for a token within the
/// resource's scopes, and the check's own error otherwise.
pub fn oauth_user(endpoint: &OAuthEndpoint, token: &String) -> (r: Result<i32, AuthError>)
    ensures
        match r {
            Ok(o) => exists|now: int|
                #[trigger] spec_recover_signed(
                    endpoint.issuer.jwk@,
                    endpoint.registry.clients@,
                    token@,
                    "id"@,
                    now,
                ) matches Ok(g) && g.owner_id == o as int && spec_scope_allows(
                    endpoint.scopes@,
                    g.scope,
                ),
            Err(e) => exists|now: int|
                match #[trigger] spec_recover_signed(
                    endpoint.issuer.jwk@,
                    endpoint.registry.clients@,
                    token@,
                    "id"@,
                    now,
                ) {
                    Err(e2) => e == e2,
                    Ok(g) => e == AuthError::ScopeNotGranted && !spec_scope_allows(
                        endpoint.scopes@,
                        g.scope,
                    ),
                },
        },
{
    let now = current_timestamp();
    match endpoint.resource_check(token, now) {
        Ok(o) => {
            proof {
                assert(spec_recover_signed(
                    endpoint.issuer.jwk@,
                    endpoint.registry.clients@,
                    token@,
                    "id"@,
                    now as int,
                ) matches Ok(g) && g.owner_id == o as int && spec_scope_allows(
                    endpoint.scopes@,
                    g.scope,
                ));
            }
            Ok(o)
        },
        Err(e) => Err(e),
    }
}

} // verus!
