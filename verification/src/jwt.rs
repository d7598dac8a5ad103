//! Signed-token primitives.
//!
//! The signed strategy keeps no state: the token carries its own claims,
//! signed with the deployment's asymmetric key (a JSON Web Key in its JSON
//! spelling).  Signing and verification are done by outside code behind
//! the two trusted wrappers below; everything downstream of them is
//! verified against `token_claims_of`, the name given to what a
//! signature-checked decode of a token under a given key yields.

use std::collections::HashSet;

use jsonwebtoken::Algorithm;
use jsonwebtoken::Header;
use jsonwebtoken::Validation;
use jsonwebtoken::decode;
use jsonwebtoken::encode;
use serde_json::Value;
use vstd::prelude::*;

verus! {

/// The mathematical value of a [`Claims`].
#[verifier::ext_equal]
pub struct SpecClaims {
    pub sub: Seq<char>,
    pub iss: Seq<char>,
    pub aud: Seq<char>,
    pub scope: Seq<char>,
    pub iat: int,
    pub exp: int,
}

/// The claim set of a signed token: subject (owner), issuer, audience
/// (client), scope, issued-at and expiry (seconds since the epoch).
pub struct Claims {
    pub sub: String,
    pub iss: String,
    pub aud: String,
    pub scope: String,
    pub iat: i64,
    pub exp: i64,
}

impl View for Claims {
    type V = SpecClaims;

    open spec fn view(&self) -> SpecClaims {
        SpecClaims {
            sub: self.sub@,
            iss: self.iss@,
            aud: self.aud@,
            scope: self.scope@,
            iat: self.iat as int,
            exp: self.exp as int,
        }
    }
}

pub uninterp spec fn token_claims_of(key: Seq<char>, token: Seq<char>) -> Option<SpecClaims>;

pub uninterp spec fn spec_jwk_signs(key: Seq<char>) -> bool;

/// Relies on jsonwebkey's `JsonWebKey` parsing and key conversion and on
/// jsonwebtoken's `encode` with ES256: a token this call returns, decoded
/// under the same key with its signature checked, yields exactly the
/// claims that were encoded.  Whether the call succeeds depends on the
/// key text alone — parsing, ES256 compatibility and the private part
/// decide, never the claims, and the ES256 signer itself is total on a
/// usable key — and that predicate of the key is `spec_jwk_signs`.
/// Nothing is assumed of which token string comes back.
#[verifier::external_body]
pub fn jwt_sign(key_json: &str, claims: &Claims) -> (r: Option<String>)
    ensures
        r is Some <==> spec_jwk_signs(key_json@),
        match r {
            Some(t) => token_claims_of(key_json@, t@) == Some(claims@),
            None => true,
        },
{
    let mut key: jsonwebkey::JsonWebKey = key_json.parse().ok()?;
    key.set_algorithm(jsonwebkey::Algorithm::ES256).ok()?;
    let enc = key.key.try_to_encoding_key().ok()?;
    let m = serde_json::Map::from_iter([
        ("sub".into(), claims.sub.clone().into()),
        ("iss".into(), claims.iss.clone().into()),
        ("aud".into(), claims.aud.clone().into()),
        ("scope".into(), claims.scope.clone().into()),
        ("iat".into(), claims.iat.into()),
        ("exp".into(), claims.exp.into()),
    ]);
    encode(&Header::new(Algorithm::ES256), &Value::Object(m), &enc).ok()
}

/// Relies on jsonwebkey's `JsonWebKey` parsing and key conversion and on
/// jsonwebtoken's `decode` with ES256, with only the signature checked
/// (expiry, audience and issuer checks disabled, no claim required):
/// yields the six claims exactly when the signature verifies under the
/// key and the claims are present with the right types, and nothing
/// otherwise.  That function of key and token is `token_claims_of`.
#[verifier::external_body]
pub fn jwt_decode(key_json: &str, token: &str) -> (r: Option<Claims>)
    ensures
        match r {
            Some(c) => token_claims_of(key_json@, token@) == Some(c@),
            None => token_claims_of(key_json@, token@) is None,
        },
{
    let mut key: jsonwebkey::JsonWebKey = key_json.parse().ok()?;
    key.set_algorithm(jsonwebkey::Algorithm::ES256).ok()?;
    let mut val = Validation::new(Algorithm::ES256);
    val.validate_exp = false;
    val.validate_aud = false;
    val.required_spec_claims = HashSet::new();
    let c = decode::<Value>(token, &key.key.to_decoding_key(), &val).ok()?.claims;
    let s = |k: &str| Some(c.get(k)?.as_str()?.to_string());
    Some(Claims { sub: s("sub")?, iss: s("iss")?, aud: s("aud")?, scope: s("scope")?,
        iat: c.get("iat")?.as_i64()?, exp: c.get("exp")?.as_i64()? })
}

} // verus!
