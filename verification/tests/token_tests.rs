use id::error::AuthError;
use id::grant::Grant;
use id::grant::TOKEN_LIFETIME_SECONDS;
use id::registry::client_registry;
use id::token::JwtAuthorizer;
use id::token::JwtIssuer;

fn test_jwk() -> String {
    jsonwebkey::JsonWebKey::new(jsonwebkey::Key::generate_p256()).to_string()
}

fn dashboard_grant() -> Grant {
    Grant {
        owner_id: 42,
        client_id: "dashboard".to_owned(),
        scope: "user:read".to_owned(),
        redirect_uri: "https://dash.purduehackers.com/api/callback".to_owned(),
        until: 1_700_000_600,
    }
}

#[test]
fn signed_issue_then_recover_reconstructs_grant() {
    let issuer = JwtIssuer { jwk: test_jwk() };
    let reg = client_registry();
    let now: i64 = 1_700_000_000;
    let t = issuer.issue(&dashboard_grant(), now).expect("issue");
    assert_eq!(t.until, now + TOKEN_LIFETIME_SECONDS);
    let back = issuer.recover_token(&reg, &t.token, now + 100).expect("recover");
    assert_eq!(back.owner_id, 42);
    assert_eq!(back.client_id, "dashboard");
    assert_eq!(back.scope, "user:read");
    assert_eq!(back.redirect_uri, "https://dash.purduehackers.com/api/callback");
    assert_eq!(back.until, now + TOKEN_LIFETIME_SECONDS);
}

#[test]
fn altered_signature_fails_recovery() {
    let issuer = JwtIssuer { jwk: test_jwk() };
    let reg = client_registry();
    let now: i64 = 1_700_000_000;
    let t = issuer.issue(&dashboard_grant(), now).expect("issue");
    let mut forged = t.token.clone();
    let last = forged.pop().expect("token is not empty");
    forged.push(if last == 'A' { 'B' } else { 'A' });
    let r = issuer.recover_token(&reg, &forged, now + 100);
    assert!(matches!(r, Err(AuthError::TokenInvalidSignature)));
}

#[test]
fn foreign_key_fails_recovery() {
    let issuer = JwtIssuer { jwk: test_jwk() };
    let other = JwtIssuer { jwk: test_jwk() };
    let reg = client_registry();
    let now: i64 = 1_700_000_000;
    let t = issuer.issue(&dashboard_grant(), now).expect("issue");
    let r = other.recover_token(&reg, &t.token, now + 100);
    assert!(matches!(r, Err(AuthError::TokenInvalidSignature)));
}

#[test]
fn unknown_audience_fails_recovery() {
    let issuer = JwtIssuer { jwk: test_jwk() };
    let reg = client_registry();
    let now: i64 = 1_700_000_000;
    let mut g = dashboard_grant();
    g.client_id = "not-a-client".to_owned();
    let t = issuer.issue(&g, now).expect("issue");
    let r = issuer.recover_token(&reg, &t.token, now + 100);
    assert!(matches!(r, Err(AuthError::TokenAudienceUnknown)));
}

#[test]
fn token_recovered_31_days_later_is_expired() {
    let issuer = JwtIssuer { jwk: test_jwk() };
    let reg = client_registry();
    let now: i64 = 1_700_000_000;
    let t = issuer.issue(&dashboard_grant(), now).expect("issue");
    let thirty_one_days: i64 = 31 * 86400;
    let r = issuer.recover_token(&reg, &t.token, now + thirty_one_days);
    assert!(matches!(r, Err(AuthError::TokenExpired)));
}

#[test]
fn wrong_issuer_name_fails_recovery() {
    let jwk = test_jwk();
    let authorizer = JwtAuthorizer { jwk: jwk.clone() };
    let issuer = JwtIssuer { jwk };
    let reg = client_registry();
    let now: i64 = 1_700_000_000;
    let code = authorizer.authorize(&dashboard_grant(), now).expect("authorize");
    let r = issuer.recover_token(&reg, &code, now + 100);
    assert!(matches!(r, Err(AuthError::TokenInvalidSignature)));
}

#[test]
fn signed_code_extracts_to_equal_grant() {
    let authorizer = JwtAuthorizer { jwk: test_jwk() };
    let reg = client_registry();
    let now: i64 = 1_700_000_000;
    let g = dashboard_grant();
    let code = authorizer.authorize(&g, now).expect("authorize");
    let back = authorizer.extract(&reg, &code, now + 100).expect("extract");
    assert_eq!(back.owner_id, g.owner_id);
    assert_eq!(back.client_id, g.client_id);
    assert_eq!(back.scope, g.scope);
    assert_eq!(back.until, g.until);
}

#[test]
fn bad_key_cannot_sign() {
    let issuer = JwtIssuer { jwk: "not a key".to_owned() };
    let r = issuer.issue(&dashboard_grant(), 1_700_000_000);
    assert!(matches!(r, Err(AuthError::StorageUnavailable)));
}

#[test]
fn signed_refresh_unsupported() {
    let issuer = JwtIssuer { jwk: test_jwk() };
    assert!(issuer.refresh(&"t".to_owned(), &dashboard_grant()).is_none());
    assert!(issuer.recover_refresh(&"t".to_owned()).is_none());
}
