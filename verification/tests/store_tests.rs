use id::error::AuthError;
use id::grant::Grant;
use id::grant::TOKEN_LIFETIME_SECONDS;
use id::store::DbAuthorizer;
use id::store::DbIssuer;
use id::store::RelationalStore;

fn sample_grant() -> Grant {
    Grant {
        owner_id: 7,
        client_id: "dashboard".to_owned(),
        scope: "user:read".to_owned(),
        redirect_uri: "https://dash.purduehackers.com/api/callback".to_owned(),
        until: 1_700_000_600,
    }
}

#[test]
fn authorize_returns_fresh_code() {
    let mut store = RelationalStore::new();
    let code = DbAuthorizer.authorize(&mut store, &sample_grant()).expect("authorize");
    assert_eq!(code.len(), 32);
    assert!(code.chars().all(|c| c.is_ascii_alphanumeric()));
}

#[test]
fn code_redeems_to_equal_grant() {
    let mut store = RelationalStore::new();
    let g = sample_grant();
    let code = DbAuthorizer.authorize(&mut store, &g).expect("authorize");
    let back = DbAuthorizer.extract(&mut store, &code).expect("redeem");
    assert_eq!(back.owner_id, g.owner_id);
    assert_eq!(back.client_id, g.client_id);
    assert_eq!(back.scope, g.scope);
    assert_eq!(back.redirect_uri, g.redirect_uri);
    assert_eq!(back.until, g.until);
}

#[test]
fn code_redeemed_twice_is_absent() {
    let mut store = RelationalStore::new();
    let code = DbAuthorizer.authorize(&mut store, &sample_grant()).expect("authorize");
    assert!(DbAuthorizer.extract(&mut store, &code).is_some());
    assert!(DbAuthorizer.extract(&mut store, &code).is_none());
}

#[test]
fn unknown_code_is_absent() {
    let mut store = RelationalStore::new();
    DbAuthorizer.authorize(&mut store, &sample_grant()).expect("authorize");
    assert!(DbAuthorizer.extract(&mut store, &"nosuchcode".to_owned()).is_none());
}

#[test]
fn relational_issue_then_recover_reconstructs_grant() {
    let mut store = RelationalStore::new();
    let g = sample_grant();
    DbAuthorizer.authorize(&mut store, &g).expect("authorize");
    let now: i64 = 1_700_000_000;
    let t = DbIssuer.issue(&mut store, &g, now).expect("issue");
    assert_eq!(t.until, now + TOKEN_LIFETIME_SECONDS);
    let back = DbIssuer
        .recover_token(&store, &t.token, now + 100)
        .expect("storage")
        .expect("token present");
    assert_eq!(back.owner_id, g.owner_id);
    assert_eq!(back.client_id, g.client_id);
    assert_eq!(back.scope, g.scope);
    assert_eq!(back.until, now + TOKEN_LIFETIME_SECONDS);
}

#[test]
fn relational_issue_without_grant_row_fails() {
    let mut store = RelationalStore::new();
    assert!(DbIssuer.issue(&mut store, &sample_grant(), 1_700_000_000).is_err());
}

#[test]
fn unknown_token_recovers_to_absent() {
    let store = RelationalStore::new();
    let r = DbIssuer.recover_token(&store, &"nosuchtoken".to_owned(), 1_700_000_000).expect("storage");
    assert!(r.is_none());
}

#[test]
fn opaque_token_recovered_31_days_later_is_expired() {
    let mut store = RelationalStore::new();
    let g = sample_grant();
    DbAuthorizer.authorize(&mut store, &g).expect("authorize");
    let now: i64 = 1_700_000_000;
    let t = DbIssuer.issue(&mut store, &g, now).expect("issue");
    let thirty_one_days: i64 = 31 * 86400;
    let r = DbIssuer.recover_token(&store, &t.token, now + thirty_one_days);
    assert!(matches!(r, Err(AuthError::TokenExpired)));
}

#[test]
fn relational_refresh_unsupported() {
    assert!(DbIssuer.refresh(&"t".to_owned(), &sample_grant()).is_none());
    assert!(DbIssuer.recover_refresh(&"t".to_owned()).is_none());
}
