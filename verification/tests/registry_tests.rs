use id::error::AuthError;
use id::registry::client_registry;
use id::scope::scope_within;

#[test]
fn lookup_returns_exact_registered_data() {
    let reg = client_registry();
    let expected = [
        ("dashboard", "https://dash.purduehackers.com/api/callback", "user:read"),
        ("passports", "https://passports.purduehackers.com/callback", "user:read user"),
        ("authority", "authority://callback", "admin:read admin"),
        (
            "auth-test",
            "https://id-auth.purduehackers.com/api/auth/callback/purduehackers-id",
            "user:read",
        ),
        (
            "vulcan-auth",
            "https://auth.purduehackers.com/source/oauth/callback/purduehackers-id/",
            "user:read",
        ),
        ("shad-moe", "https://auth.shad.moe/source/oauth/callback/purduehackers-id/", "user:read"),
        ("shquid", "https://www.imsqu.id/auth/callback/purduehackers-id", "user:read"),
    ];
    for (id, url, scope) in expected {
        let c = reg.lookup(&id.to_owned()).expect("registered client");
        assert_eq!(c.client_id, id);
        assert_eq!(c.url, url);
        assert_eq!(c.scope, scope);
    }
}

#[test]
fn lookup_unknown_client_is_absent() {
    let reg = client_registry();
    assert!(reg.lookup(&"nobody".to_owned()).is_none());
}

#[test]
fn validate_unknown_client() {
    let reg = client_registry();
    let r = reg.validate(
        &"nobody".to_owned(),
        &"https://dash.purduehackers.com/api/callback".to_owned(),
        &"user:read".to_owned(),
    );
    assert!(matches!(r, Err(AuthError::ClientNotRegistered)));
}

#[test]
fn validate_redirect_mismatch() {
    let reg = client_registry();
    let r = reg.validate(
        &"dashboard".to_owned(),
        &"https://evil.example/callback".to_owned(),
        &"user:read".to_owned(),
    );
    assert!(matches!(r, Err(AuthError::RedirectMismatch)));
}

#[test]
fn validate_scope_not_granted() {
    let reg = client_registry();
    let r = reg.validate(
        &"dashboard".to_owned(),
        &"https://dash.purduehackers.com/api/callback".to_owned(),
        &"user:read admin".to_owned(),
    );
    assert!(matches!(r, Err(AuthError::ScopeNotGranted)));
}

#[test]
fn validate_subset_scope_accepted() {
    let reg = client_registry();
    let r = reg.validate(
        &"passports".to_owned(),
        &"https://passports.purduehackers.com/callback".to_owned(),
        &"user:read".to_owned(),
    );
    assert!(r.is_ok());
}

#[test]
fn scope_within_cases() {
    assert!(scope_within("user:read", "user:read user"));
    assert!(scope_within("user user:read", "user:read user"));
    assert!(scope_within("", "user:read"));
    assert!(scope_within("user:read user:read", "user:read"));
    assert!(!scope_within("user", "user:read"));
    assert!(!scope_within("user:read admin", "user:read user"));
    assert!(scope_within("  user:read  ", "user:read"));
}
