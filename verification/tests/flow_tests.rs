use id::error::AuthError;
use id::flow::OAuthEndpoint;
use id::flow::current_timestamp;
use id::flow::oauth_user;
use id::grant::CODE_LIFETIME_SECONDS;
use id::grant::TOKEN_LIFETIME_SECONDS;
use id::presence::OwnerDirectory;
use id::presence::OwnerRecord;
use id::presence::PresenceStore;
use id::registry::client_registry;
use id::store::RelationalStore;

fn test_jwk() -> String {
    jsonwebkey::JsonWebKey::new(jsonwebkey::Key::generate_p256()).to_string()
}

fn endpoint() -> OAuthEndpoint {
    OAuthEndpoint::new(client_registry(), test_jwk(), vec!["user:read".to_owned()])
}

fn owners() -> OwnerDirectory {
    OwnerDirectory { owners: vec![OwnerRecord { id: 5, activated: true }] }
}

const DASH_REDIRECT: &str = "https://dash.purduehackers.com/api/callback";

fn decide_for_code(ep: &OAuthEndpoint, store: &mut RelationalStore, now: i64) -> String {
    let mut presence = PresenceStore::new();
    presence.put(5, true);
    let url = ep
        .decide(
            &owners(),
            &mut presence,
            store,
            &"dashboard".to_owned(),
            &DASH_REDIRECT.to_owned(),
            &"user:read".to_owned(),
            5,
            true,
            now,
        )
        .expect("authorized");
    let marker = "?code=";
    let at = url.find(marker).expect("code parameter");
    url[at + marker.len()..].to_owned()
}

#[test]
fn initiate_redirects_to_login_surface_echoing_parameters() {
    let ep = endpoint();
    let url = ep
        .initiate(
            &"dashboard".to_owned(),
            &DASH_REDIRECT.to_owned(),
            &"user:read".to_owned(),
            &"code".to_owned(),
        )
        .expect("valid request");
    assert_eq!(
        url,
        "https://id.purduehackers.com/authorize?client_id=dashboard&redirect_uri=https%3A%2F%2Fdash.purduehackers.com%2Fapi%2Fcallback&scope=user%3Aread&response_type=code"
    );
}

#[test]
fn initiate_rejects_unknown_client() {
    let ep = endpoint();
    let r = ep.initiate(
        &"nobody".to_owned(),
        &DASH_REDIRECT.to_owned(),
        &"user:read".to_owned(),
        &"code".to_owned(),
    );
    assert_eq!(r, Err(AuthError::ClientNotRegistered));
}

#[test]
fn decide_redirects_with_fresh_code() {
    let ep = endpoint();
    let mut store = RelationalStore::new();
    let code = decide_for_code(&ep, &mut store, 1_700_000_000);
    assert_eq!(code.len(), 32);
    assert!(code.chars().all(|c| c.is_ascii_alphanumeric()));
}

#[test]
fn decide_collapses_gate_failures() {
    let ep = endpoint();
    let mut store = RelationalStore::new();
    let mut presence = PresenceStore::new();
    // no presence signal present: the precise reason is not revealed
    let r = ep.decide(
        &owners(),
        &mut presence,
        &mut store,
        &"dashboard".to_owned(),
        &DASH_REDIRECT.to_owned(),
        &"user:read".to_owned(),
        5,
        true,
        1_700_000_000,
    );
    assert_eq!(r, Err(AuthError::ConsentDenied));
}

#[test]
fn exchange_code_for_bearer_token() {
    let ep = endpoint();
    let mut store = RelationalStore::new();
    let now: i64 = 1_700_000_000;
    let code = decide_for_code(&ep, &mut store, now);
    let tr = ep.exchange(&mut store, &"dashboard".to_owned(), &code, now).expect("exchange");
    assert_eq!(tr.token_type, "bearer");
    assert_eq!(tr.expires_in, TOKEN_LIFETIME_SECONDS);
    let owner = ep.resource_check(&tr.access_token, now + 100).expect("resource");
    assert_eq!(owner, 5);
}

#[test]
fn code_submitted_twice_second_is_consumed() {
    let ep = endpoint();
    let mut store = RelationalStore::new();
    let now: i64 = 1_700_000_000;
    let code = decide_for_code(&ep, &mut store, now);
    assert!(ep.exchange(&mut store, &"dashboard".to_owned(), &code, now).is_ok());
    let second = ep.exchange(&mut store, &"dashboard".to_owned(), &code, now);
    assert_eq!(
        second.err().expect("second exchange fails"),
        AuthError::CodeInvalidOrConsumed
    );
}

#[test]
fn stale_code_is_cleared_and_rejected() {
    let ep = endpoint();
    let mut store = RelationalStore::new();
    let now: i64 = 1_700_000_000;
    let code = decide_for_code(&ep, &mut store, now);
    // the code expires CODE_LIFETIME_SECONDS after the consent decision
    let later = now + CODE_LIFETIME_SECONDS;
    let first = ep.exchange(&mut store, &"dashboard".to_owned(), &code, later);
    assert_eq!(first.err().expect("stale code"), AuthError::CodeInvalidOrConsumed);
    // the stale code was still consumed: it cannot be retried at a valid time
    let second = ep.exchange(&mut store, &"dashboard".to_owned(), &code, now);
    assert_eq!(second.err().expect("consumed code"), AuthError::CodeInvalidOrConsumed);
}

#[test]
fn code_within_lifetime_is_accepted() {
    let ep = endpoint();
    let mut store = RelationalStore::new();
    let now: i64 = 1_700_000_000;
    let code = decide_for_code(&ep, &mut store, now);
    let r = ep.exchange(&mut store, &"dashboard".to_owned(), &code, now + CODE_LIFETIME_SECONDS - 1);
    assert!(r.is_ok());
}

#[test]
fn exchange_rejects_unknown_client() {
    let ep = endpoint();
    let mut store = RelationalStore::new();
    let r = ep.exchange(&mut store, &"nobody".to_owned(), &"whatever".to_owned(), 1_700_000_000);
    assert_eq!(r.err().expect("unknown client"), AuthError::ClientNotRegistered);
}

#[test]
fn exchange_rejects_unknown_code() {
    let ep = endpoint();
    let mut store = RelationalStore::new();
    let r = ep.exchange(&mut store, &"dashboard".to_owned(), &"nosuchcode".to_owned(), 1_700_000_000);
    assert_eq!(r.err().expect("unknown code"), AuthError::CodeInvalidOrConsumed);
}

#[test]
fn resource_check_demands_scope() {
    let ep = OAuthEndpoint::new(client_registry(), test_jwk(), vec!["admin".to_owned()]);
    let mut store = RelationalStore::new();
    let now: i64 = 1_700_000_000;
    let code = decide_for_code(&ep, &mut store, now);
    let tr = ep.exchange(&mut store, &"dashboard".to_owned(), &code, now).expect("exchange");
    let r = ep.resource_check(&tr.access_token, now + 100);
    assert_eq!(r.err().expect("scope too small"), AuthError::ScopeNotGranted);
}

#[test]
fn oauth_user_resolves_fresh_token() {
    let ep = endpoint();
    let mut store = RelationalStore::new();
    let now = current_timestamp();
    let code = decide_for_code(&ep, &mut store, now);
    let tr = ep.exchange(&mut store, &"dashboard".to_owned(), &code, now).expect("exchange");
    assert_eq!(oauth_user(&ep, &tr.access_token), Ok(5));
}
