use id::consent::decide;
use id::error::AuthError;
use id::error::outward_error;
use id::presence::OwnerDirectory;
use id::presence::OwnerRecord;
use id::presence::PresenceStore;

fn owners() -> OwnerDirectory {
    OwnerDirectory {
        owners: vec![
            OwnerRecord { id: 1, activated: true },
            OwnerRecord { id: 2, activated: false },
        ],
    }
}

#[test]
fn ready_owner_is_authorized() {
    let mut presence = PresenceStore::new();
    presence.put(1, true);
    assert_eq!(decide(&owners(), &mut presence, 1, true), Ok(1));
}

#[test]
fn presence_consumed_exactly_once() {
    let mut presence = PresenceStore::new();
    presence.put(1, true);
    let first = decide(&owners(), &mut presence, 1, true);
    let second = decide(&owners(), &mut presence, 1, true);
    assert_eq!(first, Ok(1));
    assert_eq!(second, Err(AuthError::PresenceNotRecorded));
}

#[test]
fn unactivated_owner_turned_away_even_with_signal() {
    let mut presence = PresenceStore::new();
    presence.put(2, true);
    assert_eq!(decide(&owners(), &mut presence, 2, true), Err(AuthError::OwnerNotActivated));
    // the signal was never touched: it is still there to be consumed
    assert_eq!(presence.getdel(2), Some(true));
}

#[test]
fn unknown_owner_not_found() {
    let mut presence = PresenceStore::new();
    presence.put(9, true);
    assert_eq!(decide(&owners(), &mut presence, 9, true), Err(AuthError::OwnerNotFound));
}

#[test]
fn missing_signal_not_recorded() {
    let mut presence = PresenceStore::new();
    assert_eq!(decide(&owners(), &mut presence, 1, true), Err(AuthError::PresenceNotRecorded));
}

#[test]
fn unready_signal_not_ready_and_consumed() {
    let mut presence = PresenceStore::new();
    presence.put(1, false);
    assert_eq!(decide(&owners(), &mut presence, 1, true), Err(AuthError::PresenceNotReady));
    assert_eq!(decide(&owners(), &mut presence, 1, true), Err(AuthError::PresenceNotRecorded));
}

#[test]
fn disallowed_request_denied_and_consumed() {
    let mut presence = PresenceStore::new();
    presence.put(1, true);
    assert_eq!(decide(&owners(), &mut presence, 1, false), Err(AuthError::ConsentDenied));
    assert_eq!(decide(&owners(), &mut presence, 1, true), Err(AuthError::PresenceNotRecorded));
}

#[test]
fn overwritten_signal_reads_latest() {
    let mut presence = PresenceStore::new();
    presence.put(1, false);
    presence.put(1, true);
    assert_eq!(decide(&owners(), &mut presence, 1, true), Ok(1));
}

#[test]
fn consent_errors_collapse_outward() {
    let consent_errors = [
        AuthError::ConsentDenied,
        AuthError::OwnerNotFound,
        AuthError::OwnerNotActivated,
        AuthError::PresenceNotRecorded,
        AuthError::PresenceNotReady,
    ];
    for e in consent_errors {
        assert_eq!(outward_error(e), AuthError::ConsentDenied);
    }
    let others = [
        AuthError::ClientNotRegistered,
        AuthError::RedirectMismatch,
        AuthError::ScopeNotGranted,
        AuthError::CodeInvalidOrConsumed,
        AuthError::TokenInvalidSignature,
        AuthError::TokenExpired,
        AuthError::TokenAudienceUnknown,
        AuthError::StorageUnavailable,
    ];
    for e in others {
        assert_eq!(outward_error(e), e);
    }
}
