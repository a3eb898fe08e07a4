use fumohouse_auth::account::{handle_edit, EditOutcome};
use fumohouse_auth::auth::{handle_login, handle_register, RegisterError};
use fumohouse_auth::session::{SessionUtils, UserSession};
use fumohouse_auth::store::SessionStore;

const NOW: i64 = 1_000_000;

#[test]
fn register_then_login_succeeds() {
    let mut store = SessionStore::new();
    let user = handle_register(&mut store, "alice", "correcthorse1", NOW).expect("registration");
    assert_eq!(user.id, 1);
    assert_eq!(user.username, "alice");
    assert_eq!(store.user_count(), 1);

    let logged_in = handle_login(&store, "alice", "correcthorse1").expect("login");
    assert_eq!(logged_in.id, user.id);
}

#[test]
fn login_with_wrong_password_fails_generically() {
    let mut store = SessionStore::new();
    handle_register(&mut store, "alice", "correcthorse1", NOW).expect("registration");
    assert!(handle_login(&store, "alice", "correcthorse2").is_none());
    // No session may be created on a failed login.
    assert_eq!(store.session_count(), 0);
}

#[test]
fn login_with_unknown_user_fails_generically() {
    let store = SessionStore::new();
    assert!(handle_login(&store, "alice", "correcthorse1").is_none());
}

#[test]
fn login_username_is_case_insensitive() {
    let mut store = SessionStore::new();
    handle_register(&mut store, "Alice", "correcthorse1", NOW).expect("registration");
    assert!(handle_login(&store, "aLICE", "correcthorse1").is_some());
}

#[test]
fn duplicate_username_is_rejected_case_insensitively() {
    let mut store = SessionStore::new();
    handle_register(&mut store, "Alice", "correcthorse1", NOW).expect("registration");
    let err = handle_register(&mut store, "alice", "othersecret99", NOW).unwrap_err();
    assert_eq!(err, RegisterError::UsernameInUse);
    assert_eq!(store.user_count(), 1);
}

#[test]
fn password_change_invalidates_all_sessions() {
    let mut store = SessionStore::new();
    let user = handle_register(&mut store, "alice", "correcthorse1", NOW).expect("registration");
    let token = SessionUtils::begin_session(&user, &mut store, NOW).expect("session");
    let resolved = UserSession::from_request(&mut store, Some(&token), NOW).expect("resolve");
    assert!(resolved.session.user.is_some());

    let outcome = handle_edit(&mut store, &user, "correcthorse1", "newhorse22", "newhorse22");
    assert_eq!(outcome, EditOutcome::SessionInvalidated);
    assert_eq!(store.session_count(), 0);

    // A previously-valid session cookie now resolves to Anonymous.
    let after = UserSession::from_request(&mut store, Some(&token), NOW).expect("resolve");
    assert!(after.session.user.is_none());
    assert!(after.session.session.is_none());

    // The old password no longer logs in; the new one does.
    assert!(handle_login(&store, "alice", "correcthorse1").is_none());
    assert!(handle_login(&store, "alice", "newhorse22").is_some());
}

#[test]
fn password_change_with_wrong_current_password_changes_nothing() {
    let mut store = SessionStore::new();
    let user = handle_register(&mut store, "alice", "correcthorse1", NOW).expect("registration");
    let token = SessionUtils::begin_session(&user, &mut store, NOW).expect("session");

    let outcome = handle_edit(&mut store, &user, "wrongcurrent", "newhorse22", "newhorse22");
    assert_eq!(outcome, EditOutcome::PasswordIncorrect);
    // The session survives and the old password still logs in.
    let resolved = UserSession::from_request(&mut store, Some(&token), NOW).expect("resolve");
    assert!(resolved.session.user.is_some());
    assert!(handle_login(&store, "alice", "correcthorse1").is_some());
}

#[test]
fn password_change_with_mismatched_confirmation_changes_nothing() {
    let mut store = SessionStore::new();
    let user = handle_register(&mut store, "alice", "correcthorse1", NOW).expect("registration");
    let outcome = handle_edit(&mut store, &user, "correcthorse1", "newhorse22", "newhorse23");
    assert_eq!(outcome, EditOutcome::PasswordsDontMatch);
    assert!(handle_login(&store, "alice", "correcthorse1").is_some());
    assert!(handle_login(&store, "alice", "newhorse22").is_none());
}
