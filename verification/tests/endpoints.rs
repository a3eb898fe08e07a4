use fumohouse_auth::auth::{login_post, logout, register_post};
use fumohouse_auth::messages::SiteMessages;
use fumohouse_auth::session::UserSession;
use fumohouse_auth::store::SessionStore;

const NOW: i64 = 1_000_000;

#[test]
fn registration_creates_user_and_session() {
    let mut store = SessionStore::new();
    let (user, cookie) =
        register_post(&mut store, "alice", "correcthorse1", true, NOW).expect("register");
    assert_eq!(user.id, 1);
    let cookie = cookie.expect("session cookie");
    assert_eq!(store.user_count(), 1);
    assert_eq!(store.session_count(), 1);

    let resolved = UserSession::from_request(&mut store, Some(&cookie), NOW).expect("resolve");
    assert_eq!(resolved.session.user.expect("authenticated").id, user.id);
}

#[test]
fn failed_captcha_refuses_registration() {
    let mut store = SessionStore::new();
    let err = register_post(&mut store, "alice", "correcthorse1", false, NOW).unwrap_err();
    assert_eq!(err, SiteMessages::CAPTCHAFailed);
    assert_eq!(store.user_count(), 0);
    assert_eq!(store.session_count(), 0);
}

#[test]
fn taken_username_refuses_registration() {
    let mut store = SessionStore::new();
    register_post(&mut store, "alice", "correcthorse1", true, NOW).expect("register");
    let err = register_post(&mut store, "ALICE", "othersecret9", true, NOW).unwrap_err();
    assert_eq!(err, SiteMessages::UsernameInUse);
    assert_eq!(store.user_count(), 1);
}

#[test]
fn login_issues_a_session_and_wrong_credentials_fail_generically() {
    let mut store = SessionStore::new();
    register_post(&mut store, "alice", "correcthorse1", true, NOW).expect("register");

    let (user, cookie) = login_post(&mut store, "alice", "correcthorse1", NOW).expect("login");
    assert_eq!(user.id, 1);
    let cookie = cookie.expect("session cookie");
    let resolved = UserSession::from_request(&mut store, Some(&cookie), NOW).expect("resolve");
    assert!(resolved.session.user.is_some());

    let wrong_pass = login_post(&mut store, "alice", "correcthorse2", NOW).unwrap_err();
    assert_eq!(wrong_pass, SiteMessages::LoginFailed);
    let no_user = login_post(&mut store, "nobody", "correcthorse1", NOW).unwrap_err();
    assert_eq!(no_user, SiteMessages::LoginFailed);
}

#[test]
fn logout_ends_the_resolved_session() {
    let mut store = SessionStore::new();
    register_post(&mut store, "alice", "correcthorse1", true, NOW).expect("register");
    let (_user, cookie) = login_post(&mut store, "alice", "correcthorse1", NOW).expect("login");
    let cookie = cookie.expect("session cookie");

    let resolved = UserSession::from_request(&mut store, Some(&cookie), NOW).expect("resolve");
    let before = store.session_count();
    logout(&mut store, &resolved.session);
    assert_eq!(store.session_count(), before - 1);
    let after = UserSession::from_request(&mut store, Some(&cookie), NOW).expect("resolve");
    assert!(after.session.user.is_none());

    // Logging out without a session changes nothing.
    let anonymous = UserSession::default();
    logout(&mut store, &anonymous);
}
