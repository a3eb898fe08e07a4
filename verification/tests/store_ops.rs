use fumohouse_auth::store::{SessionStore, StoreError};

const NOW: i64 = 1_000_000;

#[test]
fn insert_and_find_user_case_insensitively() {
    let mut store = SessionStore::new();
    let user = store.insert_user("Alice", "$fakehash", NOW).expect("insert");
    assert_eq!(user.id, 1);
    assert_eq!(user.username, "Alice");
    let found = store.find_user("aLICE").expect("find");
    assert_eq!(found.id, user.id);
    assert!(store.find_user("bob").is_none());
    assert!(store.find_user_by_id(user.id).is_some());
    assert!(store.find_user_by_id(99).is_none());
}

#[test]
fn duplicate_username_is_refused() {
    let mut store = SessionStore::new();
    store.insert_user("Alice", "$h1", NOW).expect("insert");
    let err = store.insert_user("ALICE", "$h2", NOW).unwrap_err();
    assert_eq!(err, StoreError::UsernameTaken);
}

#[test]
fn user_ids_are_assigned_in_order() {
    let mut store = SessionStore::new();
    let a = store.insert_user("alice", "$h1", NOW).expect("insert");
    let b = store.insert_user("bob", "$h2", NOW).expect("insert");
    assert_eq!((a.id, b.id), (1, 2));
}

#[test]
fn insert_session_requires_an_owner() {
    let mut store = SessionStore::new();
    let err = store.insert_session(5, vec![1, 2], NOW, NOW + 10).unwrap_err();
    assert_eq!(err, StoreError::UserNotFound);
    assert_eq!(store.session_count(), 0);
}

#[test]
fn insert_session_refuses_a_duplicate_fingerprint() {
    let mut store = SessionStore::new();
    let user = store.insert_user("alice", "$h", NOW).expect("insert");
    store.insert_session(user.id, vec![1, 2], NOW, NOW + 10).expect("insert");
    let err = store.insert_session(user.id, vec![1, 2], NOW, NOW + 20).unwrap_err();
    assert_eq!(err, StoreError::FingerprintTaken);
    assert_eq!(store.session_count(), 1);
}

#[test]
fn find_session_excludes_expired_rows() {
    let mut store = SessionStore::new();
    let user = store.insert_user("alice", "$h", NOW).expect("insert");
    store.insert_session(user.id, vec![7], 100, NOW).expect("insert");
    // At the expiry instant the row no longer authenticates.
    assert!(store.find_session(&vec![7], NOW).is_none());
    assert!(store.find_session(&vec![7], NOW - 1).is_some());
}

#[test]
fn rotate_session_replaces_the_fingerprint_in_place() {
    let mut store = SessionStore::new();
    let user = store.insert_user("alice", "$h", NOW).expect("insert");
    let session = store.insert_session(user.id, vec![1], NOW, NOW + 10).expect("insert");

    store.rotate_session(session.id, vec![2], NOW + 5, NOW + 100).expect("rotate");
    assert_eq!(store.session_count(), 1);
    assert!(store.find_session(&vec![1], NOW + 6).is_none());
    let (_owner, rotated) = store.find_session(&vec![2], NOW + 6).expect("find");
    assert_eq!(rotated.id, session.id);
    assert_eq!(rotated.created_at, session.created_at);
    assert_eq!(rotated.modified_at, Some(NOW + 5));
    assert_eq!(rotated.expires_at, NOW + 100);
}

#[test]
fn rotate_session_errors() {
    let mut store = SessionStore::new();
    let user = store.insert_user("alice", "$h", NOW).expect("insert");
    let s1 = store.insert_session(user.id, vec![1], NOW, NOW + 10).expect("insert");
    store.insert_session(user.id, vec![2], NOW, NOW + 10).expect("insert");

    let missing = store.rotate_session(99, vec![3], NOW, NOW + 10).unwrap_err();
    assert_eq!(missing, StoreError::SessionNotFound);
    let taken = store.rotate_session(s1.id, vec![2], NOW, NOW + 10).unwrap_err();
    assert_eq!(taken, StoreError::FingerprintTaken);
    // A failed rotation changed nothing: the old fingerprint still matches.
    assert!(store.find_session(&vec![1], NOW).is_some());
}

#[test]
fn delete_session_removes_one_row() {
    let mut store = SessionStore::new();
    let user = store.insert_user("alice", "$h", NOW).expect("insert");
    let s1 = store.insert_session(user.id, vec![1], NOW, NOW + 10).expect("insert");
    store.insert_session(user.id, vec![2], NOW, NOW + 10).expect("insert");
    store.delete_session(s1.id);
    assert_eq!(store.session_count(), 1);
    assert!(store.find_session(&vec![1], NOW).is_none());
    assert!(store.find_session(&vec![2], NOW).is_some());
}

#[test]
fn delete_sessions_for_user_spares_other_users() {
    let mut store = SessionStore::new();
    let alice = store.insert_user("alice", "$h1", NOW).expect("insert");
    let bob = store.insert_user("bob", "$h2", NOW).expect("insert");
    store.insert_session(alice.id, vec![1], NOW, NOW + 10).expect("insert");
    store.insert_session(bob.id, vec![2], NOW, NOW + 10).expect("insert");
    store.insert_session(alice.id, vec![3], NOW, NOW + 10).expect("insert");

    store.delete_sessions_for_user(alice.id);
    assert_eq!(store.session_count(), 1);
    assert!(store.find_session(&vec![2], NOW).is_some());
}

#[test]
fn update_password_touches_only_the_hash() {
    let mut store = SessionStore::new();
    let user = store.insert_user("alice", "$h1", NOW).expect("insert");
    store.update_password(user.id, "$h2").expect("update");
    let found = store.find_user("alice").expect("find");
    assert_eq!(found.password, "$h2");
    assert_eq!(found.username, "alice");
    assert_eq!(found.created_at, NOW);
    let err = store.update_password(99, "$h3").unwrap_err();
    assert_eq!(err, StoreError::UserNotFound);
}
