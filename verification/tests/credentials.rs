use fumohouse_auth::util::{hash_password, verify_password, VerifyOutcome};

#[test]
fn hash_then_verify_succeeds() {
    let h = hash_password("correcthorse1").expect("hashing failed");
    assert_eq!(verify_password("correcthorse1", &h), VerifyOutcome::Success);
}

#[test]
fn two_hashes_of_same_password_differ_and_both_verify() {
    let h1 = hash_password("correcthorse1").expect("hashing failed");
    let h2 = hash_password("correcthorse1").expect("hashing failed");
    assert_ne!(h1, h2, "fresh salts must make the hashes differ");
    assert_eq!(verify_password("correcthorse1", &h1), VerifyOutcome::Success);
    assert_eq!(verify_password("correcthorse1", &h2), VerifyOutcome::Success);
}

#[test]
fn wrong_password_is_a_mismatch() {
    let h = hash_password("correcthorse1").expect("hashing failed");
    assert_eq!(verify_password("correcthorse2", &h), VerifyOutcome::Mismatch);
}

#[test]
fn hash_is_a_phc_string_not_the_password() {
    let h = hash_password("correcthorse1").expect("hashing failed");
    assert!(h.starts_with("$argon2"));
    assert_eq!(verify_password("correcthorse1", "correcthorse1"), VerifyOutcome::Malformed);
}

#[test]
fn unparsable_stored_hash_is_malformed() {
    assert_eq!(verify_password("whatever", "not a hash"), VerifyOutcome::Malformed);
    assert_eq!(verify_password("whatever", ""), VerifyOutcome::Malformed);
}
