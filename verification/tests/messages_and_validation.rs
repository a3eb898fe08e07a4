use fumohouse_auth::auth::{valid_char, valid_username, PASSWORD_MIN_LENGTH};
use fumohouse_auth::messages::SiteMessages;

#[test]
fn descriptions_are_the_site_texts() {
    assert_eq!(
        SiteMessages::GenericError.description(),
        "An internal error occurred. Please try again or contact the site admin."
    );
    assert_eq!(SiteMessages::CAPTCHAFailed.description(), "Invalid CAPTCHA response.");
    assert_eq!(
        SiteMessages::UsernameInvalid.description(),
        "Username contains invalid characters."
    );
    assert_eq!(SiteMessages::UsernameInUse.description(), "Username is in use.");
    assert_eq!(SiteMessages::LoginFailed.description(), "Invalid username/password.");
    assert_eq!(SiteMessages::PasswordIncorrect.description(), "Password is incorrect.");
    assert_eq!(SiteMessages::PasswordsDontMatch.description(), "Passwords don't match.");
}

#[test]
fn field_names_attach_to_the_right_messages() {
    assert_eq!(SiteMessages::UsernameInUse.field_name(), Some("username"));
    assert_eq!(SiteMessages::PasswordIncorrect.field_name(), Some("current_password"));
    assert_eq!(SiteMessages::PasswordsDontMatch.field_name(), Some("verify_password"));
    assert_eq!(SiteMessages::GenericError.field_name(), None);
    assert_eq!(SiteMessages::LoginFailed.field_name(), None);
}

#[test]
fn to_string_matches_description() {
    assert_eq!(SiteMessages::LoginFailed.to_string(), "Invalid username/password.");
}

#[test]
fn valid_chars_are_alphanumerics_and_a_few_symbols() {
    for c in ['a', 'z', 'A', 'Z', '0', '9', ' ', '[', ']', '(', ')', '-', '_'] {
        assert!(valid_char(c), "{c:?} should be allowed");
    }
    for c in ['!', ',', '@', '/', '\\', '\u{e9}', '\n'] {
        assert!(!valid_char(c), "{c:?} should be refused");
    }
}

#[test]
fn usernames_must_be_nonempty_and_clean() {
    assert!(valid_username("alice"));
    assert!(valid_username("Touhou [fan] (no 1)"));
    assert!(!valid_username(""));
    assert!(!valid_username("bad!name"));
}

#[test]
fn password_minimum_is_eight() {
    assert_eq!(PASSWORD_MIN_LENGTH, 8);
}
