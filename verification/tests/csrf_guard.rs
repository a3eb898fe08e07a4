use fumohouse_auth::csrf::{CsrfCookie, CsrfToken, CsrfVerify, TOKEN_LENGTH, TOKEN_NAME};

fn echo(token: &str) -> Vec<(String, String)> {
    vec![(TOKEN_NAME.to_string(), token.to_string())]
}

#[test]
fn issued_token_is_long_and_alphanumeric() {
    let mut jar = CsrfCookie::new();
    let t = CsrfToken::from_request(&mut jar);
    assert_eq!(t.token.len(), TOKEN_LENGTH);
    assert!(t.token.chars().all(|c| c.is_ascii_alphanumeric()));
}

#[test]
fn echoing_the_issued_token_succeeds_and_rotates() {
    let mut jar = CsrfCookie::new();
    let t0 = CsrfToken::from_request(&mut jar);

    let verified = CsrfVerify::from_request(&mut jar, &echo(&t0.token)).expect("verify");
    let t1 = verified.new_token().to_string();
    assert_ne!(t1, t0.token, "success must issue a fresh token");

    // Replaying the old token is forbidden; the rotated token passes.
    assert!(CsrfVerify::from_request(&mut jar, &echo(&t0.token)).is_err());
    assert!(CsrfVerify::from_request(&mut jar, &echo(&t1)).is_ok());
}

#[test]
fn missing_cookie_fails() {
    let mut jar = CsrfCookie::new();
    assert!(CsrfVerify::from_request(&mut jar, &echo("sometoken")).is_err());
}

#[test]
fn missing_echo_fails() {
    let mut jar = CsrfCookie::new();
    let _t0 = CsrfToken::from_request(&mut jar);
    let empty: Vec<(String, String)> = Vec::new();
    assert!(CsrfVerify::from_request(&mut jar, &empty).is_err());
    let unrelated = vec![("other".to_string(), "value".to_string())];
    assert!(CsrfVerify::from_request(&mut jar, &unrelated).is_err());
}

#[test]
fn stale_token_from_two_issuances_ago_fails() {
    let mut jar = CsrfCookie::new();
    let t0 = CsrfToken::from_request(&mut jar);
    let _t1 = CsrfToken::from_request(&mut jar);
    assert!(CsrfVerify::from_request(&mut jar, &echo(&t0.token)).is_err());
}

#[test]
fn failed_verification_issues_no_token() {
    let mut jar = CsrfCookie::new();
    let t0 = CsrfToken::from_request(&mut jar);
    // A deliberately failed probe must not rotate the cookie: the original
    // token still works afterwards.
    assert!(CsrfVerify::from_request(&mut jar, &echo("wrong")).is_err());
    assert!(CsrfVerify::from_request(&mut jar, &echo(&t0.token)).is_ok());
}

#[test]
fn get_query_returns_the_first_matching_segment() {
    let segments = vec![
        ("page".to_string(), "1".to_string()),
        (TOKEN_NAME.to_string(), "first".to_string()),
        (TOKEN_NAME.to_string(), "second".to_string()),
    ];
    assert_eq!(CsrfVerify::get_query(&segments), Some(&"first".to_string()));
    let none = vec![("page".to_string(), "1".to_string())];
    assert_eq!(CsrfVerify::get_query(&none), None);
}

#[test]
fn compare_tokens_reports_absence_and_equality() {
    let mut jar = CsrfCookie::new();
    assert_eq!(CsrfVerify::compare_tokens(&echo("x"), &jar), None);
    let t0 = CsrfToken::from_request(&mut jar);
    let empty: Vec<(String, String)> = Vec::new();
    assert_eq!(CsrfVerify::compare_tokens(&empty, &jar), None);
    assert_eq!(CsrfVerify::compare_tokens(&echo(&t0.token), &jar), Some(true));
    assert_eq!(CsrfVerify::compare_tokens(&echo("imposter"), &jar), Some(false));
}
