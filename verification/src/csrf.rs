//! Anti-forgery protection for mutating requests.
//!
//! Every response that can lead to a mutating request carries a fresh
//! random token, sealed into a tamper-evident cookie and embedded in the
//! response for the client to echo back. A mutating request passes only if
//! the echoed value equals the cookie's value; success immediately rotates
//! the token, so each token is good for a single round trip. No token is
//! ever stored server-side.

use vstd::prelude::*;

use crate::util::{rand_string, str_equal, valid_token};

verus! {

/// Name of the CSRF cookie, and of the query field that echoes it.
pub const TOKEN_NAME: &'static str = "csrf_token";

/// Length of a CSRF token.
pub const TOKEN_LENGTH: usize = 64;

/// A failed CSRF check.
#[derive(PartialEq, Eq, Structural, Clone, Copy, Debug)]
pub enum CsrfError {
    /// The echoed token was absent or did not equal the cookie's value.
    VerificationFailed,
    /// A replacement token could not be produced.
    GenerationFailed,
}

/// The client's CSRF cookie as the server sealed it: it holds the most
/// recently issued token, if one was ever issued. The cookie mechanism's
/// tamper-evidence is what makes its value trustworthy; this type models
/// the sealed value, while transport stays with the caller.
pub struct CsrfCookie {
    value: Option<String>,
}

impl CsrfCookie {
    /// The most recently issued token, if any.
    pub closed spec fn spec_value(&self) -> Option<Seq<char>> {
        match self.value {
            Some(ref v) => Some(v@),
            None => None,
        }
    }

    /// A cookie jar with no CSRF cookie yet: a client's first visit.
    pub fn new() -> (r: Self)
        ensures
            r.spec_value() is None,
    {
        CsrfCookie { value: None }
    }
}

/// The token value the request's query echoes: the value of the first
/// query segment named `csrf_token`, if any.
pub open spec fn echoed_token(segments: Seq<(String, String)>) -> Option<Seq<char>>
    decreases segments.len(),
{
    if segments.len() == 0 {
        None
    } else if segments[0].0@ == TOKEN_NAME@ {
        Some(segments[0].1@)
    } else {
        echoed_token(segments.drop_first())
    }
}

/// Whether the request echoes exactly the most recently issued token:
/// the condition under which, and only under which, CSRF verification
/// succeeds.
pub open spec fn csrf_match(cookie: Option<Seq<char>>, segments: Seq<(String, String)>) -> bool {
    match (cookie, echoed_token(segments)) {
        (Some(c), Some(e)) => c == e,
        _ => false,
    }
}

/// A freshly issued anti-forgery token, to be embedded in the response for
/// the client to echo on its next mutating request.
pub struct CsrfToken {
    pub token: String,
}

impl CsrfToken {
    /// Issues a fresh token: generates a random value, seals it into the
    /// CSRF cookie in place of any earlier value, and hands it back for the
    /// response. Runs on every response that can lead to a mutating
    /// request: tokens live for a single round trip.
    pub fn from_request(cookie: &mut CsrfCookie) -> (t: CsrfToken)
        ensures
            valid_token(t.token@, TOKEN_LENGTH as int),
            final(cookie).spec_value() == Some(t.token@),
    {
        let token = rand_string(TOKEN_LENGTH);
        cookie.value = Some(token.clone());
        CsrfToken { token }
    }
}

/// A passed CSRF check, carrying the replacement token issued on success.
pub struct CsrfVerify {
    new_token: String,
}

impl CsrfVerify {
    /// The replacement token's characters.
    pub closed spec fn spec_new_token(&self) -> Seq<char> {
        self.new_token@
    }

    /// The replacement token issued when verification succeeded.
    pub fn new_token(&self) -> (r: &str)
        ensures
            r@ == self.spec_new_token(),
    {
        &self.new_token
    }

    /// The echoed token in the request's decoded query segments: the value
    /// of the first segment named `csrf_token`, if any.
    pub fn get_query(segments: &Vec<(String, String)>) -> (r: Option<&String>)
        ensures
            match r {
                Some(v) => echoed_token(segments@) == Some(v@),
                None => echoed_token(segments@) is None,
            },
    {
        let n = segments.len();
        let mut i: usize = 0;
        proof {
            assert(segments@.skip(0) =~= segments@);
        }
        while i < n
            invariant
                n == segments@.len(),
                i <= n,
                echoed_token(segments@) == echoed_token(segments@.skip(i as int)),
            decreases n - i,
        {
            proof {
                assert(segments@.skip(i as int)[0] == segments@[i as int]);
                assert(segments@.skip(i as int).drop_first() =~= segments@.skip(i as int + 1));
            }
            if str_equal(segments[i].0.as_str(), TOKEN_NAME) {
                return Some(&segments[i].1);
            }
            i += 1;
        }
        proof {
            assert(segments@.skip(n as int).len() == 0);
        }
        None
    }

    /// Compares the echoed token against the cookie's value: `None` when
    /// either side is absent, otherwise whether they are equal.
    pub fn compare_tokens(segments: &Vec<(String, String)>, cookie: &CsrfCookie) -> (r: Option<
        bool,
    >)
        ensures
            match r {
                Some(b) => b == csrf_match(cookie.spec_value(), segments@),
                None => cookie.spec_value() is None || echoed_token(segments@) is None,
            },
            r is None ==> !csrf_match(cookie.spec_value(), segments@),
    {
        let query_token = match Self::get_query(segments) {
            Some(t) => t,
            None => {
                return None;
            },
        };
        let cookie_value = match &cookie.value {
            Some(v) => v,
            None => {
                return None;
            },
        };
        Some(str_equal(query_token.as_str(), cookie_value.as_str()))
    }

    /// The CSRF guard for a mutating request: succeeds if and only if the
    /// request echoes exactly the most recently issued token. Success
    /// immediately issues the replacement token — sealed into the cookie
    /// and carried in the result — so protection stays effective for
    /// follow-up requests. Failure issues nothing and leaves the cookie
    /// as it was: a deliberately failed probe cannot obtain a token.
    pub fn from_request(cookie: &mut CsrfCookie, segments: &Vec<(String, String)>) -> (r: Result<
        CsrfVerify,
        CsrfError,
    >)
        ensures
            r is Ok <==> csrf_match(old(cookie).spec_value(), segments@),
            match r {
                Ok(v) => {
                    &&& valid_token(v.spec_new_token(), TOKEN_LENGTH as int)
                    &&& final(cookie).spec_value() == Some(v.spec_new_token())
                },
                Err(e) => {
                    &&& e == CsrfError::VerificationFailed
                    &&& *final(cookie) == *old(cookie)
                },
            },
    {
        let matched = Self::compare_tokens(segments, cookie);
        if let Some(true) = matched {
            let csrf = CsrfToken::from_request(cookie);
            return Ok(CsrfVerify { new_token: csrf.token });
        }
        Err(CsrfError::VerificationFailed)
    }
}

} // verus!
