//! Login and registration.
//!
//! Absence of a user and a wrong password present identically to the
//! caller: a login attempt either resolves to the stored user or fails
//! generically, never revealing which side was wrong.

use vstd::prelude::*;

use crate::messages::SiteMessages;
use crate::models::{SessionModel, User, UserModel};
use crate::session::{SessionUtils, UserSession, SESSION_EXPIRY_SECONDS, SESSION_ID_LENGTH};
use crate::store::SessionStore;
use crate::util::{
    eq_ignore_case, hash_password, password_matches, phc_parses, sha256_of, valid_token,
    VerifyOutcome,
};

verus! {

/// Minimum length of a password, at registration and at password change.
pub const PASSWORD_MIN_LENGTH: usize = 8;

/// Whether `c` may appear in a username: an ASCII letter or digit, or one
/// of a few allowed symbols.
pub open spec fn spec_valid_char(c: char) -> bool {
    ||| ('a' <= c && c <= 'z')
    ||| ('A' <= c && c <= 'Z')
    ||| ('0' <= c && c <= '9')
    ||| c == ' '
    ||| c == '[' || c == ']' || c == '(' || c == ')'
    ||| c == '-' || c == '_'
}

/// Decides `spec_valid_char` for one character.
pub fn valid_char(c: char) -> (r: bool)
    ensures
        r == spec_valid_char(c),
{
    ('a' <= c && c <= 'z') || ('A' <= c && c <= 'Z') || ('0' <= c && c <= '9') || (match c {
        // a few symbols that are ok
        ' ' => true,
        '[' | ']' | '(' | ')' => true,
        '-' | '_' => true,
        _ => false,
    })
}

/// Whether a requested username passes form validation: nonempty, every
/// character allowed.
pub open spec fn spec_valid_username(u: Seq<char>) -> bool {
    u.len() >= 1 && forall|i: int| 0 <= i < u.len() ==> spec_valid_char(#[trigger] u[i])
}

/// Decides `spec_valid_username` for a requested username.
pub fn valid_username(username: &str) -> (r: bool)
    ensures
        r == spec_valid_username(username@),
{
    let n = username.unicode_len();
    if n == 0 {
        return false;
    }
    let mut i: usize = 0;
    while i < n
        invariant
            n == username@.len(),
            i <= n,
            forall|j: int| 0 <= j < i ==> spec_valid_char(#[trigger] username@[j]),
        decreases n - i,
    {
        if !valid_char(username.get_char(i)) {
            return false;
        }
        i += 1;
    }
    true
}

/// A failed registration.
#[derive(PartialEq, Eq, Structural, Clone, Copy, Debug)]
pub enum RegisterError {
    /// The requested username is already taken (case-insensitively).
    UsernameInUse,
    /// The password could not be hashed: an internal fault, not
    /// user-attributable.
    GenericError,
}

/// The login check: resolves the credentials to the stored user, or fails.
///
/// Returns the user if and only if a stored user has the requested
/// username (case-insensitively), that user's stored hash parses, and the
/// password matches it. A missing user, a malformed stored hash and a
/// wrong password all yield `None`: the caller reports them identically.
pub fn handle_login(store: &SessionStore, username: &str, password: &str) -> (r: Option<User>)
    requires
        store.wf(),
    ensures
        match r {
            Some(u) => {
                &&& exists|i: int|
                    0 <= i < store@.users.len() && #[trigger] store@.users[i] == u@
                &&& eq_ignore_case(u@.username, username@)
                &&& phc_parses(u@.password)
                &&& password_matches(password@, u@.password)
            },
            None => forall|i: int|
                0 <= i < store@.users.len() && eq_ignore_case(
                    #[trigger] store@.users[i].username,
                    username@,
                ) ==> !(phc_parses(store@.users[i].password) && password_matches(
                    password@,
                    store@.users[i].password,
                )),
        },
{
    let user = match store.find_user(username) {
        Some(u) => u,
        None => {
            return None;
        },
    };
    let outcome = user.verify_password(password);
    if matches!(outcome, VerifyOutcome::Success) {
        proof {
            let i = choose|i: int| 0 <= i < store@.users.len() && #[trigger] store@.users[i] == user@;
            assert(store@.users[i] == user@);
        }
        Some(user)
    } else {
        proof {
            let i = choose|i: int|
                0 <= i < store@.users.len() && #[trigger] store@.users[i] == user@ && eq_ignore_case(
                    user@.username,
                    username@,
                );
            assert forall|k: int|
                0 <= k < store@.users.len() && eq_ignore_case(
                    #[trigger] store@.users[k].username,
                    username@,
                ) implies !(phc_parses(store@.users[k].password) && password_matches(
                password@,
                store@.users[k].password,
            )) by {
                if k < i {
                    assert(!eq_ignore_case(store@.users[k].username, store@.users[i].username));
                } else if i < k {
                    assert(!eq_ignore_case(store@.users[i].username, store@.users[k].username));
                }
            }
        }
        None
    }
}

/// The registration flow: rejects a taken username, hashes the password
/// with a fresh salt, and stores the new user.
///
/// Fails with `UsernameInUse` exactly when a stored user already has the
/// username (case-insensitively); a hashing fault surfaces as
/// `GenericError`. Either failure leaves the store unchanged. On success
/// the new user's row is appended, carrying a hash that the requested
/// password verifies against.
pub fn handle_register(store: &mut SessionStore, username: &str, password: &str, now: i64) -> (r:
    Result<User, RegisterError>)
    requires
        old(store).wf(),
        now >= 0,
        old(store)@.next_user_id < i64::MAX,
    ensures
        final(store).wf(),
        final(store)@.sessions == old(store)@.sessions,
        final(store)@.next_session_id == old(store)@.next_session_id,
        match r {
            Ok(u) => {
                &&& u@.id == old(store)@.next_user_id
                &&& u@.username == username@
                &&& u@.created_at == now as int
                &&& phc_parses(u@.password)
                &&& password_matches(password@, u@.password)
                &&& final(store)@.users =~= old(store)@.users.push(u@)
                &&& final(store)@.next_user_id == old(store)@.next_user_id + 1
            },
            Err(e) => {
                &&& final(store)@ == old(store)@
                &&& (e == RegisterError::UsernameInUse <==> old(store)@.has_username(username@))
            },
        },
        old(store)@.has_username(username@) ==> r is Err,
{
    if store.find_user(username).is_some() {
        return Err(RegisterError::UsernameInUse);
    }
    let hash = match hash_password(password) {
        Ok(h) => h,
        Err(_) => {
            return Err(RegisterError::GenericError);
        },
    };
    match store.insert_user(username, hash.as_str(), now) {
        Ok(user) => Ok(user),
        Err(_) => {
            proof {
                assert(false);
            }
            unreached()
        },
    }
}

/// The registration endpoint's decisions, with the CAPTCHA verdict — an
/// outbound network call the caller makes — handed in as a value: a failed
/// CAPTCHA refuses outright; otherwise the user is registered and their
/// session started, and a refused step surfaces as its user-facing
/// message, the store untouched.
///
/// On success the session cookie is `None` only if starting the session
/// failed; the registration itself stands either way, as the flow
/// completes regardless and the fault is only logged.
pub fn register_post(
    store: &mut SessionStore,
    username: &str,
    password: &str,
    captcha_ok: bool,
    now: i64,
) -> (r: Result<(User, Option<String>), SiteMessages>)
    requires
        old(store).wf(),
        0 <= now <= i64::MAX - SESSION_EXPIRY_SECONDS,
        old(store)@.next_user_id < i64::MAX,
        old(store)@.next_session_id < i64::MAX,
    ensures
        final(store).wf(),
        r == Err::<(User, Option<String>), SiteMessages>(SiteMessages::CAPTCHAFailed) <==> !captcha_ok,
        r == Err::<(User, Option<String>), SiteMessages>(SiteMessages::UsernameInUse) <==> captcha_ok
            && old(store)@.has_username(username@),
        r is Err ==> final(store)@ == old(store)@,
        match r {
            Ok(pair) => {
                &&& pair.0@.id == old(store)@.next_user_id
                &&& pair.0@.username == username@
                &&& phc_parses(pair.0@.password)
                &&& password_matches(password@, pair.0@.password)
                &&& final(store)@.users =~= old(store)@.users.push(pair.0@)
                &&& final(store)@.next_user_id == old(store)@.next_user_id + 1
                &&& match pair.1 {
                    Some(t) => {
                        &&& valid_token(t@, SESSION_ID_LENGTH as int)
                        &&& final(store)@.sessions =~= old(store)@.sessions.push(
                            SessionModel {
                                id: old(store)@.next_session_id,
                                user_id: pair.0@.id,
                                fingerprint: sha256_of(t@),
                                created_at: now as int,
                                modified_at: None,
                                expires_at: now + SESSION_EXPIRY_SECONDS,
                            },
                        )
                        &&& final(store)@.next_session_id == old(store)@.next_session_id + 1
                    },
                    None => final(store)@.sessions == old(store)@.sessions
                        && final(store)@.next_session_id == old(store)@.next_session_id,
                }
            },
            Err(_) => true,
        },
{
    if !captcha_ok {
        return Err(SiteMessages::CAPTCHAFailed);
    }
    let user = match handle_register(store, username, password, now) {
        Ok(user) => user,
        Err(RegisterError::UsernameInUse) => {
            return Err(SiteMessages::UsernameInUse);
        },
        Err(RegisterError::GenericError) => {
            return Err(SiteMessages::GenericError);
        },
    };
    match SessionUtils::begin_session(&user, store, now) {
        Ok(token) => Ok((user, Some(token))),
        Err(_) => Ok((user, None)),
    }
}

/// The login endpoint's decisions: resolve the credentials and start a
/// session. A missing user, a malformed stored hash and a wrong password
/// fail identically, the store untouched. On success the session cookie is
/// `None` only if starting the session failed; the login stands either
/// way, the fault only logged.
pub fn login_post(store: &mut SessionStore, username: &str, password: &str, now: i64) -> (r:
    Result<(User, Option<String>), SiteMessages>)
    requires
        old(store).wf(),
        0 <= now <= i64::MAX - SESSION_EXPIRY_SECONDS,
        old(store)@.next_session_id < i64::MAX,
    ensures
        final(store).wf(),
        final(store)@.users == old(store)@.users,
        final(store)@.next_user_id == old(store)@.next_user_id,
        match r {
            Ok(pair) => {
                &&& exists|i: int|
                    0 <= i < old(store)@.users.len() && #[trigger] old(store)@.users[i] == pair.0@
                &&& eq_ignore_case(pair.0@.username, username@)
                &&& phc_parses(pair.0@.password)
                &&& password_matches(password@, pair.0@.password)
                &&& match pair.1 {
                    Some(t) => {
                        &&& valid_token(t@, SESSION_ID_LENGTH as int)
                        &&& final(store)@.sessions =~= old(store)@.sessions.push(
                            SessionModel {
                                id: old(store)@.next_session_id,
                                user_id: pair.0@.id,
                                fingerprint: sha256_of(t@),
                                created_at: now as int,
                                modified_at: None,
                                expires_at: now + SESSION_EXPIRY_SECONDS,
                            },
                        )
                        &&& final(store)@.next_session_id == old(store)@.next_session_id + 1
                    },
                    None => final(store)@ == old(store)@,
                }
            },
            Err(e) => {
                &&& e == SiteMessages::LoginFailed
                &&& final(store)@ == old(store)@
                &&& forall|i: int|
                    0 <= i < old(store)@.users.len() && eq_ignore_case(
                        #[trigger] old(store)@.users[i].username,
                        username@,
                    ) ==> !(phc_parses(old(store)@.users[i].password) && password_matches(
                        password@,
                        old(store)@.users[i].password,
                    ))
            },
        },
{
    let user = match handle_login(store, username, password) {
        Some(user) => user,
        None => {
            return Err(SiteMessages::LoginFailed);
        },
    };
    match SessionUtils::begin_session(&user, store, now) {
        Ok(token) => Ok((user, Some(token))),
        Err(_) => Ok((user, None)),
    }
}

/// The logout endpoint's decision: a request with a resolved session ends
/// it; one without changes nothing. The caller clears the client's cookie.
pub fn logout(store: &mut SessionStore, user_session: &UserSession)
    requires
        old(store).wf(),
    ensures
        final(store).wf(),
        final(store)@.users == old(store)@.users,
        final(store)@.next_user_id == old(store)@.next_user_id,
        final(store)@.next_session_id == old(store)@.next_session_id,
        match user_session.session {
            Some(s) => final(store)@.sessions == old(store)@.sessions.filter(
                |m: SessionModel| m.id != s@.id,
            ),
            None => final(store)@ == old(store)@,
        },
{
    if let Some(session) = &user_session.session {
        SessionUtils::end_session(store, session);
    }
}

} // verus!
