//! Session lifecycle: creation on login or registration, sliding-window
//! renewal on authenticated requests, deletion on logout.
//!
//! The client holds a random token in its session cookie; the store holds
//! only the token's fingerprint. Renewal rotates the token — the row keeps
//! its identity, the fingerprint is replaced in place — so the exposure
//! window of any single token stays bounded.

use vstd::prelude::*;

use crate::models::{Session, SessionModel, User, UserModel};
use crate::store::{SessionStore, StoreError, StoreModel};
use crate::util::{rand_string, sha256, sha256_of, valid_token};

verus! {

/// Name of the cookie carrying the session token.
pub const SESSION_COOKIE_NAME: &'static str = "fh_session";

/// Length of the random session token sent to the client.
pub const SESSION_ID_LENGTH: usize = 32;

/// Inactivity, in seconds, after which an authenticated request rotates its
/// session token: 15 minutes.
pub const SESSION_RENEW_SECONDS: i64 = 15 * 60;

/// Lifetime, in seconds, of a session from its creation or latest renewal:
/// 30 days.
pub const SESSION_EXPIRY_SECONDS: i64 = 30 * 24 * 60 * 60;

/// Interval, in seconds, between two sweeps of the session purger:
/// 30 minutes.
pub const SESSION_PURGE_SECONDS: i64 = 30 * 60;

/// A failure of the session manager. Store faults surface here; absence of
/// a session never does.
#[derive(PartialEq, Eq, Structural, Clone, Copy, Debug)]
pub enum SessionError {
    /// The user's session information could not be retrieved.
    RetrieveFailed,
    /// The session could not be renewed.
    RenewFailed,
    /// The session guard failed.
    SessionGuardFailed,
    /// The user is forbidden from accessing this route.
    Forbidden,
}

/// Row `m` as rotation at `now` with new fingerprint `fp` rewrites it: same
/// id, owner and creation instant; renewal recorded; expiry extended.
pub open spec fn rotated_session(m: SessionModel, fp: Seq<u8>, now: int) -> SessionModel {
    SessionModel {
        id: m.id,
        user_id: m.user_id,
        fingerprint: fp,
        created_at: m.created_at,
        modified_at: Some(now),
        expires_at: now + SESSION_EXPIRY_SECONDS,
    }
}

/// Whether the sliding window requires rotating row `m` at instant `now`.
pub open spec fn renewal_due(m: SessionModel, now: int) -> bool {
    now - m.last_activity() > SESSION_RENEW_SECONDS
}

/// What the session manager resolved a request's cookie to: an anonymous
/// visitor, or an authenticated user with their session row.
pub struct UserSession {
    pub user: Option<User>,
    pub session: Option<Session>,
}

impl Default for UserSession {
    /// The anonymous outcome: no user, no session.
    fn default() -> (r: Self)
        ensures
            anonymous(r),
    {
        UserSession { user: None, session: None }
    }
}

/// Whether `us` carries no user and no session: the anonymous outcome.
pub open spec fn anonymous(us: UserSession) -> bool {
    us.user is None && us.session is None
}

/// Whether `us` is the authenticated outcome for session row `m`: it
/// carries exactly that row, and the owning user as stored in `users`.
pub open spec fn authenticated_as(us: UserSession, users: Seq<UserModel>, m: SessionModel) -> bool {
    &&& match us.session {
        Some(s) => s@ == m,
        None => false,
    }
    &&& match us.user {
        Some(u) => u@.id == m.user_id && exists|j: int|
            0 <= j < users.len() && #[trigger] users[j] == u@,
        None => false,
    }
}

/// The session manager's result for one request: the resolved (possibly
/// anonymous) identity, and a replacement session cookie when the sliding
/// window rotated the token.
pub struct ResolvedSession {
    pub session: UserSession,
    pub new_cookie: Option<String>,
}

/// After a renewal, the old fingerprint no longer matches any stored row
/// and the new fingerprint does: rotation replaces the token in place, it
/// never leaves both outstanding. Stated for a fresh fingerprint that
/// differs from the old one, as the digests of two distinct random tokens
/// do.
pub proof fn lemma_rotation_replaces_fingerprint(
    sessions: Seq<SessionModel>,
    i: int,
    new_fp: Seq<u8>,
    now: int,
)
    requires
        crate::store::fingerprints_distinct(sessions),
        0 <= i < sessions.len(),
        new_fp != sessions[i].fingerprint,
    ensures
        ({
            let updated = sessions.update(i, rotated_session(sessions[i], new_fp, now));
            &&& forall|k: int|
                0 <= k < updated.len() ==> (#[trigger] updated[k]).fingerprint
                    != sessions[i].fingerprint
            &&& exists|k: int|
                0 <= k < updated.len() && (#[trigger] updated[k]).fingerprint == new_fp
        }),
{
    let updated = sessions.update(i, rotated_session(sessions[i], new_fp, now));
    assert(updated[i].fingerprint == new_fp);
    assert forall|k: int|
        0 <= k < updated.len() implies (#[trigger] updated[k]).fingerprint
        != sessions[i].fingerprint by {
        if k < i {
            assert(sessions[k].fingerprint != sessions[i].fingerprint);
        } else if i < k {
            assert(sessions[i].fingerprint != sessions[k].fingerprint);
        }
    }
}

/// A session whose expiry has passed never authenticates, even while its
/// row is still physically present in the store: when every row carrying
/// the cookie's fingerprint has expired, the store has no live match, and
/// the session manager resolves such a request to the anonymous outcome.
pub proof fn lemma_expired_session_never_authenticates(
    model: StoreModel,
    fp: Seq<u8>,
    now: int,
)
    requires
        forall|i: int|
            0 <= i < model.sessions.len() && (#[trigger] model.sessions[i]).fingerprint == fp
                ==> !model.sessions[i].is_live(now),
    ensures
        !model.has_live_fingerprint(fp, now),
{
}

/// Session bookkeeping: token generation, creation, renewal, deletion.
pub struct SessionUtils;

impl SessionUtils {
    /// A fresh random session token together with its fingerprint.
    fn new_session_id() -> (r: (String, Vec<u8>))
        ensures
            valid_token(r.0@, SESSION_ID_LENGTH as int),
            r.1@ == sha256_of(r.0@),
    {
        let session_id = rand_string(SESSION_ID_LENGTH);
        let hash = sha256(session_id.as_str());
        (session_id, hash)
    }

    /// The expiry instant of a session created or renewed at `now`.
    pub fn expiry_from(now: i64) -> (r: i64)
        requires
            0 <= now <= i64::MAX - SESSION_EXPIRY_SECONDS,
        ensures
            r == now + SESSION_EXPIRY_SECONDS,
    {
        now + SESSION_EXPIRY_SECONDS
    }

    /// Starts a session for `user` at instant `now`: generates a fresh
    /// token, stores its fingerprint with the full lifetime, and returns the
    /// token for the client's cookie. Fails, leaving the store unchanged, if
    /// the user is not stored or the fingerprint of the fresh token
    /// collides with an outstanding row.
    pub fn begin_session(user: &User, store: &mut SessionStore, now: i64) -> (r: Result<
        String,
        StoreError,
    >)
        requires
            old(store).wf(),
            0 <= now <= i64::MAX - SESSION_EXPIRY_SECONDS,
            old(store)@.next_session_id < i64::MAX,
        ensures
            final(store).wf(),
            final(store)@.users == old(store)@.users,
            final(store)@.next_user_id == old(store)@.next_user_id,
            match r {
                Ok(token) => {
                    &&& valid_token(token@, SESSION_ID_LENGTH as int)
                    &&& !old(store)@.contains_fingerprint(sha256_of(token@))
                    &&& final(store)@.sessions =~= old(store)@.sessions.push(
                        SessionModel {
                            id: old(store)@.next_session_id,
                            user_id: user@.id,
                            fingerprint: sha256_of(token@),
                            created_at: now as int,
                            modified_at: None,
                            expires_at: now + SESSION_EXPIRY_SECONDS,
                        },
                    )
                    &&& final(store)@.next_session_id == old(store)@.next_session_id + 1
                },
                Err(e) => {
                    &&& final(store)@ == old(store)@
                    &&& (e == StoreError::UserNotFound <==> !old(store)@.has_user_id(user@.id))
                },
            },
            !old(store)@.has_user_id(user@.id) ==> r is Err,
    {
        let (session_id, hash) = Self::new_session_id();
        let expires_at = Self::expiry_from(now);
        match store.insert_session(user.id, hash, now, expires_at) {
            Ok(_) => Ok(session_id),
            Err(e) => Err(e),
        }
    }

    /// Rotates the session row keyed `session_pk` at instant `now`: a fresh
    /// token's fingerprint replaces the old one in place, the renewal is
    /// recorded and the expiry extended. Returns the fresh token for the
    /// client's replacement cookie. A failed rotation leaves the store
    /// unchanged: the row is rewritten atomically or not at all.
    fn renew_session(store: &mut SessionStore, session_pk: i64, now: i64) -> (r: Result<
        String,
        StoreError,
    >)
        requires
            old(store).wf(),
            0 <= now <= i64::MAX - SESSION_EXPIRY_SECONDS,
        ensures
            final(store).wf(),
            final(store)@.users == old(store)@.users,
            final(store)@.next_user_id == old(store)@.next_user_id,
            final(store)@.next_session_id == old(store)@.next_session_id,
            match r {
                Ok(token) => {
                    &&& valid_token(token@, SESSION_ID_LENGTH as int)
                    &&& exists|i: int|
                        {
                            &&& 0 <= i < old(store)@.sessions.len()
                            &&& #[trigger] old(store)@.sessions[i].id == session_pk as int
                            &&& final(store)@.sessions =~= old(store)@.sessions.update(
                                i,
                                rotated_session(
                                    old(store)@.sessions[i],
                                    sha256_of(token@),
                                    now as int,
                                ),
                            )
                        }
                },
                Err(e) => {
                    &&& final(store)@ == old(store)@
                    &&& (e == StoreError::SessionNotFound <==> !old(store)@.has_session_id(
                        session_pk as int,
                    ))
                },
            },
            !old(store)@.has_session_id(session_pk as int) ==> r is Err,
    {
        let (new_sid, new_hash) = Self::new_session_id();
        let expires_at = Self::expiry_from(now);
        match store.rotate_session(session_pk, new_hash, now, expires_at) {
            Ok(_) => Ok(new_sid),
            Err(e) => Err(e),
        }
    }

    /// Ends `session`: deletes its row, so its token no longer
    /// authenticates. The caller clears the client's cookie.
    pub fn end_session(store: &mut SessionStore, session: &Session)
        requires
            old(store).wf(),
        ensures
            final(store).wf(),
            final(store)@.sessions == old(store)@.sessions.filter(
                |m: SessionModel| m.id != session@.id,
            ),
            final(store)@.users == old(store)@.users,
            final(store)@.next_user_id == old(store)@.next_user_id,
            final(store)@.next_session_id == old(store)@.next_session_id,
    {
        store.delete_session(session.id);
    }
}

impl UserSession {
    /// The session manager: resolves an inbound request's session cookie.
    ///
    /// No cookie, or a cookie whose fingerprint matches no live session row
    /// (missing or already expired alike), resolves to the anonymous
    /// outcome with the store untouched — the two are never distinguished
    /// to the caller. A cookie matching a live row resolves to the
    /// authenticated outcome; if the row has been inactive longer than the
    /// renewal threshold, its token is first rotated and the replacement
    /// cookie returned. A failed rotation is a failure outcome and the
    /// store is left unchanged: the manager fails closed rather than
    /// authenticate an inconsistent state.
    pub fn from_request(store: &mut SessionStore, cookie: Option<&str>, now: i64) -> (r: Result<
        ResolvedSession,
        SessionError,
    >)
        requires
            old(store).wf(),
            0 <= now <= i64::MAX - SESSION_EXPIRY_SECONDS,
        ensures
            final(store).wf(),
            final(store)@.users == old(store)@.users,
            final(store)@.next_user_id == old(store)@.next_user_id,
            final(store)@.next_session_id == old(store)@.next_session_id,
            match cookie {
                None => match r {
                    Ok(res) => anonymous(res.session) && res.new_cookie is None && final(store)@
                        == old(store)@,
                    Err(_) => false,
                },
                Some(tok) => {
                    let pre = old(store)@;
                    let fp = sha256_of(tok@);
                    if !pre.has_live_fingerprint(fp, now as int) {
                        match r {
                            Ok(res) => anonymous(res.session) && res.new_cookie is None
                                && final(store)@ == pre,
                            Err(_) => false,
                        }
                    } else {
                        let i = pre.live_fingerprint_index(fp, now as int);
                        let m = pre.sessions[i];
                        if !renewal_due(m, now as int) {
                            match r {
                                Ok(res) => {
                                    &&& authenticated_as(res.session, pre.users, m)
                                    &&& res.new_cookie is None
                                    &&& final(store)@ == pre
                                },
                                Err(_) => false,
                            }
                        } else {
                            match r {
                                Ok(res) => match res.new_cookie {
                                    Some(t) => {
                                        &&& valid_token(t@, SESSION_ID_LENGTH as int)
                                        &&& final(store)@.sessions =~= pre.sessions.update(
                                            i,
                                            rotated_session(m, sha256_of(t@), now as int),
                                        )
                                        &&& authenticated_as(
                                            res.session,
                                            pre.users,
                                            rotated_session(m, sha256_of(t@), now as int),
                                        )
                                    },
                                    None => false,
                                },
                                Err(e) => e == SessionError::RenewFailed && final(store)@ == pre,
                            }
                        }
                    }
                },
            },
    {
        let tok = match cookie {
            Some(t) => t,
            None => {
                return Ok(ResolvedSession { session: UserSession::default(), new_cookie: None });
            },
        };
        let fp = sha256(tok);
        let ghost pre = store@;
        match store.find_session(&fp, now) {
            None => Ok(ResolvedSession { session: UserSession::default(), new_cookie: None }),
            Some((user, session)) => {
                proof {
                    let gi = choose|i: int|
                        0 <= i < pre.sessions.len() && #[trigger] pre.sessions[i] == session@;
                    assert(pre.sessions[gi].fingerprint == fp@ && pre.sessions[gi].is_live(
                        now as int,
                    ));
                    assert(pre.has_live_fingerprint(fp@, now as int));
                    let li = pre.live_fingerprint_index(fp@, now as int);
                    assert(pre.sessions[li].fingerprint == fp@ && pre.sessions[li].is_live(
                        now as int,
                    ));
                    assert(li == gi);
                    assert(pre.sessions[li] == session@);
                    assert(session@.timestamps_wf());
                }
                let ghost li = pre.live_fingerprint_index(fp@, now as int);
                let ghost m = pre.sessions[li];
                if session.since_last_modify(now) > SESSION_RENEW_SECONDS {
                    assert(renewal_due(m, now as int));
                    match SessionUtils::renew_session(store, session.id, now) {
                        Ok(new_sid) => {
                            proof {
                                let ri = choose|i: int|
                                    0 <= i < pre.sessions.len() && #[trigger] pre.sessions[i].id
                                        == session@.id && store@.sessions =~= pre.sessions.update(
                                        i,
                                        rotated_session(
                                            pre.sessions[i],
                                            sha256_of(new_sid@),
                                            now as int,
                                        ),
                                    );
                                assert(ri == li);
                            }
                            let new_hash = sha256(new_sid.as_str());
                            let rotated = Session {
                                id: session.id,
                                user_id: session.user_id,
                                session_id: new_hash,
                                created_at: session.created_at,
                                modified_at: Some(now),
                                expires_at: SessionUtils::expiry_from(now),
                            };
                            assert(rotated@ == rotated_session(m, sha256_of(new_sid@), now as int));
                            Ok(
                                ResolvedSession {
                                    session: UserSession {
                                        user: Some(user),
                                        session: Some(rotated),
                                    },
                                    new_cookie: Some(new_sid),
                                },
                            )
                        },
                        Err(_) => Err(SessionError::RenewFailed),
                    }
                } else {
                    Ok(
                        ResolvedSession {
                            session: UserSession { user: Some(user), session: Some(session) },
                            new_cookie: None,
                        },
                    )
                }
            },
        }
    }
}

} // verus!
