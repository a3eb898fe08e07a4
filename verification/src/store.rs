//! The session/user store: the persistent record of users and active
//! sessions, and the single source of truth shared by the request path and
//! the purger.
//!
//! Sessions are keyed by a server-assigned id and carry the fingerprint of
//! the client's token; at most one row per outstanding token exists at any
//! time, so rotation replaces the fingerprint in place.

use vstd::prelude::*;

use crate::models::{Session, SessionModel, User, UserModel};
use crate::util::{eq_ignore_case, str_eq_ignore_ascii_case};

verus! {

/// No two stored users share an id.
pub open spec fn user_ids_distinct(users: Seq<UserModel>) -> bool {
    forall|i: int, j: int|
        0 <= i < j < users.len() ==> users[i].id != users[j].id
}

/// No two stored users share a username, even up to ASCII case.
pub open spec fn usernames_distinct(users: Seq<UserModel>) -> bool {
    forall|i: int, j: int|
        0 <= i < j < users.len() ==> !eq_ignore_case(users[i].username, users[j].username)
}

/// No two stored sessions share an id.
pub open spec fn session_ids_distinct(sessions: Seq<SessionModel>) -> bool {
    forall|i: int, j: int|
        0 <= i < j < sessions.len() ==> sessions[i].id != sessions[j].id
}

/// No two stored sessions share a fingerprint: at most one row per
/// outstanding client token.
pub open spec fn fingerprints_distinct(sessions: Seq<SessionModel>) -> bool {
    forall|i: int, j: int|
        0 <= i < j < sessions.len() ==> sessions[i].fingerprint != sessions[j].fingerprint
}

/// Whether some stored user has id `uid`.
pub open spec fn has_user_with_id(users: Seq<UserModel>, uid: int) -> bool {
    exists|j: int| 0 <= j < users.len() && users[j].id == uid
}

/// Every session belongs to a stored user.
pub open spec fn sessions_owned(sessions: Seq<SessionModel>, users: Seq<UserModel>) -> bool {
    forall|i: int|
        0 <= i < sessions.len() ==> has_user_with_id(users, #[trigger] sessions[i].user_id)
}

/// The mathematical model of the store's full state.
pub struct StoreModel {
    pub users: Seq<UserModel>,
    pub sessions: Seq<SessionModel>,
    pub next_user_id: int,
    pub next_session_id: int,
}

impl StoreModel {
    /// The store's invariant: ids and usernames unique, at most one session
    /// row per fingerprint, every session owned by a stored user, ids below
    /// the id counters, and timestamps non-negative.
    pub open spec fn wf(self) -> bool {
        &&& user_ids_distinct(self.users)
        &&& usernames_distinct(self.users)
        &&& session_ids_distinct(self.sessions)
        &&& fingerprints_distinct(self.sessions)
        &&& sessions_owned(self.sessions, self.users)
        &&& forall|i: int|
            0 <= i < self.users.len() ==> 0 <= #[trigger] self.users[i].id < self.next_user_id
        &&& forall|i: int|
            0 <= i < self.sessions.len() ==> 0 <= #[trigger] self.sessions[i].id
                < self.next_session_id
        &&& forall|i: int|
            0 <= i < self.sessions.len() ==> (#[trigger] self.sessions[i]).timestamps_wf()
        &&& forall|i: int|
            0 <= i < self.users.len() ==> #[trigger] self.users[i].created_at >= 0
        &&& 1 <= self.next_user_id
        &&& 1 <= self.next_session_id
    }

    /// Whether some stored session carries fingerprint `fp`.
    pub open spec fn contains_fingerprint(self, fp: Seq<u8>) -> bool {
        exists|i: int| 0 <= i < self.sessions.len() && #[trigger] self.sessions[i].fingerprint == fp
    }

    /// Whether some stored session carries fingerprint `fp` and still
    /// authenticates at `now`.
    pub open spec fn has_live_fingerprint(self, fp: Seq<u8>, now: int) -> bool {
        exists|i: int|
            0 <= i < self.sessions.len() && #[trigger] self.sessions[i].fingerprint == fp
                && self.sessions[i].is_live(now)
    }

    /// Whether some stored session row has primary key `pk`.
    pub open spec fn has_session_id(self, pk: int) -> bool {
        exists|i: int| 0 <= i < self.sessions.len() && #[trigger] self.sessions[i].id == pk
    }

    /// Whether a session row other than the one keyed `pk` carries
    /// fingerprint `fp`.
    pub open spec fn fingerprint_elsewhere(self, fp: Seq<u8>, pk: int) -> bool {
        exists|i: int|
            0 <= i < self.sessions.len() && #[trigger] self.sessions[i].fingerprint == fp
                && self.sessions[i].id != pk
    }

    /// The index of the session row carrying fingerprint `fp` and live at
    /// `now`. Under `wf` at most one such row exists, so when
    /// `has_live_fingerprint` holds this picks it.
    pub open spec fn live_fingerprint_index(self, fp: Seq<u8>, now: int) -> int {
        choose|i: int|
            0 <= i < self.sessions.len() && #[trigger] self.sessions[i].fingerprint == fp
                && self.sessions[i].is_live(now)
    }

    /// Whether some stored user has username `name`, compared
    /// case-insensitively.
    pub open spec fn has_username(self, name: Seq<char>) -> bool {
        exists|i: int|
            0 <= i < self.users.len() && eq_ignore_case(#[trigger] self.users[i].username, name)
    }

    /// Whether some stored user has id `uid`.
    pub open spec fn has_user_id(self, uid: int) -> bool {
        has_user_with_id(self.users, uid)
    }
}

/// A failed store operation. Absence of a row is a distinct, expected
/// outcome; a write that would break the store's invariant is rejected.
#[derive(PartialEq, Eq, Structural, Clone, Copy, Debug)]
pub enum StoreError {
    /// No user row satisfies the query.
    UserNotFound,
    /// The username is already taken (case-insensitively).
    UsernameTaken,
    /// No session row satisfies the query.
    SessionNotFound,
    /// Another session row already carries the fingerprint.
    FingerprintTaken,
}

/// The store of users and active sessions.
pub struct SessionStore {
    users: Vec<User>,
    sessions: Vec<Session>,
    next_user_id: i64,
    next_session_id: i64,
}

impl View for SessionStore {
    type V = StoreModel;

    closed spec fn view(&self) -> StoreModel {
        StoreModel {
            users: self.users@.map_values(|u: User| u@),
            sessions: self.sessions@.map_values(|s: Session| s@),
            next_user_id: self.next_user_id as int,
            next_session_id: self.next_session_id as int,
        }
    }
}

impl SessionStore {
    /// The store's invariant, over its model.
    pub open spec fn wf(&self) -> bool {
        self@.wf()
    }

    /// An empty store.
    pub fn new() -> (s: Self)
        ensures
            s.wf(),
            s@.users =~= Seq::<UserModel>::empty(),
            s@.sessions =~= Seq::<SessionModel>::empty(),
            s@.next_user_id == 1,
            s@.next_session_id == 1,
    {
        SessionStore {
            users: Vec::new(),
            sessions: Vec::new(),
            next_user_id: 1,
            next_session_id: 1,
        }
    }

    /// The number of stored user rows.
    pub fn user_count(&self) -> (n: usize)
        ensures
            n == self@.users.len(),
    {
        self.users.len()
    }

    /// The number of stored session rows.
    pub fn session_count(&self) -> (n: usize)
        ensures
            n == self@.sessions.len(),
    {
        self.sessions.len()
    }

    /// Inserts a new user row with a fresh id, unless the username is
    /// already taken (case-insensitively).
    pub fn insert_user(&mut self, username: &str, password_hash: &str, now: i64) -> (r: Result<
        User,
        StoreError,
    >)
        requires
            old(self).wf(),
            now >= 0,
            old(self)@.next_user_id < i64::MAX,
        ensures
            final(self).wf(),
            r is Ok <==> !old(self)@.has_username(username@),
            match r {
                Ok(u) => {
                    &&& u@ == (UserModel {
                        id: old(self)@.next_user_id,
                        username: username@,
                        password: password_hash@,
                        created_at: now as int,
                    })
                    &&& final(self)@.users =~= old(self)@.users.push(u@)
                    &&& final(self)@.sessions == old(self)@.sessions
                    &&& final(self)@.next_user_id == old(self)@.next_user_id + 1
                    &&& final(self)@.next_session_id == old(self)@.next_session_id
                },
                Err(e) => {
                    &&& e == StoreError::UsernameTaken
                    &&& final(self)@ == old(self)@
                },
            },
    {
        let ghost pre = self@;
        let n = self.users.len();
        let mut i: usize = 0;
        while i < n
            invariant
                pre.wf(),
                n == self.users.len(),
                i <= n,
                self@ == pre,
                forall|j: int|
                    0 <= j < i ==> !eq_ignore_case(#[trigger] pre.users[j].username, username@),
            decreases n - i,
        {
            assert(pre.users[i as int] == self.users@[i as int]@);
            if str_eq_ignore_ascii_case(self.users[i].username.as_str(), username) {
                assert(eq_ignore_case(pre.users[i as int].username, username@));
                assert(pre.has_username(username@));
                return Err(StoreError::UsernameTaken);
            }
            i += 1;
        }
        assert(!pre.has_username(username@));
        let user = User {
            id: self.next_user_id,
            username: username.to_owned(),
            password: password_hash.to_owned(),
            created_at: now,
        };
        let result = user.clone();
        self.users.push(user);
        self.next_user_id = self.next_user_id + 1;
        proof {
            assert(self@.users =~= pre.users.push(result@));
            assert forall|a: int, b: int|
                0 <= a < b < self@.users.len() implies !eq_ignore_case(
                self@.users[a].username,
                self@.users[b].username,
            ) by {
                if b < pre.users.len() {
                } else {
                    assert(self@.users[b] == result@);
                }
            }
            assert forall|i2: int| 0 <= i2 < self@.sessions.len() implies has_user_with_id(
                self@.users,
                #[trigger] self@.sessions[i2].user_id,
            ) by {
                assert(has_user_with_id(pre.users, pre.sessions[i2].user_id));
                let w = choose|j: int|
                    0 <= j < pre.users.len() && pre.users[j].id == pre.sessions[i2].user_id;
                assert(self@.users[w].id == self@.sessions[i2].user_id);
            }
        }
        Ok(result)
    }

    /// Looks a user up by username, case-insensitively.
    pub fn find_user(&self, username: &str) -> (r: Option<User>)
        requires
            self.wf(),
        ensures
            r is Some <==> self@.has_username(username@),
            match r {
                Some(u) => exists|i: int|
                    0 <= i < self@.users.len() && #[trigger] self@.users[i] == u@ && eq_ignore_case(
                        u@.username,
                        username@,
                    ),
                None => true,
            },
    {
        let n = self.users.len();
        let mut i: usize = 0;
        while i < n
            invariant
                self.wf(),
                n == self.users.len(),
                i <= n,
                forall|j: int|
                    0 <= j < i ==> !eq_ignore_case(#[trigger] self@.users[j].username, username@),
            decreases n - i,
        {
            assert(self@.users[i as int] == self.users@[i as int]@);
            if str_eq_ignore_ascii_case(self.users[i].username.as_str(), username) {
                let u = self.users[i].clone();
                assert(eq_ignore_case(self@.users[i as int].username, username@));
                assert(self@.users[i as int] == u@);
                return Some(u);
            }
            i += 1;
        }
        None
    }

    /// Looks a user up by id.
    pub fn find_user_by_id(&self, uid: i64) -> (r: Option<User>)
        requires
            self.wf(),
        ensures
            r is Some <==> self@.has_user_id(uid as int),
            match r {
                Some(u) => exists|i: int|
                    0 <= i < self@.users.len() && #[trigger] self@.users[i] == u@ && u@.id
                        == uid as int,
                None => true,
            },
    {
        let n = self.users.len();
        let mut i: usize = 0;
        while i < n
            invariant
                self.wf(),
                n == self.users.len(),
                i <= n,
                forall|j: int| 0 <= j < i ==> #[trigger] self@.users[j].id != uid as int,
            decreases n - i,
        {
            assert(self@.users[i as int] == self.users@[i as int]@);
            if self.users[i].id == uid {
                let u = self.users[i].clone();
                assert(self@.users[i as int] == u@);
                return Some(u);
            }
            i += 1;
        }
        None
    }

    /// Inserts a new session row for `user_id` with a fresh id, fingerprint
    /// `fingerprint`, creation instant `now` and expiry `expires_at`.
    /// Rejected if the user does not exist or another row already carries
    /// the fingerprint, leaving the store unchanged.
    pub fn insert_session(
        &mut self,
        user_id: i64,
        fingerprint: Vec<u8>,
        now: i64,
        expires_at: i64,
    ) -> (r: Result<Session, StoreError>)
        requires
            old(self).wf(),
            now >= 0,
            expires_at >= 0,
            old(self)@.next_session_id < i64::MAX,
        ensures
            final(self).wf(),
            r is Ok <==> old(self)@.has_user_id(user_id as int) && !old(
                self,
            )@.contains_fingerprint(fingerprint@),
            match r {
                Ok(s) => {
                    &&& s@ == (SessionModel {
                        id: old(self)@.next_session_id,
                        user_id: user_id as int,
                        fingerprint: fingerprint@,
                        created_at: now as int,
                        modified_at: None,
                        expires_at: expires_at as int,
                    })
                    &&& final(self)@.sessions =~= old(self)@.sessions.push(s@)
                    &&& final(self)@.users == old(self)@.users
                    &&& final(self)@.next_session_id == old(self)@.next_session_id + 1
                    &&& final(self)@.next_user_id == old(self)@.next_user_id
                },
                Err(e) => {
                    &&& final(self)@ == old(self)@
                    &&& e == StoreError::UserNotFound <==> !old(self)@.has_user_id(user_id as int)
                    &&& e == StoreError::FingerprintTaken <==> old(self)@.has_user_id(
                        user_id as int,
                    ) && old(self)@.contains_fingerprint(fingerprint@)
                },
            },
    {
        let ghost pre = self@;
        if self.find_user_by_id(user_id).is_none() {
            return Err(StoreError::UserNotFound);
        }
        let n = self.sessions.len();
        let mut i: usize = 0;
        while i < n
            invariant
                pre.wf(),
                pre.has_user_id(user_id as int),
                n == self.sessions.len(),
                i <= n,
                self@ == pre,
                forall|j: int| 0 <= j < i ==> #[trigger] pre.sessions[j].fingerprint != fingerprint@,
            decreases n - i,
        {
            assert(pre.sessions[i as int] == self.sessions@[i as int]@);
            if bytes_equal(&self.sessions[i].session_id, &fingerprint) {
                assert(pre.sessions[i as int].fingerprint == fingerprint@);
                assert(pre.contains_fingerprint(fingerprint@));
                return Err(StoreError::FingerprintTaken);
            }
            i += 1;
        }
        assert(!pre.contains_fingerprint(fingerprint@));
        let session = Session {
            id: self.next_session_id,
            user_id,
            session_id: fingerprint,
            created_at: now,
            modified_at: None,
            expires_at,
        };
        let result = session.clone();
        self.sessions.push(session);
        self.next_session_id = self.next_session_id + 1;
        proof {
            assert(self@.sessions =~= pre.sessions.push(result@));
            let post = self@;
            assert forall|a: int, b: int|
                0 <= a < b < post.sessions.len() implies post.sessions[a].fingerprint
                != post.sessions[b].fingerprint by {
                if b == post.sessions.len() - 1 {
                    assert(pre.sessions[a].fingerprint != fingerprint@);
                }
            }
            assert forall|i2: int| 0 <= i2 < post.sessions.len() implies has_user_with_id(
                post.users,
                #[trigger] post.sessions[i2].user_id,
            ) by {
                if i2 < pre.sessions.len() {
                    assert(has_user_with_id(pre.users, pre.sessions[i2].user_id));
                } else {
                    assert(pre.has_user_id(user_id as int));
                }
            }
        }
        Ok(result)
    }

    /// The index of the session row keyed `pk`, if any.
    fn session_index(&self, pk: i64) -> (r: Option<usize>)
        ensures
            match r {
                Some(i) => 0 <= i < self@.sessions.len() && self@.sessions[i as int].id == pk as int,
                None => !self@.has_session_id(pk as int),
            },
    {
        let n = self.sessions.len();
        let mut i: usize = 0;
        while i < n
            invariant
                n == self.sessions.len(),
                i <= n,
                forall|j: int| 0 <= j < i ==> #[trigger] self@.sessions[j].id != pk as int,
            decreases n - i,
        {
            assert(self@.sessions[i as int] == self.sessions@[i as int]@);
            if self.sessions[i].id == pk {
                return Some(i);
            }
            i += 1;
        }
        None
    }

    /// Rotates the session row keyed `session_pk` in place: the row keeps
    /// its id, owner and creation instant, takes fingerprint
    /// `new_fingerprint`, records the renewal at `now`, and extends its
    /// expiry to `expires_at`. Rejected, leaving the store unchanged, if no
    /// row has that id or another row already carries the fingerprint: the
    /// rotation is written atomically or not at all.
    pub fn rotate_session(
        &mut self,
        session_pk: i64,
        new_fingerprint: Vec<u8>,
        now: i64,
        expires_at: i64,
    ) -> (r: Result<(), StoreError>)
        requires
            old(self).wf(),
            now >= 0,
            expires_at >= 0,
        ensures
            final(self).wf(),
            r is Ok <==> old(self)@.has_session_id(session_pk as int) && !old(
                self,
            )@.fingerprint_elsewhere(new_fingerprint@, session_pk as int),
            match r {
                Ok(_) => exists|i: int|
                    {
                        &&& 0 <= i < old(self)@.sessions.len()
                        &&& #[trigger] old(self)@.sessions[i].id == session_pk as int
                        &&& final(self)@.sessions =~= old(self)@.sessions.update(
                            i,
                            SessionModel {
                                id: session_pk as int,
                                user_id: old(self)@.sessions[i].user_id,
                                fingerprint: new_fingerprint@,
                                created_at: old(self)@.sessions[i].created_at,
                                modified_at: Some(now as int),
                                expires_at: expires_at as int,
                            },
                        )
                        &&& final(self)@.users == old(self)@.users
                        &&& final(self)@.next_user_id == old(self)@.next_user_id
                        &&& final(self)@.next_session_id == old(self)@.next_session_id
                    },
                Err(e) => {
                    &&& final(self)@ == old(self)@
                    &&& e == StoreError::SessionNotFound <==> !old(self)@.has_session_id(
                        session_pk as int,
                    )
                    &&& e == StoreError::FingerprintTaken <==> old(self)@.has_session_id(
                        session_pk as int,
                    ) && old(self)@.fingerprint_elsewhere(new_fingerprint@, session_pk as int)
                },
            },
    {
        let ghost pre = self@;
        let n = self.sessions.len();

        // Find the row to rotate.
        let idx = match self.session_index(session_pk) {
            Some(i) => i,
            None => {
                return Err(StoreError::SessionNotFound);
            },
        };

        // Refuse a fingerprint already carried by another row.
        let mut j: usize = 0;
        while j < n
            invariant
                pre.wf(),
                n == self.sessions.len(),
                self@ == pre,
                j <= n,
                idx < n,
                pre.sessions[idx as int].id == session_pk as int,
                forall|k: int|
                    0 <= k < j ==> !(#[trigger] pre.sessions[k].fingerprint == new_fingerprint@
                        && pre.sessions[k].id != session_pk as int),
            decreases n - j,
        {
            assert(pre.sessions[j as int] == self.sessions@[j as int]@);
            if self.sessions[j].id != session_pk && bytes_equal(
                &self.sessions[j].session_id,
                &new_fingerprint,
            ) {
                assert(pre.fingerprint_elsewhere(new_fingerprint@, session_pk as int));
                assert(pre.has_session_id(session_pk as int));
                return Err(StoreError::FingerprintTaken);
            }
            j += 1;
        }
        assert(!pre.fingerprint_elsewhere(new_fingerprint@, session_pk as int));
        assert(pre.has_session_id(session_pk as int));

        let rotated = Session {
            id: session_pk,
            user_id: self.sessions[idx].user_id,
            session_id: new_fingerprint,
            created_at: self.sessions[idx].created_at,
            modified_at: Some(now),
            expires_at,
        };
        let ghost rotated_model = rotated@;
        self.sessions.set(idx, rotated);
        proof {
            let post = self@;
            assert(post.sessions =~= pre.sessions.update(idx as int, rotated_model));
            assert forall|a: int, b: int|
                0 <= a < b < post.sessions.len() implies post.sessions[a].fingerprint
                != post.sessions[b].fingerprint by {
                if a != idx as int && b != idx as int {
                    assert(pre.sessions[a].fingerprint != pre.sessions[b].fingerprint);
                } else if a == idx as int {
                    assert(pre.sessions[b].id != session_pk as int);
                } else {
                    assert(pre.sessions[a].id != session_pk as int);
                }
            }
            assert forall|i2: int| 0 <= i2 < post.sessions.len() implies has_user_with_id(
                post.users,
                #[trigger] post.sessions[i2].user_id,
            ) by {
                assert(has_user_with_id(pre.users, pre.sessions[i2].user_id));
            }
        }
        Ok(())
    }

    /// Replaces the stored password hash of the user with id `uid`. Every
    /// other field of every row is untouched.
    #[verifier::loop_isolation(false)]
    pub fn update_password(&mut self, uid: i64, new_hash: &str) -> (r: Result<(), StoreError>)
        requires
            old(self).wf(),
        ensures
            final(self).wf(),
            r is Ok <==> old(self)@.has_user_id(uid as int),
            match r {
                Ok(_) => exists|i: int|
                    {
                        &&& 0 <= i < old(self)@.users.len()
                        &&& #[trigger] old(self)@.users[i].id == uid as int
                        &&& final(self)@.users =~= old(self)@.users.update(
                            i,
                            UserModel {
                                id: uid as int,
                                username: old(self)@.users[i].username,
                                password: new_hash@,
                                created_at: old(self)@.users[i].created_at,
                            },
                        )
                        &&& final(self)@.sessions == old(self)@.sessions
                        &&& final(self)@.next_user_id == old(self)@.next_user_id
                        &&& final(self)@.next_session_id == old(self)@.next_session_id
                    },
                Err(e) => {
                    &&& final(self)@ == old(self)@
                    &&& e == StoreError::UserNotFound
                },
            },
    {
        let ghost pre = self@;
        let n = self.users.len();
        let mut i: usize = 0;
        while i < n
            invariant
                pre.wf(),
                n == self.users.len(),
                self@ == pre,
                i <= n,
                forall|j: int| 0 <= j < i ==> #[trigger] pre.users[j].id != uid as int,
            decreases n - i,
        {
            assert(pre.users[i as int] == self.users@[i as int]@);
            if self.users[i].id == uid {
                assert(pre.users[i as int].id == uid as int);
                assert(pre.has_user_id(uid as int));
                let updated = User {
                    id: uid,
                    username: self.users[i].username.clone(),
                    password: new_hash.to_owned(),
                    created_at: self.users[i].created_at,
                };
                let ghost updated_model = updated@;
                self.users.set(i, updated);
                proof {
                    let post = self@;
                    assert(post.users =~= pre.users.update(i as int, updated_model));
                    assert forall|k: int| 0 <= k < post.users.len() implies (
                    #[trigger] post.users[k]).id == pre.users[k].id && post.users[k].username
                        == pre.users[k].username && post.users[k].created_at
                        == pre.users[k].created_at by {
                        if k == i as int {
                            assert(updated_model.id == pre.users[k].id);
                        }
                    }
                    assert forall|a: int, b: int| 0 <= a < b < post.users.len() implies (
                    #[trigger] post.users[a]).id != (#[trigger] post.users[b]).id by {
                        assert(pre.users[a].id != pre.users[b].id);
                    }
                    assert forall|a: int, b: int|
                        0 <= a < b < post.users.len() implies !eq_ignore_case(
                        (#[trigger] post.users[a]).username,
                        (#[trigger] post.users[b]).username,
                    ) by {
                        assert(!eq_ignore_case(pre.users[a].username, pre.users[b].username));
                    }
                    assert forall|i2: int| 0 <= i2 < post.sessions.len() implies has_user_with_id(
                        post.users,
                        #[trigger] post.sessions[i2].user_id,
                    ) by {
                        assert(has_user_with_id(pre.users, pre.sessions[i2].user_id));
                        let w = choose|k: int|
                            0 <= k < pre.users.len() && pre.users[k].id == pre.sessions[i2].user_id;
                        assert(post.users[w].id == post.sessions[i2].user_id);
                    }
                }
                return Ok(());
            }
            i += 1;
        }
        assert(!pre.has_user_id(uid as int));
        Err(StoreError::UserNotFound)
    }

    /// Looks up the session carrying fingerprint `fp`, joined with its
    /// owning user, excluding rows that no longer authenticate at `now`.
    /// Not-found is a normal outcome, not an error.
    pub fn find_session(&self, fp: &Vec<u8>, now: i64) -> (r: Option<(User, Session)>)
        requires
            self.wf(),
        ensures
            r is Some <==> self@.has_live_fingerprint(fp@, now as int),
            match r {
                Some(pair) => {
                    &&& exists|i: int|
                        0 <= i < self@.sessions.len() && #[trigger] self@.sessions[i] == pair.1@
                    &&& pair.1@.fingerprint == fp@
                    &&& pair.1@.is_live(now as int)
                    &&& pair.0@.id == pair.1@.user_id
                    &&& exists|j: int|
                        0 <= j < self@.users.len() && #[trigger] self@.users[j] == pair.0@
                },
                None => true,
            },
    {
        let n = self.sessions.len();
        let mut i: usize = 0;
        while i < n
            invariant
                self.wf(),
                n == self.sessions.len(),
                i <= n,
                forall|j: int|
                    0 <= j < i ==> !(#[trigger] self@.sessions[j].fingerprint == fp@
                        && self@.sessions[j].is_live(now as int)),
            decreases n - i,
        {
            assert(self@.sessions[i as int] == self.sessions@[i as int]@);
            if bytes_equal(&self.sessions[i].session_id, fp) && self.sessions[i].expires_at > now {
                assert(self@.sessions[i as int].fingerprint == fp@);
                assert(self@.sessions[i as int].is_live(now as int));
                let session = self.sessions[i].clone();
                assert(self@.sessions[i as int] == session@);
                match self.find_user_by_id(session.user_id) {
                    Some(user) => {
                        return Some((user, session));
                    },
                    None => {
                        proof {
                            assert(has_user_with_id(self@.users, self@.sessions[i as int].user_id));
                        }
                        assert(false);
                        unreached()
                    },
                }
            }
            i += 1;
        }
        None
    }

    /// Deletes the session row keyed `session_pk`, if present: explicit
    /// logout.
    #[verifier::loop_isolation(false)]
    pub fn delete_session(&mut self, session_pk: i64)
        requires
            old(self).wf(),
        ensures
            final(self).wf(),
            final(self)@.sessions == old(self)@.sessions.filter(
                |m: SessionModel| m.id != session_pk as int,
            ),
            final(self)@.users == old(self)@.users,
            final(self)@.next_user_id == old(self)@.next_user_id,
            final(self)@.next_session_id == old(self)@.next_session_id,
    {
        let ghost pre = self@;
        let ghost keepf = |m: SessionModel| m.id != session_pk as int;
        let mut kept: Vec<Session> = Vec::new();
        let n = self.sessions.len();
        let mut i: usize = 0;
        while i < n
            invariant
                i <= n,
                kept@.map_values(|s: Session| s@) =~= pre.sessions.subrange(0, i as int).filter(
                    keepf,
                ),
            decreases n - i,
        {
            let ghost prefix = pre.sessions.subrange(0, i as int);
            proof {
                assert(pre.sessions.subrange(0, i as int + 1) =~= prefix.push(
                    pre.sessions[i as int],
                ));
                prefix.lemma_filter_push(pre.sessions[i as int], keepf);
                assert(pre.sessions[i as int] == self.sessions@[i as int]@);
            }
            if self.sessions[i].id != session_pk {
                let s = self.sessions[i].clone();
                kept.push(s);
            }
            proof {
                assert(kept@.map_values(|s: Session| s@) =~= pre.sessions.subrange(
                    0,
                    i as int + 1,
                ).filter(keepf));
            }
            i += 1;
        }
        proof {
            assert(pre.sessions.subrange(0, n as int) =~= pre.sessions);
        }
        self.sessions = kept;
        proof {
            lemma_retain_wf(pre, self@, keepf);
        }
    }

    /// Deletes every session row owned by `user_id`, forcing that user to
    /// re-authenticate everywhere: runs when the user's password changes.
    #[verifier::loop_isolation(false)]
    pub fn delete_sessions_for_user(&mut self, user_id: i64)
        requires
            old(self).wf(),
        ensures
            final(self).wf(),
            final(self)@.sessions == old(self)@.sessions.filter(
                |m: SessionModel| m.user_id != user_id as int,
            ),
            final(self)@.users == old(self)@.users,
            final(self)@.next_user_id == old(self)@.next_user_id,
            final(self)@.next_session_id == old(self)@.next_session_id,
    {
        let ghost pre = self@;
        let ghost keepf = |m: SessionModel| m.user_id != user_id as int;
        let mut kept: Vec<Session> = Vec::new();
        let n = self.sessions.len();
        let mut i: usize = 0;
        while i < n
            invariant
                i <= n,
                kept@.map_values(|s: Session| s@) =~= pre.sessions.subrange(0, i as int).filter(
                    keepf,
                ),
            decreases n - i,
        {
            let ghost prefix = pre.sessions.subrange(0, i as int);
            proof {
                assert(pre.sessions.subrange(0, i as int + 1) =~= prefix.push(
                    pre.sessions[i as int],
                ));
                prefix.lemma_filter_push(pre.sessions[i as int], keepf);
                assert(pre.sessions[i as int] == self.sessions@[i as int]@);
            }
            if self.sessions[i].user_id != user_id {
                let s = self.sessions[i].clone();
                kept.push(s);
            }
            proof {
                assert(kept@.map_values(|s: Session| s@) =~= pre.sessions.subrange(
                    0,
                    i as int + 1,
                ).filter(keepf));
            }
            i += 1;
        }
        proof {
            assert(pre.sessions.subrange(0, n as int) =~= pre.sessions);
        }
        self.sessions = kept;
        proof {
            lemma_retain_wf(pre, self@, keepf);
        }
    }

    /// Deletes every session row whose `expires_at` has passed by `now`, and
    /// reports how many were deleted: the purger's sweep. Rows not yet
    /// expired are untouched.
    #[verifier::loop_isolation(false)]
    pub fn purge_expired(&mut self, now: i64) -> (count: usize)
        requires
            old(self).wf(),
        ensures
            final(self).wf(),
            final(self)@.sessions == old(self)@.sessions.filter(
                |m: SessionModel| !(m.expires_at < now as int),
            ),
            count == old(self)@.sessions.filter(|m: SessionModel| m.expires_at < now as int).len(),
            final(self)@.users == old(self)@.users,
            final(self)@.next_user_id == old(self)@.next_user_id,
            final(self)@.next_session_id == old(self)@.next_session_id,
    {
        let ghost pre = self@;
        let ghost keepf = |m: SessionModel| !(m.expires_at < now as int);
        let ghost dropf = |m: SessionModel| m.expires_at < now as int;
        let mut kept: Vec<Session> = Vec::new();
        let mut removed: usize = 0;
        let n = self.sessions.len();
        let mut i: usize = 0;
        while i < n
            invariant
                i <= n,
                kept@.map_values(|s: Session| s@) =~= pre.sessions.subrange(0, i as int).filter(
                    keepf,
                ),
                removed == pre.sessions.subrange(0, i as int).filter(dropf).len(),
                kept@.len() + removed == i,
            decreases n - i,
        {
            let ghost prefix = pre.sessions.subrange(0, i as int);
            proof {
                assert(pre.sessions.subrange(0, i as int + 1) =~= prefix.push(
                    pre.sessions[i as int],
                ));
                prefix.lemma_filter_push(pre.sessions[i as int], keepf);
                prefix.lemma_filter_push(pre.sessions[i as int], dropf);
                assert(pre.sessions[i as int] == self.sessions@[i as int]@);
            }
            if !(self.sessions[i].expires_at < now) {
                let s = self.sessions[i].clone();
                kept.push(s);
            } else {
                removed += 1;
            }
            proof {
                assert(kept@.map_values(|s: Session| s@) =~= pre.sessions.subrange(
                    0,
                    i as int + 1,
                ).filter(keepf));
            }
            i += 1;
        }
        proof {
            assert(pre.sessions.subrange(0, n as int) =~= pre.sessions);
        }
        self.sessions = kept;
        proof {
            lemma_retain_wf(pre, self@, keepf);
        }
        removed
    }
}

/// Every element of a filtered sequence stands somewhere in the unfiltered
/// one, and any two of its positions come from two positions of the
/// unfiltered sequence in the same order.
proof fn lemma_filter_witnesses(s: Seq<SessionModel>, pred: spec_fn(SessionModel) -> bool)
    ensures
        forall|k: int|
            0 <= k < s.filter(pred).len() ==> exists|i: int|
                0 <= i < s.len() && s[i] == #[trigger] s.filter(pred)[k],
        forall|a: int, b: int|
            #![trigger s.filter(pred)[a], s.filter(pred)[b]]
            0 <= a < b < s.filter(pred).len() ==> exists|i: int, j: int|
                0 <= i < j < s.len() && s[i] == s.filter(pred)[a] && s[j] == s.filter(pred)[b],
    decreases s.len(),
{
    reveal(Seq::filter);
    if s.len() == 0 {
    } else {
        let d = s.drop_last();
        let last = s.last();
        lemma_filter_witnesses(d, pred);
        let f = s.filter(pred);
        let fd = d.filter(pred);
        assert(f == if pred(last) {
            fd.push(last)
        } else {
            fd
        });
        assert forall|k: int| 0 <= k < f.len() implies exists|i: int|
            0 <= i < s.len() && s[i] == #[trigger] f[k] by {
            if k < fd.len() {
                assert(f[k] == fd[k]);
                let i = choose|i: int| 0 <= i < d.len() && d[i] == fd[k];
                assert(s[i] == f[k]);
            } else {
                assert(f[k] == last);
                assert(s[s.len() - 1] == f[k]);
            }
        }
        assert forall|a: int, b: int|
            0 <= a < b < f.len() implies exists|i: int, j: int|
            0 <= i < j < s.len() && s[i] == #[trigger] f[a] && s[j] == #[trigger] f[b] by {
            if b < fd.len() {
                assert(f[a] == fd[a] && f[b] == fd[b]);
                let (i, j) = choose|i: int, j: int|
                    0 <= i < j < d.len() && d[i] == fd[a] && d[j] == fd[b];
                assert(s[i] == f[a] && s[j] == f[b]);
            } else {
                assert(f[b] == last);
                assert(f[a] == fd[a]);
                let i = choose|i: int| 0 <= i < d.len() && d[i] == fd[a];
                assert(s[i] == f[a] && s[s.len() - 1] == f[b]);
            }
        }
    }
}

/// Dropping session rows by any predicate preserves the store's invariant:
/// the surviving rows keep their distinct ids and fingerprints, their
/// owners, and their bounds.
proof fn lemma_retain_wf(pre: StoreModel, post: StoreModel, pred: spec_fn(SessionModel) -> bool)
    requires
        pre.wf(),
        post.users == pre.users,
        post.next_user_id == pre.next_user_id,
        post.next_session_id == pre.next_session_id,
        post.sessions == pre.sessions.filter(pred),
    ensures
        post.wf(),
{
    lemma_filter_witnesses(pre.sessions, pred);
    let f = pre.sessions.filter(pred);
    assert forall|a: int, b: int|
        0 <= a < b < f.len() implies #[trigger] f[a].id != #[trigger] f[b].id && f[a].fingerprint
        != f[b].fingerprint by {
        let (i, j) = choose|i: int, j: int|
            0 <= i < j < pre.sessions.len() && pre.sessions[i] == f[a] && pre.sessions[j] == f[b];
        assert(pre.sessions[i].id != pre.sessions[j].id);
        assert(pre.sessions[i].fingerprint != pre.sessions[j].fingerprint);
    }
    assert forall|k: int|
        0 <= k < f.len() implies has_user_with_id(post.users, (#[trigger] f[k]).user_id) && 0
        <= f[k].id < post.next_session_id && f[k].timestamps_wf() by {
        let i = choose|i: int| 0 <= i < pre.sessions.len() && pre.sessions[i] == f[k];
        assert(has_user_with_id(pre.users, pre.sessions[i].user_id));
        assert(pre.sessions[i].timestamps_wf());
    }
}

/// Whether two byte vectors hold the same bytes.
fn bytes_equal(a: &Vec<u8>, b: &Vec<u8>) -> (r: bool)
    ensures
        r == (a@ == b@),
{
    if a.len() != b.len() {
        return false;
    }
    let n = a.len();
    let mut i: usize = 0;
    while i < n
        invariant
            n == a@.len(),
            n == b@.len(),
            i <= n,
            forall|j: int| 0 <= j < i ==> a@[j] == b@[j],
        decreases n - i,
    {
        if a[i] != b[i] {
            return false;
        }
        i += 1;
    }
    proof {
        assert(a@ =~= b@);
    }
    true
}

/// Changing a user's password deletes all of that user's sessions: a
/// fingerprint one of the user's sessions carried matches no stored row
/// afterwards, so a request bearing that cookie resolves to the anonymous
/// outcome, at any instant.
pub proof fn lemma_password_change_invalidates_sessions(
    pre: StoreModel,
    post: StoreModel,
    uid: int,
    fp: Seq<u8>,
    now: int,
)
    requires
        pre.wf(),
        post.sessions == pre.sessions.filter(|m: SessionModel| m.user_id != uid),
        exists|i: int|
            0 <= i < pre.sessions.len() && (#[trigger] pre.sessions[i]).fingerprint == fp
                && pre.sessions[i].user_id == uid,
    ensures
        !post.contains_fingerprint(fp),
        !post.has_live_fingerprint(fp, now),
{
    let pred = |m: SessionModel| m.user_id != uid;
    lemma_filter_witnesses(pre.sessions, pred);
    let f = pre.sessions.filter(pred);
    let i0 = choose|i: int|
        0 <= i < pre.sessions.len() && (#[trigger] pre.sessions[i]).fingerprint == fp
            && pre.sessions[i].user_id == uid;
    assert forall|k: int| 0 <= k < f.len() implies (#[trigger] f[k]).fingerprint != fp by {
        pre.sessions.lemma_filter_pred(pred, k);
        let w = choose|w: int| 0 <= w < pre.sessions.len() && pre.sessions[w] == f[k];
        if pre.sessions[w].fingerprint == fp {
            if w < i0 {
                assert(pre.sessions[w].fingerprint != pre.sessions[i0].fingerprint);
            } else if i0 < w {
                assert(pre.sessions[i0].fingerprint != pre.sessions[w].fingerprint);
            } else {
                assert(f[k].user_id == uid);
            }
        }
    }
}

/// A purge sweep partitions the session table: the expired rows it deletes
/// and the live rows it leaves untouched together account for every row.
pub proof fn lemma_purge_partitions(sessions: Seq<SessionModel>, now: int)
    ensures
        sessions.filter(|m: SessionModel| !(m.expires_at < now)).len() + sessions.filter(
            |m: SessionModel| m.expires_at < now,
        ).len() == sessions.len(),
    decreases sessions.len(),
{
    reveal(Seq::filter);
    if sessions.len() == 0 {
    } else {
        lemma_purge_partitions(sessions.drop_last(), now);
    }
}

} // verus!

