//! The persistent records: sessions and users.
//!
//! Each record has a mathematical model (`SessionModel`, `UserModel`) that the
//! store's and managers' contracts speak of; the executable structs carry the
//! same data in machine types.

use vstd::prelude::*;

use crate::util::{verify_password, VerifyOutcome};

verus! {

/// The mathematical model of a stored session row.
pub struct SessionModel {
    /// Server-assigned primary key, never exposed to clients.
    pub id: int,
    /// The owning user's id.
    pub user_id: int,
    /// SHA-256 fingerprint of the random token sent to the client; the raw
    /// token is never stored.
    pub fingerprint: Seq<u8>,
    /// Set once at insertion.
    pub created_at: int,
    /// Set on every renewal; `None` until the first renewal.
    pub modified_at: Option<int>,
    /// The session no longer authenticates once `now >= expires_at`.
    pub expires_at: int,
}

impl SessionModel {
    /// The time the session was last touched, deciding renewal eligibility.
    pub open spec fn last_activity(self) -> int {
        match self.modified_at {
            Some(t) => t,
            None => self.created_at,
        }
    }

    /// Timestamps are non-negative instants; every constructor of the store
    /// maintains this.
    pub open spec fn timestamps_wf(self) -> bool {
        &&& self.created_at >= 0
        &&& match self.modified_at {
            Some(t) => t >= 0,
            None => true,
        }
        &&& self.expires_at >= 0
    }

    /// Whether the session still authenticates at instant `now`.
    pub open spec fn is_live(self, now: int) -> bool {
        self.expires_at > now
    }
}

/// A stored session row.
#[derive(Debug)]
pub struct Session {
    pub id: i64,
    pub user_id: i64,
    pub session_id: Vec<u8>,
    pub created_at: i64,
    pub modified_at: Option<i64>,
    pub expires_at: i64,
}

impl View for Session {
    type V = SessionModel;

    open spec fn view(&self) -> SessionModel {
        SessionModel {
            id: self.id as int,
            user_id: self.user_id as int,
            fingerprint: self.session_id@,
            created_at: self.created_at as int,
            modified_at: match self.modified_at {
                Some(t) => Some(t as int),
                None => None,
            },
            expires_at: self.expires_at as int,
        }
    }
}

impl Clone for Session {
    fn clone(&self) -> (res: Self)
        ensures
            res@ == self@,
    {
        let res = Session {
            id: self.id,
            user_id: self.user_id,
            session_id: self.session_id.clone(),
            created_at: self.created_at,
            modified_at: self.modified_at,
            expires_at: self.expires_at,
        };
        proof {
            assert(res.session_id@ =~= self.session_id@);
            assert(res@ =~= self@);
        }
        res
    }
}

impl Session {
    /// The instant of the last renewal, or of creation if never renewed.
    pub fn last_modify(&self) -> (r: i64)
        ensures
            r == self@.last_activity(),
    {
        match self.modified_at {
            Some(date_time) => date_time,
            None => self.created_at,
        }
    }

    /// Seconds elapsed at `now` since the last renewal or creation.
    /// Negative if the clock moved backwards past that instant.
    pub fn since_last_modify(&self, now: i64) -> (r: i64)
        requires
            now >= 0,
            self@.timestamps_wf(),
        ensures
            r == now - self@.last_activity(),
    {
        now - self.last_modify()
    }
}

/// The mathematical model of a stored user row.
pub struct UserModel {
    pub id: int,
    /// Case-insensitively unique among stored users.
    pub username: Seq<char>,
    /// PHC-format password hash.
    pub password: Seq<char>,
    pub created_at: int,
}

/// A stored user row. The core reads it for credential verification and
/// rewrites only the password hash, during a password change.
#[derive(Debug)]
pub struct User {
    pub id: i64,
    pub username: String,
    pub password: String,
    pub created_at: i64,
}

impl View for User {
    type V = UserModel;

    open spec fn view(&self) -> UserModel {
        UserModel {
            id: self.id as int,
            username: self.username@,
            password: self.password@,
            created_at: self.created_at as int,
        }
    }
}

impl Clone for User {
    fn clone(&self) -> (res: Self)
        ensures
            res@ == self@,
    {
        User {
            id: self.id,
            username: self.username.clone(),
            password: self.password.clone(),
            created_at: self.created_at,
        }
    }
}

impl User {
    /// Checks `password` against this user's stored hash.
    pub fn verify_password(&self, password: &str) -> (r: VerifyOutcome)
        ensures
            r == (if !crate::util::phc_parses(self@.password) {
                VerifyOutcome::Malformed
            } else if crate::util::password_matches(password@, self@.password) {
                VerifyOutcome::Success
            } else {
                VerifyOutcome::Mismatch
            }),
    {
        verify_password(password, self.password.as_str())
    }
}

} // verus!
