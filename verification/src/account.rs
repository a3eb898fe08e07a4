//! Account maintenance: the password-change flow.

use vstd::prelude::*;

use crate::models::{SessionModel, User, UserModel};
use crate::store::SessionStore;
use crate::util::{hash_password, password_matches, phc_parses, VerifyOutcome};

verus! {

/// The outcome of a password-change request.
#[derive(PartialEq, Eq, Structural, Clone, Copy, Debug)]
pub enum EditOutcome {
    /// The current password did not verify against the stored hash.
    PasswordIncorrect,
    /// The new password and its confirmation differ.
    PasswordsDontMatch,
    /// The new password could not be hashed: an internal fault.
    GenericError,
    /// The password was changed, and every session of the user was deleted
    /// to force re-authentication everywhere.
    SessionInvalidated,
}

/// The password-change flow for the authenticated user `user`: verifies
/// the current password, checks the confirmation, hashes the new password,
/// and — in one logical step — writes the new hash and deletes every one
/// of the user's sessions.
///
/// `PasswordIncorrect` comes exactly when the current password fails
/// against `user`'s stored hash (a malformed stored hash included);
/// `PasswordsDontMatch` exactly when it passes but the confirmation
/// differs. Both leave the store unchanged, as does the internal
/// `GenericError`. On `SessionInvalidated` the user's row carries a hash
/// the new password verifies against, no session of the user survives,
/// and nothing else changed.
pub fn handle_edit(
    store: &mut SessionStore,
    user: &User,
    current_password: &str,
    new_password: &str,
    verify_password: &str,
) -> (r: EditOutcome)
    requires
        old(store).wf(),
        old(store)@.has_user_id(user@.id),
    ensures
        final(store).wf(),
        final(store)@.next_user_id == old(store)@.next_user_id,
        final(store)@.next_session_id == old(store)@.next_session_id,
        r == EditOutcome::PasswordIncorrect <==> !(phc_parses(user@.password) && password_matches(
            current_password@,
            user@.password,
        )),
        r == EditOutcome::PasswordsDontMatch <==> phc_parses(user@.password) && password_matches(
            current_password@,
            user@.password,
        ) && new_password@ != verify_password@,
        match r {
            EditOutcome::SessionInvalidated => {
                &&& exists|j: int|
                    {
                        &&& 0 <= j < old(store)@.users.len()
                        &&& #[trigger] old(store)@.users[j].id == user@.id
                        &&& phc_parses(final(store)@.users[j].password)
                        &&& password_matches(new_password@, final(store)@.users[j].password)
                        &&& final(store)@.users =~= old(store)@.users.update(
                            j,
                            UserModel {
                                id: old(store)@.users[j].id,
                                username: old(store)@.users[j].username,
                                password: final(store)@.users[j].password,
                                created_at: old(store)@.users[j].created_at,
                            },
                        )
                    }
                &&& final(store)@.sessions == old(store)@.sessions.filter(
                    |m: SessionModel| m.user_id != user@.id,
                )
            },
            _ => final(store)@ == old(store)@,
        },
{
    let outcome = user.verify_password(current_password);
    if !matches!(outcome, VerifyOutcome::Success) {
        return EditOutcome::PasswordIncorrect;
    }
    if !crate::util::str_equal(new_password, verify_password) {
        return EditOutcome::PasswordsDontMatch;
    }
    let hash = match hash_password(new_password) {
        Ok(h) => h,
        Err(_) => {
            return EditOutcome::GenericError;
        },
    };
    let ghost pre = store@;
    match store.update_password(user.id, hash.as_str()) {
        Ok(_) => {},
        Err(_) => {
            proof {
                assert(false);
            }
            unreached()
        },
    }
    store.delete_sessions_for_user(user.id);
    proof {
        let j = choose|j: int|
            {
                &&& 0 <= j < pre.users.len()
                &&& #[trigger] pre.users[j].id == user@.id
                &&& store@.users =~= pre.users.update(
                    j,
                    UserModel {
                        id: user@.id,
                        username: pre.users[j].username,
                        password: hash@,
                        created_at: pre.users[j].created_at,
                    },
                )
            };
        assert(store@.users[j].password == hash@);
        assert(store@.users =~= pre.users.update(
            j,
            UserModel {
                id: pre.users[j].id,
                username: pre.users[j].username,
                password: store@.users[j].password,
                created_at: pre.users[j].created_at,
            },
        ));
    }
    EditOutcome::SessionInvalidated
}

} // verus!
