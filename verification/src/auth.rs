use vstd::prelude::*;

use crate::database::{Database, first_username_index, has_username};
use crate::text::str_eq;
use crate::user::{User, user_view};

verus! {

/// Why an authentication attempt was rejected.
#[derive(Clone, Copy, PartialEq, Eq, Structural, Debug)]
pub enum AuthError {
    /// No account has the given username.
    UserNotFound,
    /// The account exists but the password does not match verbatim.
    InvalidPassword,
}

/// The account in `db` whose username is `name`; meaningful only when
/// `has_username` holds of the store's accounts.
pub open spec fn account_of(db: Database, name: Seq<char>) -> User {
    db.users_view()[first_username_index(db.users_view(), name)]
}

/// Turns a username/password pair into the matching account or a rejection.
/// Succeeds exactly when an account with that username exists and its
/// stored password equals `password` verbatim; the returned account carries
/// the stored privilege set. Performs no store mutation and no notification.
pub fn authenticate(db: &Database, username: &str, password: &str) -> (r: Result<
    User,
    AuthError,
>)
    ensures
        match r {
            Ok(u) => has_username(db.users_view(), username@) && user_view(u) == user_view(
                account_of(*db, username@),
            ) && account_of(*db, username@).password@ == password@,
            Err(AuthError::UserNotFound) => !has_username(db.users_view(), username@),
            Err(AuthError::InvalidPassword) => has_username(db.users_view(), username@)
                && account_of(*db, username@).password@ != password@,
        },
{
    match db.get_user_by_username(username) {
        Some(user) => {
            if str_eq(user.password.as_str(), password) {
                Ok(user)
            } else {
                Err(AuthError::InvalidPassword)
            }
        },
        None => Err(AuthError::UserNotFound),
    }
}

} // verus!
