use auth::auth::{authenticate, AuthError};
use auth::database::Database;
use auth::user::DbPrivilege;

#[test]
fn root_authenticates_with_read_and_write() {
    let db = Database::new();
    let user = authenticate(&db, "root", "root").expect("root/root must log in");
    assert_eq!(user.username, "root");
    assert_eq!(user.privileges, vec![DbPrivilege::CanRead, DbPrivilege::CanWrite]);
}

#[test]
fn john_authenticates_read_only() {
    let db = Database::new();
    let user = authenticate(&db, "john", "appleseed").expect("john/appleseed must log in");
    assert_eq!(user.username, "john");
    assert_eq!(user.privileges, vec![DbPrivilege::CanRead]);
}

#[test]
fn wrong_password_is_rejected() {
    let db = Database::new();
    let err = authenticate(&db, "john", "wrong").expect_err("wrong password must fail");
    assert_eq!(err, AuthError::InvalidPassword);
}

#[test]
fn unknown_user_is_rejected() {
    let db = Database::new();
    let err = authenticate(&db, "nope", "x").expect_err("unknown user must fail");
    assert_eq!(err, AuthError::UserNotFound);
}

#[test]
fn username_match_is_case_sensitive() {
    let db = Database::new();
    assert!(db.get_user_by_username("Root").is_none());
    assert!(db.get_user_by_username("root").is_some());
    let err = authenticate(&db, "ROOT", "root").expect_err("usernames compare exactly");
    assert_eq!(err, AuthError::UserNotFound);
}

#[test]
fn empty_credentials_are_rejected() {
    let db = Database::new();
    let err = authenticate(&db, "", "").expect_err("no account has the empty username");
    assert_eq!(err, AuthError::UserNotFound);
}
