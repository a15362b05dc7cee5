//! An in-memory people directory: a record store of persons and user
//! accounts, an authentication gate over those accounts, and a page
//! navigation state machine that tracks the logged-in session.

pub mod auth;
pub mod database;
pub mod list;
pub mod nav;
pub mod person;
pub mod seq_find;
pub mod text;
pub mod user;
