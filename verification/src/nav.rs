use vstd::prelude::*;

use crate::auth::{AuthError, account_of, authenticate};
use crate::database::{Database, first_id_index, has_id, has_username, seeded, updated_at};
use crate::user::{DbPrivilege, User, user_view};

verus! {

/// The page the application is showing. `OnePerson(None)` is the editor
/// creating a new person; `OnePerson(Some(id))` edits an existing one.
#[derive(Clone, Copy)]
pub enum Page {
    Login,
    PersonsList,
    OnePerson(Option<u32>),
}

/// A navigation event.
pub enum Msg {
    LoggedIn(User),
    ChangeUser,
    GoToOnePersonPage(Option<u32>),
    GoToPersonsListPage,
}

/// The application shell: the active page, the session (logged-in account
/// and its derived write permission), and the owned record store.
pub struct AuthApp {
    pub page: Page,
    pub current_user: Option<User>,
    pub can_write: bool,
    pub database: Database,
}

impl AuthApp {
    /// The session invariant: `can_write` always equals the presence of
    /// `CanWrite` among the current user's privileges, and is false while
    /// nobody is logged in.
    pub open spec fn session_wf(self) -> bool {
        match self.current_user {
            None => !self.can_write,
            Some(u) => self.can_write == u.privileges@.contains(DbPrivilege::CanWrite),
        }
    }

    /// A fresh application: login page, empty session, seeded store.
    pub fn new() -> (app: AuthApp)
        ensures
            app.page == Page::Login,
            app.current_user is None,
            !app.can_write,
            app.session_wf(),
            seeded(app.database),
    {
        AuthApp {
            page: Page::Login,
            current_user: None,
            can_write: false,
            database: Database::new(),
        }
    }

    /// One navigation step. Logging in lands on the list page with the
    /// session set and `can_write` derived from the user's privileges;
    /// changing user returns to the login page with the session cleared;
    /// the page jumps leave the session alone. No event touches the store.
    pub fn update(&mut self, msg: Msg)
        ensures
            final(self).database == old(self).database,
            old(self).session_wf() ==> final(self).session_wf(),
            msg matches Msg::LoggedIn(user) ==> final(self).page == Page::PersonsList
                && final(self).current_user == Some(user)
                && final(self).can_write == user.privileges@.contains(DbPrivilege::CanWrite)
                && final(self).session_wf(),
            msg matches Msg::ChangeUser ==> final(self).page == Page::Login
                && final(self).current_user is None
                && !final(self).can_write
                && final(self).session_wf(),
            msg matches Msg::GoToOnePersonPage(p) ==> final(self).page == Page::OnePerson(p)
                && final(self).current_user == old(self).current_user
                && final(self).can_write == old(self).can_write,
            msg matches Msg::GoToPersonsListPage ==> final(self).page == Page::PersonsList
                && final(self).current_user == old(self).current_user
                && final(self).can_write == old(self).can_write,
    {
        match msg {
            Msg::LoggedIn(user) => {
                self.page = Page::PersonsList;
                self.can_write = user.has_privilege(DbPrivilege::CanWrite);
                self.current_user = Some(user);
            },
            Msg::ChangeUser => {
                self.page = Page::Login;
                self.current_user = None;
                self.can_write = false;
            },
            Msg::GoToOnePersonPage(person) => {
                self.page = Page::OnePerson(person);
            },
            Msg::GoToPersonsListPage => {
                self.page = Page::PersonsList;
            },
        }
    }

    /// A login attempt. Succeeds exactly when the credentials name a seeded
    /// account with that verbatim password; success lands on the list page
    /// with the session set, failure reports why and changes nothing.
    pub fn login(&mut self, username: &str, password: &str) -> (r: Result<(), AuthError>)
        ensures
            final(self).database == old(self).database,
            r is Ok <==> has_username(old(self).database.users_view(), username@)
                && account_of(old(self).database, username@).password@ == password@,
            r is Ok ==> final(self).page == Page::PersonsList
                && final(self).session_wf()
                && (final(self).current_user matches Some(u)
                    && user_view(u) == user_view(account_of(old(self).database, username@)))
                && final(self).can_write == account_of(
                    old(self).database, username@).privileges@.contains(DbPrivilege::CanWrite),
            r is Err ==> *final(self) == *old(self),
            r matches Err(AuthError::UserNotFound) ==> !has_username(
                old(self).database.users_view(), username@),
            r matches Err(AuthError::InvalidPassword) ==> has_username(
                old(self).database.users_view(), username@)
                && account_of(old(self).database, username@).password@ != password@,
    {
        match authenticate(&self.database, username, password) {
            Ok(user) => {
                self.update(Msg::LoggedIn(user));
                Ok(())
            },
            Err(e) => Err(e),
        }
    }

    /// Moves to the editor for an existing person, only when the store
    /// knows the id; otherwise nothing changes and the caller is expected
    /// to surface a "not found" notification.
    pub fn edit_person(&mut self, id: u32) -> (found: bool)
        ensures
            old(self).session_wf() ==> final(self).session_wf(),
            found == has_id(old(self).database.persons_view(), id),
            found ==> final(self).page == Page::OnePerson(Some(id))
                && final(self).current_user == old(self).current_user
                && final(self).can_write == old(self).can_write
                && final(self).database == old(self).database,
            !found ==> *final(self) == *old(self),
    {
        match self.database.get_person_by_id(id) {
            Some(_) => {
                self.page = Page::OnePerson(Some(id));
                true
            },
            None => false,
        }
    }

    /// Saves the editor's name field and returns to the list page. With no
    /// id the store inserts a new person and the new id is returned; with
    /// an id the store updates that person, returning the id on success and
    /// the sentinel `0` when the id is gone. The session is untouched.
    pub fn save_person(&mut self, name: &str) -> (r: u32)
        requires
            old(self).page matches Page::OnePerson(_),
            old(self).page == Page::OnePerson(None::<u32>)
                ==> old(self).database.persons_view().len() < u32::MAX,
        ensures
            old(self).session_wf() ==> final(self).session_wf(),
            final(self).page == Page::PersonsList,
            final(self).current_user == old(self).current_user,
            final(self).can_write == old(self).can_write,
            final(self).database.users_view() == old(self).database.users_view(),
            old(self).page == Page::OnePerson(None::<u32>)
                ==> r as int == old(self).database.persons_view().len() + 1
                && final(self).database.persons_view().len()
                    == old(self).database.persons_view().len() + 1
                && (forall|k: int| 0 <= k < old(self).database.persons_view().len()
                    ==> final(self).database.persons_view()[k]
                        == old(self).database.persons_view()[k])
                && final(self).database.persons_view().last().id == r
                && final(self).database.persons_view().last().name@ == name@,
            old(self).page matches Page::OnePerson(Some(id)) ==> {
                &&& has_id(old(self).database.persons_view(), id) ==> r == id && updated_at(
                    old(self).database.persons_view(),
                    final(self).database.persons_view(),
                    first_id_index(old(self).database.persons_view(), id),
                    id,
                    name@,
                )
                &&& !has_id(old(self).database.persons_view(), id) ==> r == 0
                    && final(self).database.persons_view() == old(self).database.persons_view()
            },
    {
        let r = match self.page {
            Page::OnePerson(Some(id)) => self.database.update(id, name),
            _ => self.database.insert(name),
        };
        self.page = Page::PersonsList;
        r
    }
}

} // verus!
