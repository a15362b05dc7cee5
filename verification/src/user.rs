use vstd::prelude::*;

verus! {

/// A privilege a user account may hold: directory reads are gated by
/// `CanRead`, mutations by `CanWrite`.
#[derive(Clone, Copy, PartialEq, Eq, Structural, Debug)]
pub enum DbPrivilege {
    CanRead,
    CanWrite,
}

/// A user account: unique case-sensitive username, plain-text password
/// (compared verbatim), and the privileges the account holds.
#[derive(Debug)]
pub struct User {
    pub username: String,
    pub password: String,
    pub privileges: Vec<DbPrivilege>,
}

/// The observable content of an account: the views of its three fields.
pub open spec fn user_view(u: User) -> (Seq<char>, Seq<char>, Seq<DbPrivilege>) {
    (u.username@, u.password@, u.privileges@)
}

impl Default for User {
    /// The empty account: blank credentials and no privileges.
    fn default() -> (u: User)
        ensures
            u.username@ == Seq::<char>::empty(),
            u.password@ == Seq::<char>::empty(),
            u.privileges@ == Seq::<DbPrivilege>::empty(),
    {
        User { username: String::new(), password: String::new(), privileges: Vec::new() }
    }
}

impl User {
    pub fn new(username: &str, password: &str, privileges: Vec<DbPrivilege>) -> (u: User)
        ensures
            u.username@ == username@,
            u.password@ == password@,
            u.privileges == privileges,
    {
        User { username: username.to_owned(), password: password.to_owned(), privileges }
    }

    /// Whether this account holds the given privilege.
    pub fn has_privilege(&self, p: DbPrivilege) -> (r: bool)
        ensures
            r == self.privileges@.contains(p),
    {
        let mut i: usize = 0;
        while i < self.privileges.len()
            invariant
                0 <= i <= self.privileges@.len(),
                forall|k: int| 0 <= k < i ==> self.privileges@[k] != p,
            decreases self.privileges@.len() - i,
        {
            if self.privileges[i] == p {
                return true;
            }
            i = i + 1;
        }
        false
    }

    /// A copy of this account with the same observable content.
    pub fn duplicate(&self) -> (u: User)
        ensures
            user_view(u) == user_view(*self),
    {
        let mut privileges: Vec<DbPrivilege> = Vec::new();
        let mut i: usize = 0;
        while i < self.privileges.len()
            invariant
                0 <= i <= self.privileges@.len(),
                privileges@ == self.privileges@.take(i as int),
            decreases self.privileges@.len() - i,
        {
            privileges.push(self.privileges[i]);
            proof {
                assert(privileges@ =~= self.privileges@.take(i + 1));
            }
            i = i + 1;
        }
        proof {
            assert(privileges@ =~= self.privileges@);
        }
        User { username: self.username.clone(), password: self.password.clone(), privileges }
    }
}

} // verus!
