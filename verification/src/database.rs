use vstd::prelude::*;

use crate::person::Person;
use crate::seq_find::{exists_match, first_match_index, lemma_first_match_index,
    lemma_first_match_index_unique};
use crate::text::{contains_sub, match_at, str_contains, str_eq};
use crate::user::{DbPrivilege, User, user_view};

verus! {

/// Matches the person whose id is `id`.
pub open spec fn by_id(id: u32) -> spec_fn(Person) -> bool {
    |p: Person| p.id == id
}

/// Some person in `s` has id `id`.
pub open spec fn has_id(s: Seq<Person>, id: u32) -> bool {
    exists_match(s, by_id(id))
}

/// The index of the first person in `s` with id `id`.
pub open spec fn first_id_index(s: Seq<Person>, id: u32) -> int {
    first_match_index(s, by_id(id))
}

/// `s` with its first person of id `id` taken out; `s` itself when no
/// person has that id.
pub open spec fn remove_first_id(s: Seq<Person>, id: u32) -> Seq<Person> {
    if has_id(s, id) {
        s.remove(first_id_index(s, id))
    } else {
        s
    }
}

/// `new_s` is `old_s` with the record at `j` replaced by one that keeps id
/// `id` and carries `name`, everything else untouched.
pub open spec fn updated_at(
    old_s: Seq<Person>,
    new_s: Seq<Person>,
    j: int,
    id: u32,
    name: Seq<char>,
) -> bool {
    &&& new_s.len() == old_s.len()
    &&& new_s[j].id == id
    &&& new_s[j].name@ == name
    &&& forall|k: int| 0 <= k < old_s.len() && k != j ==> new_s[k] == old_s[k]
}

/// The persons of `s` whose name contains `needle`, in store order.
pub open spec fn matching_persons(s: Seq<Person>, needle: Seq<char>) -> Seq<Person> {
    s.filter(|p: Person| contains_sub(p.name@, needle))
}

/// Every person in `s` carries a distinct id. Because the store derives a
/// new id from its current length, a store that has seen deletions can
/// leave this state; the laws below that need it say so.
pub open spec fn unique_ids(s: Seq<Person>) -> bool {
    forall|i: int, j: int| 0 <= i < j < s.len() ==> s[i].id != s[j].id
}

/// After an insert (`t` is `s` plus one appended person) whose assigned id
/// was not already taken, looking that id up finds exactly the new person.
pub proof fn lemma_insert_then_get_by_id(s: Seq<Person>, t: Seq<Person>)
    requires
        t.len() == s.len() + 1,
        forall|k: int| 0 <= k < s.len() ==> t[k] == s[k],
        !has_id(s, t.last().id),
    ensures
        has_id(t, t.last().id),
        first_id_index(t, t.last().id) == s.len(),
        t[first_id_index(t, t.last().id)] == t.last(),
{
    let id = t.last().id;
    assert forall|k: int| 0 <= k < s.len() implies !(by_id(id)(t[k])) by {
        assert(t[k] == s[k]);
        if s[k].id == id {
            assert(by_id(id)(s[k]));
            assert(has_id(s, id));
        }
    }
    assert(by_id(id)(t[s.len() as int]));
    lemma_first_match_index_unique(t, by_id(id), s.len() as int);
    assert(has_id(t, id));
}

/// Deleting an id from a store of distinct ids leaves no person under it,
/// so the lookup that follows comes back empty. With a duplicated id (the
/// state the length-derived id assignment can produce) only the first
/// holder is removed and the law does not apply.
pub proof fn lemma_delete_then_get_by_id(s: Seq<Person>, id: u32)
    requires
        unique_ids(s),
    ensures
        !has_id(remove_first_id(s, id), id),
{
    if has_id(s, id) {
        lemma_first_match_index(s, by_id(id));
        let idx = first_id_index(s, id);
        s.remove_ensures(idx);
        let t = s.remove(idx);
        if has_id(t, id) {
            let j = choose|j: int| 0 <= j < t.len() && by_id(id)(t[j]);
            if j < idx {
                assert(t[j] == s[j]);
            } else {
                assert(t[j] == s[j + 1]);
            }
        }
    }
}

/// Searching with the empty name portion matches every person, in store
/// order.
pub proof fn lemma_matching_all(s: Seq<Person>, needle: Seq<char>)
    requires
        needle.len() == 0,
    ensures
        matching_persons(s, needle) == s,
    decreases s.len(),
{
    reveal(Seq::filter);
    if s.len() > 0 {
        lemma_matching_all(s.drop_last(), needle);
        assert(contains_sub(s.last().name@, needle)) by {
            assert(match_at(s.last().name@, needle, 0));
        }
        assert(matching_persons(s, needle) =~= s);
    }
}

/// Matches the account whose username is `name`.
pub open spec fn by_username(name: Seq<char>) -> spec_fn(User) -> bool {
    |u: User| u.username@ == name
}

/// Some account in `s` has username `name`.
pub open spec fn has_username(s: Seq<User>, name: Seq<char>) -> bool {
    exists_match(s, by_username(name))
}

/// The index of the first account in `s` with username `name`.
pub open spec fn first_username_index(s: Seq<User>, name: Seq<char>) -> int {
    first_match_index(s, by_username(name))
}

/// The in-memory record store: sole authority over person records and the
/// seeded user accounts.
pub struct Database {
    persons: Vec<Person>,
    users: Vec<User>,
}

/// `d` holds exactly the seed data: four persons and the two accounts
/// `root` (read and write) and `john` (read only).
pub open spec fn seeded(d: Database) -> bool {
    &&& d.persons_view().len() == 4
    &&& d.persons_view()[0].id == 1 && d.persons_view()[0].name@ == "Esteban"@
    &&& d.persons_view()[1].id == 2 && d.persons_view()[1].name@ == "June"@
    &&& d.persons_view()[2].id == 3 && d.persons_view()[2].name@ == "Carlos"@
    &&& d.persons_view()[3].id == 4 && d.persons_view()[3].name@ == "Ana"@
    &&& d.users_view().len() == 2
    &&& d.users_view()[0].username@ == "root"@
    &&& d.users_view()[0].password@ == "root"@
    &&& d.users_view()[0].privileges@ == seq![DbPrivilege::CanRead, DbPrivilege::CanWrite]
    &&& d.users_view()[1].username@ == "john"@
    &&& d.users_view()[1].password@ == "appleseed"@
    &&& d.users_view()[1].privileges@ == seq![DbPrivilege::CanRead]
}

impl Database {
    /// The person records, in insertion order.
    pub closed spec fn persons_view(self) -> Seq<Person> {
        self.persons@
    }

    /// The seeded user accounts, in seed order.
    pub closed spec fn users_view(self) -> Seq<User> {
        self.users@
    }

    /// A store with the seed data: four persons and the two accounts
    /// `root` (read and write) and `john` (read only).
    pub fn new() -> (d: Database)
        ensures
            seeded(d),
    {
        let mut persons: Vec<Person> = Vec::new();
        persons.push(Person::new(1, "Esteban"));
        persons.push(Person::new(2, "June"));
        persons.push(Person::new(3, "Carlos"));
        persons.push(Person::new(4, "Ana"));

        let mut root_privileges: Vec<DbPrivilege> = Vec::new();
        root_privileges.push(DbPrivilege::CanRead);
        root_privileges.push(DbPrivilege::CanWrite);
        proof {
            assert(root_privileges@ =~= seq![DbPrivilege::CanRead, DbPrivilege::CanWrite]);
        }
        let mut john_privileges: Vec<DbPrivilege> = Vec::new();
        john_privileges.push(DbPrivilege::CanRead);
        proof {
            assert(john_privileges@ =~= seq![DbPrivilege::CanRead]);
        }
        let mut users: Vec<User> = Vec::new();
        users.push(User::new("root", "root", root_privileges));
        users.push(User::new("john", "appleseed", john_privileges));

        Database { persons, users }
    }

    /// A snapshot copy of every person, in store order.
    pub fn get_all_persons(&self) -> (r: Vec<Person>)
        ensures
            r@ == self.persons_view(),
    {
        let mut r: Vec<Person> = Vec::new();
        let mut i: usize = 0;
        while i < self.persons.len()
            invariant
                0 <= i <= self.persons@.len(),
                r@ == self.persons@.take(i as int),
            decreases self.persons@.len() - i,
        {
            r.push(self.persons[i].duplicate());
            proof {
                assert(r@ =~= self.persons@.take(i + 1));
            }
            i = i + 1;
        }
        proof {
            assert(r@ =~= self.persons@);
        }
        r
    }

    /// The first person with the given id, or nothing when no person has it.
    pub fn get_person_by_id(&self, id: u32) -> (r: Option<Person>)
        ensures
            match r {
                Some(p) => has_id(self.persons_view(), id) && p == self.persons_view()[
                    first_id_index(self.persons_view(), id)],
                None => !has_id(self.persons_view(), id),
            },
    {
        let mut i: usize = 0;
        while i < self.persons.len()
            invariant
                0 <= i <= self.persons@.len(),
                forall|k: int| 0 <= k < i ==> self.persons@[k].id != id,
            decreases self.persons@.len() - i,
        {
            if self.persons[i].id == id {
                proof {
                    lemma_first_match_index_unique(self.persons@, by_id(id), i as int);
                }
                return Some(self.persons[i].duplicate());
            }
            i = i + 1;
        }
        proof {
            assert(!has_id(self.persons@, id));
        }
        None
    }

    /// Removes the first person with the given id; reports whether a
    /// removal occurred. A missing id is no fault.
    pub fn delete(&mut self, id: u32) -> (r: bool)
        ensures
            r == has_id(old(self).persons_view(), id),
            final(self).persons_view() == remove_first_id(old(self).persons_view(), id),
            r ==> final(self).persons_view().len() == old(self).persons_view().len() - 1,
            !r ==> final(self).persons_view() == old(self).persons_view(),
            final(self).users_view() == old(self).users_view(),
    {
        let mut i: usize = 0;
        while i < self.persons.len()
            invariant
                self.persons@ == old(self).persons@,
                self.users@ == old(self).users@,
                0 <= i <= self.persons@.len(),
                forall|k: int| 0 <= k < i ==> self.persons@[k].id != id,
            decreases self.persons@.len() - i,
        {
            if self.persons[i].id == id {
                proof {
                    lemma_first_match_index_unique(self.persons@, by_id(id), i as int);
                }
                self.persons.remove(i);
                return true;
            }
            i = i + 1;
        }
        proof {
            assert(!has_id(self.persons@, id));
        }
        false
    }

    /// Appends a person named `name` under the id `current count + 1` and
    /// returns that id. Because the id is derived from the current length,
    /// it can collide with the id of a record that survived an earlier
    /// deletion; the store does not rule such states out.
    pub fn insert(&mut self, name: &str) -> (r: u32)
        requires
            old(self).persons_view().len() < u32::MAX,
        ensures
            r as int == old(self).persons_view().len() + 1,
            final(self).persons_view().len() == old(self).persons_view().len() + 1,
            forall|k: int| 0 <= k < old(self).persons_view().len() ==> final(
                self).persons_view()[k] == old(self).persons_view()[k],
            final(self).persons_view().last().id == r,
            final(self).persons_view().last().name@ == name@,
            final(self).users_view() == old(self).users_view(),
    {
        let next_id = self.persons.len() + 1;
        let next_id = next_id as u32;

        self.persons.push(Person::new(next_id, name));

        next_id
    }

    /// Replaces the name of the first person with the given id and returns
    /// that id; returns the sentinel `0` and changes nothing when no person
    /// has it.
    pub fn update(&mut self, id: u32, name: &str) -> (r: u32)
        ensures
            has_id(old(self).persons_view(), id) ==> r == id && updated_at(
                old(self).persons_view(),
                final(self).persons_view(),
                first_id_index(old(self).persons_view(), id),
                id,
                name@,
            ),
            forall|k: int| 0 <= k < old(self).persons_view().len()
                ==> final(self).persons_view()[k].id == old(self).persons_view()[k].id,
            !has_id(old(self).persons_view(), id) ==> r == 0 && final(self).persons_view()
                == old(self).persons_view(),
            final(self).users_view() == old(self).users_view(),
    {
        let mut i: usize = 0;
        while i < self.persons.len()
            invariant
                self.persons@ == old(self).persons@,
                self.users@ == old(self).users@,
                0 <= i <= self.persons@.len(),
                forall|k: int| 0 <= k < i ==> self.persons@[k].id != id,
            decreases self.persons@.len() - i,
        {
            if self.persons[i].id == id {
                proof {
                    lemma_first_match_index_unique(self.persons@, by_id(id), i as int);
                }
                self.persons[i] = Person::new(id, name);
                return id;
            }
            i = i + 1;
        }
        proof {
            assert(!has_id(self.persons@, id));
        }
        0
    }

    /// Every person whose name contains `partial` as a literal substring,
    /// in store order; the empty portion matches everyone.
    pub fn get_persons_by_name(&self, partial: &str) -> (r: Vec<Person>)
        ensures
            r@ == matching_persons(self.persons_view(), partial@),
    {
        let mut r: Vec<Person> = Vec::new();
        let mut i: usize = 0;
        while i < self.persons.len()
            invariant
                0 <= i <= self.persons@.len(),
                r@ == matching_persons(self.persons@.take(i as int), partial@),
            decreases self.persons@.len() - i,
        {
            if str_contains(self.persons[i].name.as_str(), partial) {
                r.push(self.persons[i].duplicate());
                proof {
                    reveal(Seq::filter);
                    let pred = |p: Person| contains_sub(p.name@, partial@);
                    assert(self.persons@.take(i + 1).drop_last() =~= self.persons@.take(i as int));
                    assert(self.persons@.take(i + 1).last() == self.persons@[i as int]);
                    assert(pred(self.persons@[i as int]));
                    assert(r@ == matching_persons(self.persons@.take(i + 1), partial@));
                }
            } else {
                proof {
                    reveal(Seq::filter);
                    let pred = |p: Person| contains_sub(p.name@, partial@);
                    assert(self.persons@.take(i + 1).drop_last() =~= self.persons@.take(i as int));
                    assert(self.persons@.take(i + 1).last() == self.persons@[i as int]);
                    assert(!pred(self.persons@[i as int]));
                    assert(r@ == matching_persons(self.persons@.take(i + 1), partial@));
                }
            }
            i = i + 1;
        }
        proof {
            assert(self.persons@.take(self.persons@.len() as int) =~= self.persons@);
        }
        r
    }

    /// The first account with the given username, compared exactly and
    /// case-sensitively, or nothing when no account has it.
    pub fn get_user_by_username(&self, username: &str) -> (r: Option<User>)
        ensures
            match r {
                Some(u) => has_username(self.users_view(), username@) && user_view(u)
                    == user_view(self.users_view()[
                    first_username_index(self.users_view(), username@)]),
                None => !has_username(self.users_view(), username@),
            },
    {
        let mut i: usize = 0;
        while i < self.users.len()
            invariant
                0 <= i <= self.users@.len(),
                forall|k: int| 0 <= k < i ==> self.users@[k].username@ != username@,
            decreases self.users@.len() - i,
        {
            if str_eq(self.users[i].username.as_str(), username) {
                proof {
                    lemma_first_match_index_unique(self.users@, by_username(username@), i as int);
                }
                return Some(self.users[i].duplicate());
            }
            i = i + 1;
        }
        proof {
            assert(!has_username(self.users@, username@));
        }
        None
    }
}

} // verus!
