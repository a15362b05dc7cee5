use vstd::prelude::*;

use crate::database::{Database, matching_persons, remove_first_id, lemma_matching_all};
use crate::person::Person;
use crate::text::{parse_u32, u32_of_str};

verus! {

/// `s` with the first person of each id in `ids` removed, in order: what a
/// bulk delete over `ids` leaves behind.
pub open spec fn apply_deletes(s: Seq<Person>, ids: Seq<u32>) -> Seq<Person>
    decreases ids.len(),
{
    if ids.len() == 0 {
        s
    } else {
        apply_deletes(remove_first_id(s, ids[0]), ids.drop_first())
    }
}

/// Deleting one more id deletes it from what the earlier ids left behind.
pub proof fn lemma_apply_deletes_push(s: Seq<Person>, ids: Seq<u32>, x: u32)
    ensures
        apply_deletes(s, ids.push(x)) == remove_first_id(apply_deletes(s, ids), x),
    decreases ids.len(),
{
    if ids.len() == 0 {
        assert(ids.push(x)[0] == x);
        assert(ids.push(x).drop_first() =~= Seq::<u32>::empty());
        assert(apply_deletes(remove_first_id(s, x), Seq::<u32>::empty()) == remove_first_id(s, x));
        assert(apply_deletes(s, ids) == s);
    } else {
        assert(ids.push(x)[0] == ids[0]);
        assert(ids.push(x).drop_first() =~= ids.drop_first().push(x));
        lemma_apply_deletes_push(remove_first_id(s, ids[0]), ids.drop_first(), x);
    }
}

/// The state behind the directory list page: the id lookup field, the name
/// filter, the filtered snapshot it last read, and the ids ticked for bulk
/// deletion. The selection is not revalidated against the store; it can go
/// stale until the next filter pass.
pub struct PersonsList {
    pub id_to_find: Option<u32>,
    pub name_portion: String,
    pub filtered_persons: Vec<Person>,
    pub selected_ids: Vec<u32>,
}

impl PersonsList {
    /// The selection holds each id at most once.
    pub open spec fn sel_wf(self) -> bool {
        forall|i: int, j: int| 0 <= i < j < self.selected_ids@.len()
            ==> self.selected_ids@[i] != self.selected_ids@[j]
    }

    /// A fresh list page: no lookup id, empty filter, everything visible,
    /// nothing selected.
    pub fn new(db: &Database) -> (l: PersonsList)
        ensures
            l.id_to_find is None,
            l.name_portion@ == Seq::<char>::empty(),
            l.filtered_persons@ == db.persons_view(),
            l.selected_ids@ == Seq::<u32>::empty(),
            l.sel_wf(),
    {
        let filtered = db.get_persons_by_name("");
        proof {
            reveal_strlit("");
            lemma_matching_all(db.persons_view(), ""@);
        }
        PersonsList {
            id_to_find: None,
            name_portion: String::new(),
            filtered_persons: filtered,
            selected_ids: Vec::new(),
        }
    }

    /// Records what the id input field now holds, read as a decimal id.
    pub fn id_changed(&mut self, value: &str)
        ensures
            final(self).id_to_find == u32_of_str(value@),
            final(self).name_portion == old(self).name_portion,
            final(self).filtered_persons == old(self).filtered_persons,
            final(self).selected_ids == old(self).selected_ids,
    {
        self.id_to_find = parse_u32(value);
    }

    /// Records what the name filter field now holds.
    pub fn change_partial_name(&mut self, value: String)
        ensures
            final(self).name_portion == value,
            final(self).id_to_find == old(self).id_to_find,
            final(self).filtered_persons == old(self).filtered_persons,
            final(self).selected_ids == old(self).selected_ids,
    {
        self.name_portion = value;
    }

    /// Re-reads the store through the current name filter.
    pub fn filter(&mut self, db: &Database)
        ensures
            final(self).filtered_persons@ == matching_persons(
                db.persons_view(),
                old(self).name_portion@,
            ),
            final(self).id_to_find == old(self).id_to_find,
            final(self).name_portion == old(self).name_portion,
            final(self).selected_ids == old(self).selected_ids,
    {
        self.filtered_persons = db.get_persons_by_name(self.name_portion.as_str());
    }

    /// Ticks or unticks an id for bulk deletion: afterwards the id is
    /// selected exactly when it was not before, every other id keeps its
    /// state, and the selection stays free of repeats.
    pub fn toggle_select(&mut self, id: u32)
        requires
            old(self).sel_wf(),
        ensures
            final(self).sel_wf(),
            final(self).selected_ids@.contains(id) == !old(self).selected_ids@.contains(id),
            forall|x: u32| x != id ==> final(self).selected_ids@.contains(x) == old(
                self,
            ).selected_ids@.contains(x),
            final(self).id_to_find == old(self).id_to_find,
            final(self).name_portion == old(self).name_portion,
            final(self).filtered_persons == old(self).filtered_persons,
    {
        let ghost s = self.selected_ids@;
        let mut i: usize = 0;
        while i < self.selected_ids.len()
            invariant
                *self == *old(self),
                old(self).sel_wf(),
                s == self.selected_ids@,
                0 <= i <= s.len(),
                forall|k: int| 0 <= k < i ==> s[k] != id,
            decreases s.len() - i,
        {
            if self.selected_ids[i] == id {
                proof {
                    assert(s[i as int] == id);
                    assert(s.contains(id)) by {
                        assert(s[i as int] == id);
                    }
                }
                self.selected_ids.remove(i);
                proof {
                    s.remove_ensures(i as int);
                    let t = self.selected_ids@;
                    assert(t == s.remove(i as int));
                    assert forall|j: int| 0 <= j < t.len() implies #[trigger] t[j] == (if j < i {
                        s[j]
                    } else {
                        s[j + 1]
                    }) by {
                        if j < i {
                            assert(s.remove(i as int)[j] == s[j]);
                        } else {
                            assert(s.remove(i as int)[j] == s[j + 1]);
                        }
                    }
                    assert forall|a: int, b: int| 0 <= a < b < t.len() implies t[a] != t[b] by {
                        assert(t[a] == (if a < i {
                            s[a]
                        } else {
                            s[a + 1]
                        }));
                        assert(t[b] == (if b < i {
                            s[b]
                        } else {
                            s[b + 1]
                        }));
                    }
                    assert forall|x: u32| t.contains(x) implies s.contains(x) by {
                        let j = choose|j: int| 0 <= j < t.len() && t[j] == x;
                        if j < i {
                            assert(s[j] == x);
                        } else {
                            assert(s[j + 1] == x);
                        }
                    }
                    assert forall|x: u32| x != id && s.contains(x) implies t.contains(x) by {
                        let j = choose|j: int| 0 <= j < s.len() && s[j] == x;
                        if j < i {
                            assert(t[j] == x);
                        } else {
                            assert(j != i);
                            assert(t[j - 1] == x);
                        }
                    }
                    assert(!t.contains(id)) by {
                        if t.contains(id) {
                            let j = choose|j: int| 0 <= j < t.len() && t[j] == id;
                            assert(t[j] == (if j < i {
                                s[j]
                            } else {
                                s[j + 1]
                            }));
                        }
                    }
                }
                return ;
            }
            i = i + 1;
        }
        proof {
            assert(!s.contains(id));
        }
        self.selected_ids.push(id);
        proof {
            let t = self.selected_ids@;
            assert(t.contains(id)) by {
                assert(t[s.len() as int] == id);
            }
            assert forall|x: u32| x != id implies t.contains(x) == s.contains(x) by {
                if t.contains(x) {
                    let j = choose|j: int| 0 <= j < t.len() && t[j] == x;
                    assert(j < s.len());
                    assert(s[j] == x);
                }
                if s.contains(x) {
                    let j = choose|j: int| 0 <= j < s.len() && s[j] == x;
                    assert(t[j] == x);
                }
            }
        }
    }

    /// Deletes every selected person from the store, first id first, then
    /// re-reads the store through the current filter. The selection itself
    /// is kept as it was; the caller is expected to have confirmed the
    /// deletion with the user beforehand.
    pub fn delete_selected(&mut self, db: &mut Database)
        ensures
            final(db).persons_view() == apply_deletes(
                old(db).persons_view(),
                old(self).selected_ids@,
            ),
            final(db).users_view() == old(db).users_view(),
            final(self).filtered_persons@ == matching_persons(
                final(db).persons_view(),
                old(self).name_portion@,
            ),
            final(self).id_to_find == old(self).id_to_find,
            final(self).name_portion == old(self).name_portion,
            final(self).selected_ids == old(self).selected_ids,
    {
        let ghost s0 = db.persons_view();
        let ghost sel = self.selected_ids@;
        let mut i: usize = 0;
        while i < self.selected_ids.len()
            invariant
                *self == *old(self),
                sel == self.selected_ids@,
                0 <= i <= sel.len(),
                db.persons_view() == apply_deletes(s0, sel.take(i as int)),
                db.users_view() == old(db).users_view(),
            decreases sel.len() - i,
        {
            let id = self.selected_ids[i];
            db.delete(id);
            proof {
                lemma_apply_deletes_push(s0, sel.take(i as int), id);
                assert(sel.take(i + 1) =~= sel.take(i as int).push(id));
            }
            i = i + 1;
        }
        proof {
            assert(sel.take(sel.len() as int) =~= sel);
        }
        self.filter(db);
    }
}

} // verus!
