use vstd::prelude::*;

verus! {

/// A directory entry. Identity is the `id`; the `name` is freely mutable
/// through the store's update operation.
pub struct Person {
    pub id: u32,
    pub name: String,
}

impl Person {
    /// Builds a person from an id and a name.
    pub fn new(id: u32, name: &str) -> (p: Person)
        ensures
            p.id == id,
            p.name@ == name@,
    {
        Person { id: id, name: name.to_owned() }
    }

    /// An exact copy of this person.
    pub fn duplicate(&self) -> (p: Person)
        ensures
            p == *self,
    {
        Person { id: self.id, name: self.name.clone() }
    }
}

} // verus!
