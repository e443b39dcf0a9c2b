//! A flat table from names to values.
//!
//! The entries stand in two vectors. The standard hash map has no key model for `String`
//! in vstd, so that nothing could be proved of a map keyed by names; what the table has
//! in its place is its invariant, that no name stands in two slots.
use vstd::prelude::*;
use vstd::string::*;

verus! {

/// A mapping from names to values that only grows: an entry is made on the first `insert`
/// of its name and overwritten by a later one, and none is ever removed.
pub struct Table<V> {
    names: Vec<String>,
    values: Vec<V>,
}

impl<V> Table<V> {
    /// Whether slot `i` holds the entry of `name`.
    spec fn at(&self, name: Seq<char>, i: int) -> bool {
        0 <= i < self.names.len() && self.names[i]@ == name
    }

    /// Every name has one slot, and every slot a value.
    pub closed spec fn inv(&self) -> bool {
        &&& self.names.len() == self.values.len()
        &&& forall|i: int, j: int|
            0 <= i < self.names.len() && 0 <= j < self.names.len() && self.names[i]@
                == self.names[j]@ ==> i == j
    }

    /// The index of the slot that holds `name`.
    spec fn slot(&self, name: Seq<char>) -> int {
        choose|i: int| self.at(name, i)
    }

    /// The mapping that the table holds.
    pub closed spec fn view(&self) -> Map<Seq<char>, V> {
        Map::new(|name: Seq<char>| exists|i: int| self.at(name, i), |name: Seq<char>| self.values[self.slot(name)])
    }

    /// An empty table.
    pub fn new() -> (r: Table<V>)
        ensures
            r.inv(),
            r@ == Map::<Seq<char>, V>::empty(),
    {
        let r = Table { names: Vec::new(), values: Vec::new() };
        r
    }

    /// The slot of `name`, if the table has one.
    fn find(&self, name: &String) -> (r: Option<usize>)
        requires
            self.inv(),
        ensures
            match r {
                Some(i) => self.at(name@, i as int),
                None => forall|i: int| !self.at(name@, i),
            },
    {
        let mut i: usize = 0;
        while i < self.names.len()
            invariant
                i <= self.names.len(),
                forall|j: int| 0 <= j < i ==> !self.at(name@, j),
            decreases self.names.len() - i,
        {
            if self.names[i] == *name {
                return Some(i);
            }
            i += 1;
        }
        None
    }

    /// Whether the table has an entry for `name`.
    pub fn contains(&self, name: &String) -> (r: bool)
        requires
            self.inv(),
        ensures
            r == self@.contains_key(name@),
    {
        self.find(name).is_some()
    }

    /// The value stored under `name`, if there is one.
    pub fn get(&self, name: &String) -> (r: Option<&V>)
        requires
            self.inv(),
        ensures
            match r {
                Some(value) => self@.contains_key(name@) && *value == self@[name@],
                None => !self@.contains_key(name@),
            },
    {
        match self.find(name) {
            Some(i) => {
                Some(&self.values[i])
            },
            None => None,
        }
    }

    /// What slot `i` holds is what the mapping gives for the name in it.
    proof fn lemma_slot(&self, name: Seq<char>, i: int)
        requires
            self.inv(),
            self.at(name, i),
        ensures
            self@.contains_key(name),
            self@[name] == self.values[i],
    {
    }

    /// A name that the mapping has stands in a slot.
    proof fn lemma_held(&self, name: Seq<char>) -> (i: int)
        requires
            self.inv(),
            self@.contains_key(name),
        ensures
            self.at(name, i),
            self@[name] == self.values[i],
    {
        let i = choose|i: int| self.at(name, i);
        self.lemma_slot(name, i);
        i
    }

    /// Stores `value` under `name`, in place of the value that was there, if any.
    pub fn insert(&mut self, name: String, value: V)
        requires
            old(self).inv(),
        ensures
            final(self).inv(),
            final(self)@ == old(self)@.insert(name@, value),
    {
        let found = self.find(&name);
        let ghost before = *self;
        let ghost slot = match found {
            Some(i) => i as int,
            None => self.names.len() as int,
        };
        match found {
            Some(i) => {
                self.values.set(i, value);
            },
            None => {
                self.names.push(name);
                self.values.push(value);
                assert forall|i: int, j: int|
                    0 <= i < self.names.len() && 0 <= j < self.names.len() && self.names[i]@
                        == self.names[j]@ implies i == j by {
                    if i < slot {
                        assert(!before.at(name@, i));
                    }
                    if j < slot {
                        assert(!before.at(name@, j));
                    }
                }
            },
        }
        proof {
            let goal = before@.insert(name@, value);
            assert forall|other: Seq<char>| self@.contains_key(other) == goal.contains_key(other) by {
                if self@.contains_key(other) && other != name@ {
                    let k = self.lemma_held(other);
                    assert(before.at(other, k));
                }
                if before@.contains_key(other) {
                    let k = before.lemma_held(other);
                    assert(self.at(other, k));
                }
                if other == name@ {
                    self.lemma_slot(name@, slot);
                }
            }
            assert forall|other: Seq<char>| #[trigger] self@.contains_key(other) implies self@[other]
                == goal[other] by {
                let k = self.lemma_held(other);
                if other == name@ {
                } else {
                    before.lemma_slot(other, k);
                }
            }
        }
    }
}

} // verus!
