//! A small table from names to values that keeps the order of insertion and
//! holds each name once.

use vstd::prelude::*;

verus! {

/// Entries in insertion order, no name twice.
#[derive(Debug)]
pub struct NameTable<V> {
    entries: Vec<(String, V)>,
}

impl<V> NameTable<V> {
    /// The names, in table order.
    pub closed spec fn names(&self) -> Seq<Seq<char>> {
        Seq::new(self.entries@.len(), |i: int| self.entries@[i].0@)
    }

    /// The values, in table order: `values()[i]` belongs to `names()[i]`.
    pub closed spec fn values(&self) -> Seq<V> {
        Seq::new(self.entries@.len(), |i: int| self.entries@[i].1)
    }

    /// What every table satisfies: as many names as values, no name twice.
    #[verifier::type_invariant]
    pub open spec fn wf(&self) -> bool {
        &&& self.names().len() == self.values().len()
        &&& self.names().no_duplicates()
    }

    /// Whether the table holds `name`.
    pub open spec fn contains(&self, name: Seq<char>) -> bool {
        self.names().contains(name)
    }

    /// The value stored under `name`, if any.
    pub open spec fn lookup(&self, name: Seq<char>) -> Option<V> {
        if self.names().contains(name) {
            Some(self.values()[self.names().index_of(name)])
        } else {
            None
        }
    }

    /// An empty table.
    pub fn new() -> (r: Self)
        ensures
            r.names() == Seq::<Seq<char>>::empty(),
            r.values() == Seq::<V>::empty(),
    {
        let r = NameTable { entries: Vec::new() };
        assert(r.names() =~= Seq::<Seq<char>>::empty());
        assert(r.values() =~= Seq::<V>::empty());
        r
    }

    /// The number of entries.
    pub fn len(&self) -> (r: usize)
        ensures
            r == self.names().len(),
            r == self.values().len(),
            self.wf(),
    {
        proof {
            use_type_invariant(self);
        }
        self.entries.len()
    }

    /// The name of entry `i`.
    pub fn name_at(&self, i: usize) -> (r: &String)
        requires
            i < self.names().len(),
        ensures
            r@ == self.names()[i as int],
    {
        &self.entries[i].0
    }

    /// The value of entry `i`.
    pub fn value_at(&self, i: usize) -> (r: &V)
        requires
            i < self.values().len(),
        ensures
            *r == self.values()[i as int],
    {
        &self.entries[i].1
    }

    /// Where `name` stands in the table, if it does.
    pub fn position(&self, name: &String) -> (r: Option<usize>)
        ensures
            self.wf(),
            match r {
                Some(i) => i < self.names().len() && self.names()[i as int] == name@
                    && self.names().index_of(name@) == i,
                None => !self.contains(name@),
            },
    {
        proof {
            use_type_invariant(self);
        }
        let mut i: usize = 0;
        while i < self.entries.len()
            invariant
                self.wf(),
                0 <= i <= self.entries@.len(),
                forall|j: int| 0 <= j < i ==> self.names()[j] != name@,
            decreases self.entries@.len() - i,
        {
            if self.entries[i].0 == *name {
                assert(self.names()[i as int] == name@);
                return Some(i);
            }
            i += 1;
        }
        assert(self.names().len() == self.entries@.len());
        None
    }

    /// The value stored under `name`, if any.
    pub fn get(&self, name: &String) -> (r: Option<&V>)
        ensures
            match r {
                Some(v) => self.lookup(name@) == Some(*v),
                None => self.lookup(name@) is None,
            },
    {
        match self.position(name) {
            Some(i) => Some(&self.entries[i].1),
            None => None,
        }
    }

    /// Stores `value` under `name`. A name already present keeps its place
    /// and gets the new value; a new name goes to the end. Nothing else
    /// changes.
    pub fn insert(&mut self, name: String, value: V)
        ensures
            final(self).lookup(name@) == Some(value),
            old(self).contains(name@) ==> {
                &&& final(self).names() == old(self).names()
                &&& final(self).values() == old(self).values().update(
                    old(self).names().index_of(name@),
                    value,
                )
            },
            !old(self).contains(name@) ==> {
                &&& final(self).names() == old(self).names().push(name@)
                &&& final(self).values() == old(self).values().push(value)
            },
            forall|other: Seq<char>|
                other != name@ ==> final(self).lookup(other) == old(self).lookup(other),
    {
        let ghost key = name@;
        let ghost before = *self;
        proof {
            use_type_invariant(&*self);
        }
        let found = self.position(&name);
        let mut entries: Vec<(String, V)> = Vec::new();
        core::mem::swap(&mut self.entries, &mut entries);
        match found {
            Some(i) => {
                entries.set(i, (name, value));
            },
            None => {
                entries.push((name, value));
            },
        }
        proof {
            let after = NameTable { entries };
            match found {
                Some(i) => {
                    assert(after.names() =~= before.names());
                    assert(after.values() =~= before.values().update(i as int, value));
                },
                None => {
                    assert(after.names() =~= before.names().push(key));
                    assert(after.values() =~= before.values().push(value));
                    assert(after.names()[after.names().len() - 1] == key);
                },
            }
            assert(after.names().no_duplicates());
        }
        core::mem::swap(&mut self.entries, &mut entries);
        assert forall|other: Seq<char>| other != key implies self.lookup(other) == before.lookup(
            other,
        ) by {
            if before.names().contains(other) {
                let j = before.names().index_of(other);
                assert(self.names()[j] == other);
            }
            if self.names().contains(other) {
                let j = self.names().index_of(other);
                assert(before.names()[j] == other);
            }
        }
    }

    /// Removes the entry of `name` and returns its value. The other entries
    /// keep their order.
    pub fn remove(&mut self, name: &String) -> (r: Option<V>)
        ensures
            r == old(self).lookup(name@),
            !final(self).contains(name@),
            old(self).contains(name@) ==> {
                &&& final(self).names() == old(self).names().remove(
                    old(self).names().index_of(name@),
                )
                &&& final(self).values() == old(self).values().remove(
                    old(self).names().index_of(name@),
                )
            },
            !old(self).contains(name@) ==> {
                &&& final(self).names() == old(self).names()
                &&& final(self).values() == old(self).values()
            },
            forall|other: Seq<char>|
                other != name@ ==> final(self).lookup(other) == old(self).lookup(other),
    {
        let ghost before = *self;
        proof {
            use_type_invariant(&*self);
        }
        let found = self.position(name);
        let mut entries: Vec<(String, V)> = Vec::new();
        core::mem::swap(&mut self.entries, &mut entries);
        let removed = match found {
            Some(i) => Some(entries.remove(i).1),
            None => None,
        };
        proof {
            let after = NameTable { entries };
            match found {
                Some(i) => {
                    assert(after.names() =~= before.names().remove(i as int));
                    assert(after.values() =~= before.values().remove(i as int));
                    assert forall|a: int, b: int|
                        0 <= a < after.names().len() && 0 <= b < after.names().len() && a
                            != b implies after.names()[a] != after.names()[b] by {
                        let a0 = if a < i { a } else { a + 1 };
                        let b0 = if b < i { b } else { b + 1 };
                        assert(after.names()[a] == before.names()[a0]);
                        assert(after.names()[b] == before.names()[b0]);
                    }
                },
                None => {
                    assert(after.names() =~= before.names());
                    assert(after.values() =~= before.values());
                },
            }
        }
        core::mem::swap(&mut self.entries, &mut entries);
        proof {
            if let Some(i) = found {
                assert forall|a: int| 0 <= a < self.names().len() implies self.names()[a]
                    != name@ by {
                    let a0 = if a < i { a } else { a + 1 };
                    assert(self.names()[a] == before.names()[a0]);
                }
            }
        }
        assert forall|other: Seq<char>| other != name@ implies self.lookup(other) == before.lookup(
            other,
        ) by {
            if before.names().contains(name@) {
                let i = before.names().index_of(name@);
                if before.names().contains(other) {
                    let j = before.names().index_of(other);
                    let j1 = if j < i { j } else { j - 1 };
                    assert(self.names()[j1] == other);
                    assert(self.names().index_of(other) == j1);
                }
                if self.names().contains(other) {
                    let j = self.names().index_of(other);
                    let j0 = if j < i { j } else { j + 1 };
                    assert(before.names()[j0] == other);
                }
            }
        }
        removed
    }
}

impl<V: Clone> Clone for NameTable<V> {
    /// A table with the same names in the same order, each with a clone of
    /// its value.
    fn clone(&self) -> (r: Self)
        ensures
            r.names() == self.names(),
            r.values().len() == self.values().len(),
            forall|i: int|
                0 <= i < self.values().len() ==> cloned(
                    #[trigger] self.values()[i],
                    r.values()[i],
                ),
    {
        proof {
            use_type_invariant(self);
        }
        let mut entries: Vec<(String, V)> = Vec::new();
        let mut i: usize = 0;
        while i < self.entries.len()
            invariant
                0 <= i <= self.entries@.len(),
                entries@.len() == i,
                forall|j: int| 0 <= j < i ==> (#[trigger] entries@[j]).0@ == self.entries@[j].0@,
                forall|j: int|
                    0 <= j < i ==> cloned(self.entries@[j].1, (#[trigger] entries@[j]).1),
            decreases self.entries@.len() - i,
        {
            let name = self.entries[i].0.clone();
            let value = self.entries[i].1.clone();
            entries.push((name, value));
            i += 1;
        }
        proof {
            let after = NameTable { entries };
            assert(after.names() =~= self.names());
        }
        NameTable { entries }
    }
}

} // verus!
