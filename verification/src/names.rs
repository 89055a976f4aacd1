//! A map from names to values that keeps its entries in the order of their
//! names.

use vstd::prelude::*;
use crate::text::{lemma_lt_irreflexive, lemma_lt_total, lemma_lt_transitive, precedes, text_lt};

verus! {

/// Whether every name in the sequence comes before all the names after it.
pub open spec fn ascending(names: Seq<Seq<char>>) -> bool {
    forall|i: int, j: int| 0 <= i < j < names.len() ==> text_lt(#[trigger] names[i], #[trigger] names[j])
}

/// A map keyed by name. Its entries are kept in ascending order of their
/// names, and no name occurs twice.
pub struct NameMap<V> {
    entries: Vec<(String, V)>,
}

impl<V> NameMap<V> {
    /// The names of the entries, in the order in which they are walked.
    pub closed spec fn names(&self) -> Seq<Seq<char>> {
        Seq::new(self.entries@.len(), |i: int| self.entries@[i].0@)
    }

    /// The values of the entries, in the order of their names.
    pub closed spec fn items(&self) -> Seq<V> {
        Seq::new(self.entries@.len(), |i: int| self.entries@[i].1)
    }

    #[verifier::type_invariant]
    spec fn ordered(&self) -> bool {
        ascending(self.names())
    }

    /// Whether the map has an entry of that name.
    pub open spec fn has(&self, name: Seq<char>) -> bool {
        self.names().contains(name)
    }

    /// The value stored under a name that the map has.
    pub open spec fn item(&self, name: Seq<char>) -> V
        recommends
            self.has(name),
    {
        self.items()[self.names().index_of(name)]
    }

    /// The number of entries.
    pub open spec fn count(&self) -> nat {
        self.names().len()
    }

    /// In an ascending sequence a name stands at one place only.
    pub proof fn lemma_place(names: Seq<Seq<char>>, i: int)
        requires
            ascending(names),
            0 <= i < names.len(),
        ensures
            names.index_of(names[i]) == i,
            names.contains(names[i]),
    {
        let k = names.index_of(names[i]);
        assert(names.contains(names[i]));
        lemma_lt_irreflexive(names[i]);
        if k < i {
            assert(text_lt(names[k], names[i]));
        } else if i < k {
            assert(text_lt(names[i], names[k]));
        }
    }

    /// A map without entries.
    pub fn new() -> (r: Self)
        ensures
            r.names() == Seq::<Seq<char>>::empty(),
            r.items() == Seq::<V>::empty(),
    {
        let r = NameMap { entries: Vec::new() };
        assert(r.names() =~= Seq::<Seq<char>>::empty());
        assert(r.items() =~= Seq::<V>::empty());
        r
    }

    /// The number of entries.
    pub fn len(&self) -> (n: usize)
        ensures
            n == self.count(),
            self.items().len() == self.count(),
            ascending(self.names()),
    {
        proof {
            use_type_invariant(self);
        }
        self.entries.len()
    }

    /// The name of the entry at a position in name order.
    pub fn name_at(&self, i: usize) -> (r: &String)
        requires
            i < self.count(),
        ensures
            r@ == self.names()[i as int],
    {
        &self.entries[i].0
    }

    /// The value of the entry at a position in name order.
    pub fn item_at(&self, i: usize) -> (r: &V)
        requires
            i < self.count(),
        ensures
            *r == self.items()[i as int],
    {
        &self.entries[i].1
    }

    /// Where a name stands, or where it would have to be put.
    fn place(&self, name: &str) -> (r: Result<usize, usize>)
        ensures
            match r {
                Ok(i) => i < self.count() && self.names()[i as int] == name@,
                Err(i) => {
                    &&& i <= self.count()
                    &&& !self.has(name@)
                    &&& forall|j: int| 0 <= j < i ==> text_lt(#[trigger] self.names()[j], name@)
                    &&& forall|j: int| i <= j < self.count() ==> text_lt(name@, #[trigger] self.names()[j])
                },
            },
    {
        proof {
            use_type_invariant(self);
        }
        let mut i: usize = 0;
        while i < self.entries.len()
            invariant
                i <= self.entries.len(),
                ascending(self.names()),
                forall|j: int| 0 <= j < i ==> text_lt(#[trigger] self.names()[j], name@),
            decreases self.entries.len() - i,
        {
            let key = self.entries[i].0.as_str();
            assert(key@ == self.names()[i as int]);
            if !precedes(key, name) {
                proof {
                    lemma_lt_total(key@, name@);
                }
                if precedes(name, key) {
                    proof {
                        Self::lemma_absent(self.names(), name@, i as int);
                    }
                    return Err(i);
                }
                return Ok(i);
            }
            i = i + 1;
        }
        proof {
            Self::lemma_absent(self.names(), name@, i as int);
        }
        Err(i)
    }

    /// A name that falls between two neighbours is not in the sequence.
    proof fn lemma_absent(names: Seq<Seq<char>>, name: Seq<char>, i: int)
        requires
            ascending(names),
            0 <= i <= names.len(),
            forall|j: int| 0 <= j < i ==> text_lt(#[trigger] names[j], name),
            i < names.len() ==> text_lt(name, names[i]),
        ensures
            !names.contains(name),
            forall|j: int| i <= j < names.len() ==> text_lt(name, #[trigger] names[j]),
    {
        lemma_lt_irreflexive(name);
        assert forall|j: int| i <= j < names.len() implies text_lt(name, #[trigger] names[j]) by {
            if i < j {
                lemma_lt_transitive(name, names[i], names[j]);
            }
        }
    }

    /// A name put between the names before and after it keeps the order.
    proof fn lemma_insert_ascending(before: Seq<Seq<char>>, name: Seq<char>, i: int)
        requires
            ascending(before),
            0 <= i <= before.len(),
            forall|j: int| 0 <= j < i ==> text_lt(#[trigger] before[j], name),
            forall|j: int| i <= j < before.len() ==> text_lt(name, #[trigger] before[j]),
        ensures
            ascending(before.insert(i, name)),
    {
        let after = before.insert(i, name);
        assert forall|a: int, b: int| 0 <= a < b < after.len() implies text_lt(
            #[trigger] after[a],
            #[trigger] after[b],
        ) by {
            let pa = if a < i { a } else { a - 1 };
            let pb = if b < i { b } else { b - 1 };
            if a != i && b != i {
                assert(text_lt(before[pa], before[pb]));
            } else if a == i {
                assert(after[b] == before[pb]);
            } else {
                assert(after[a] == before[pa]);
            }
        }
    }

    /// Taking a name out keeps the order of the others.
    proof fn lemma_remove_ascending(before: Seq<Seq<char>>, i: int)
        requires
            ascending(before),
            0 <= i < before.len(),
        ensures
            ascending(before.remove(i)),
    {
        let after = before.remove(i);
        assert forall|a: int, b: int| 0 <= a < b < after.len() implies text_lt(
            #[trigger] after[a],
            #[trigger] after[b],
        ) by {
            let pa = if a < i { a } else { a + 1 };
            let pb = if b < i { b } else { b + 1 };
            assert(text_lt(before[pa], before[pb]));
        }
    }

    /// Whether the map has an entry of that name.
    pub fn contains(&self, name: &str) -> (r: bool)
        ensures
            r == self.has(name@),
    {
        match self.place(name) {
            Ok(_) => true,
            Err(_) => false,
        }
    }

    /// The value stored under a name, if there is one.
    pub fn get(&self, name: &str) -> (r: Option<&V>)
        ensures
            r matches Some(v) ==> self.has(name@) && *v == self.item(name@),
            r is None ==> !self.has(name@),
    {
        proof {
            use_type_invariant(self);
        }
        match self.place(name) {
            Ok(i) => {
                proof {
                    Self::lemma_place(self.names(), i as int);
                }
                Some(&self.entries[i].1)
            },
            Err(_) => None,
        }
    }

    /// Stores a value under a name. An entry of that name is replaced, and its
    /// former value is handed back.
    pub fn insert(&mut self, name: &str, value: V) -> (r: Option<V>)
        ensures
            final(self).has(name@),
            final(self).item(name@) == value,
            forall|other: Seq<char>| other != name@ ==> (final(self).has(other) <==> old(self).has(other)),
            forall|other: Seq<char>| other != name@ && old(self).has(other) ==> final(self).item(other) == old(self).item(other),
            r == (if old(self).has(name@) { Some(old(self).item(name@)) } else { None::<V> }),
            final(self).count() == old(self).count() + (if old(self).has(name@) { 0nat } else { 1nat }),
    {
        proof {
            use_type_invariant(&*self);
        }
        let ghost before = self.names();
        let ghost before_items = self.items();
        match self.place(name) {
            Ok(i) => {
                let mut entries: Vec<(String, V)> = Vec::new();
                assert(ascending(Seq::new(entries@.len(), |j: int| entries@[j].0@)));
                std::mem::swap(&mut self.entries, &mut entries);
                let (key, former) = entries.remove(i);
                entries.insert(i, (key, value));
                assert(Seq::new(entries@.len(), |j: int| entries@[j].0@) =~= before);
                std::mem::swap(&mut self.entries, &mut entries);
                proof {
                    assert(self.names() =~= before);
                    assert(self.items() =~= before_items.update(i as int, value));
                    Self::lemma_place(before, i as int);
                    assert forall|other: Seq<char>| other != name@ && before.contains(other)
                        implies self.item(other) == before_items[before.index_of(other)] by {
                        let k = before.index_of(other);
                        assert(k != i);
                    }
                }
                Some(former)
            },
            Err(i) => {
                let mut entries: Vec<(String, V)> = Vec::new();
                assert(ascending(Seq::new(entries@.len(), |j: int| entries@[j].0@)));
                std::mem::swap(&mut self.entries, &mut entries);
                entries.insert(i, (name.to_owned(), value));
                proof {
                    let after = Seq::new(entries@.len(), |j: int| entries@[j].0@);
                    assert(after =~= before.insert(i as int, name@));
                    Self::lemma_insert_ascending(before, name@, i as int);
                }
                std::mem::swap(&mut self.entries, &mut entries);
                proof {
                    let after = self.names();
                    assert(after =~= before.insert(i as int, name@));
                    assert(self.items() =~= before_items.insert(i as int, value));
                    Self::lemma_place(after, i as int);
                    assert forall|other: Seq<char>| other != name@ implies (after.contains(other)
                        <==> before.contains(other)) by {
                        if before.contains(other) {
                            let k = before.index_of(other);
                            let q = if k < i { k } else { k + 1 };
                            assert(after[q] == other);
                        }
                        if after.contains(other) {
                            let k = after.index_of(other);
                            let q = if k < i { k } else { k - 1 };
                            assert(before[q] == other);
                        }
                    }
                    assert forall|other: Seq<char>| other != name@ && before.contains(other)
                        implies self.item(other) == before_items[before.index_of(other)] by {
                        let k = before.index_of(other);
                        let q = if k < i { k } else { k + 1 };
                        assert(after[q] == other);
                        Self::lemma_place(after, q);
                    }
                }
                None
            },
        }
    }

    /// Takes the entry of a name out of the map and hands its value back.
    pub fn remove(&mut self, name: &str) -> (r: Option<V>)
        ensures
            !final(self).has(name@),
            forall|other: Seq<char>| other != name@ ==> (final(self).has(other) <==> old(self).has(other)),
            forall|other: Seq<char>| other != name@ && old(self).has(other) ==> final(self).item(other) == old(self).item(other),
            r == (if old(self).has(name@) { Some(old(self).item(name@)) } else { None::<V> }),
            final(self).count() + (if old(self).has(name@) { 1nat } else { 0nat }) == old(self).count(),
    {
        proof {
            use_type_invariant(&*self);
        }
        let ghost before = self.names();
        let ghost before_items = self.items();
        match self.place(name) {
            Ok(i) => {
                let mut entries: Vec<(String, V)> = Vec::new();
                assert(ascending(Seq::new(entries@.len(), |j: int| entries@[j].0@)));
                std::mem::swap(&mut self.entries, &mut entries);
                let (_, former) = entries.remove(i);
                proof {
                    let after = Seq::new(entries@.len(), |j: int| entries@[j].0@);
                    assert(after =~= before.remove(i as int));
                    Self::lemma_remove_ascending(before, i as int);
                }
                std::mem::swap(&mut self.entries, &mut entries);
                proof {
                    let after = self.names();
                    assert(after =~= before.remove(i as int));
                    assert(self.items() =~= before_items.remove(i as int));
                    Self::lemma_place(before, i as int);
                    lemma_lt_irreflexive(name@);
                    if after.contains(name@) {
                        let k = after.index_of(name@);
                        let q = if k < i { k } else { k + 1 };
                        assert(before[q] == name@);
                        Self::lemma_place(before, q);
                    }
                    assert forall|other: Seq<char>| other != name@ implies (after.contains(other)
                        <==> before.contains(other)) by {
                        if before.contains(other) {
                            let k = before.index_of(other);
                            let q = if k < i { k } else { k - 1 };
                            assert(after[q] == other);
                        }
                        if after.contains(other) {
                            let k = after.index_of(other);
                            let q = if k < i { k } else { k + 1 };
                            assert(before[q] == other);
                        }
                    }
                    assert forall|other: Seq<char>| other != name@ && before.contains(other)
                        implies self.item(other) == before_items[before.index_of(other)] by {
                        let k = before.index_of(other);
                        let q = if k < i { k } else { k - 1 };
                        assert(after[q] == other);
                        Self::lemma_place(after, q);
                    }
                }
                Some(former)
            },
            Err(_) => None,
        }
    }
}

} // verus!
