//! A small associative map.

use vstd::prelude::*;

verus! {

/// A key of an [`AssocMap`]: a value that can be told apart from another by its view.
pub trait MapKey: View {
    /// Whether two keys have the same view.
    fn same_as(&self, other: &Self) -> (res: bool)
        ensures
            res == (self@ == other@),
    ;
}

/// A map from keys to values, told apart by their views.
///
/// The entries stand in one vector, and no two of them have the same key.
#[derive(Debug)]
pub struct AssocMap<K, T> {
    entries: Vec<(K, T)>,
}

impl<K: MapKey, T> View for AssocMap<K, T> {
    type V = Map<K::V, T>;

    open spec fn view(&self) -> Map<K::V, T> {
        Map::new(
            |key: K::V| self.keys().contains(key),
            |key: K::V| self.values()[self.keys().index_of(key)],
        )
    }
}

impl<K: MapKey, T> AssocMap<K, T> {
    /// The keys that have an entry, in the order of the entries.
    pub closed spec fn keys(self) -> Seq<K::V> {
        Seq::new(self.entries@.len(), |i: int| self.entries@[i].0@)
    }

    /// The values of the entries, in the order of the entries.
    pub closed spec fn values(self) -> Seq<T> {
        Seq::new(self.entries@.len(), |i: int| self.entries@[i].1)
    }

    /// No key has two entries.
    pub open spec fn wf(self) -> bool {
        &&& self.keys().no_duplicates()
        &&& self.values().len() == self.keys().len()
    }

    /// The entry at an index is the one that the map gives for its key.
    pub proof fn lemma_entry(self, i: int)
        requires
            self.wf(),
            0 <= i < self.keys().len(),
        ensures
            self@.contains_key(self.keys()[i]),
            self@[self.keys()[i]] == self.values()[i],
    {
        assert(self.keys().contains(self.keys()[i]));
        assert(self.keys()[self.keys().index_of(self.keys()[i])] == self.keys()[i]);
    }

    /// Every key of the map has an entry.
    pub proof fn lemma_index(self, key: K::V) -> (i: int)
        requires
            self.wf(),
            self@.contains_key(key),
        ensures
            0 <= i < self.keys().len(),
            self.keys()[i] == key,
            self.values()[i] == self@[key],
    {
        let i = self.keys().index_of(key);
        assert(self.keys().contains(key));
        i
    }

    /// The map is finite, and has as many keys as there are entries.
    pub proof fn lemma_len(self)
        requires
            self.wf(),
        ensures
            self@.dom().finite(),
            self@.dom().len() == self.keys().len(),
    {
        assert(self@.dom() =~= self.keys().to_set());
        self.keys().unique_seq_to_set();
        vstd::seq_lib::seq_to_set_is_finite(self.keys());
    }

    /// A map without entries.
    pub fn new() -> (res: Self)
        ensures
            res.wf(),
            res.keys().len() == 0,
            res@ == Map::<K::V, T>::empty(),
    {
        let res = AssocMap { entries: Vec::new() };
        assert(res@ =~= Map::<K::V, T>::empty());
        res
    }

    /// How many keys have an entry.
    pub fn len(&self) -> (res: usize)
        requires
            self.wf(),
        ensures
            res == self@.dom().len(),
            res == self.keys().len(),
    {
        proof {
            self.lemma_len();
        }
        self.entries.len()
    }

    /// The key of the entry at an index.
    pub fn key_at(&self, i: usize) -> (res: &K)
        requires
            i < self.keys().len(),
        ensures
            res@ == self.keys()[i as int],
    {
        &self.entries[i].0
    }

    /// The value of the entry at an index.
    pub fn value_at(&self, i: usize) -> (res: &T)
        requires
            i < self.keys().len(),
        ensures
            *res == self.values()[i as int],
    {
        &self.entries[i].1
    }

    /// The index of a key's entry.
    pub fn position(&self, key: &K) -> (res: Option<usize>)
        requires
            self.wf(),
        ensures
            match res {
                Some(i) => i < self.keys().len() && self.keys()[i as int] == key@
                    && self@.contains_key(key@) && self.values()[i as int] == self@[key@],
                None => !self@.contains_key(key@),
            },
    {
        let mut i: usize = 0;
        while i < self.entries.len()
            invariant
                self.wf(),
                i <= self.entries@.len(),
                forall|j: int| 0 <= j < i ==> self.keys()[j] != key@,
            decreases self.entries@.len() - i,
        {
            if self.entries[i].0.same_as(key) {
                proof {
                    self.lemma_entry(i as int);
                }
                return Some(i);
            }
            i = i + 1;
        }
        None
    }

    /// The value of the entry at an index, to be changed in place.
    pub fn value_at_mut(&mut self, i: usize) -> (res: &mut T)
        requires
            old(self).wf(),
            i < old(self).keys().len(),
        ensures
            *res == old(self).values()[i as int],
            final(self).keys() == old(self).keys(),
            final(self).values() == old(self).values().update(i as int, *final(res)),
    {
        &mut self.entries[i].1
    }

    /// Changing the value of an entry changes what the map gives for its key.
    pub proof fn lemma_update(self, before: AssocMap<K, T>, i: int)
        requires
            before.wf(),
            self.wf(),
            0 <= i < before.keys().len(),
            self.keys() == before.keys(),
            self.values() == before.values().update(i, self.values()[i]),
        ensures
            self@ == before@.insert(before.keys()[i], self.values()[i]),
    {
        let expected = before@.insert(before.keys()[i], self.values()[i]);
        before.lemma_entry(i);
        assert(self@.dom() =~= expected.dom());
        assert forall|key: K::V| self@.contains_key(key) implies self@[key]
            == expected[key] by {
            let j = self.lemma_index(key);
            before.lemma_entry(j);
        }
        assert(self@ =~= expected);
    }

    /// Gives a key a value, in place of the one it had if it had one.
    pub fn insert(&mut self, key: K, value: T)
        requires
            old(self).wf(),
        ensures
            final(self).wf(),
            final(self)@ == old(self)@.insert(key@, value),
    {
        let ghost before = *self;
        match self.position(&key) {
            Some(i) => {
                let slot = self.value_at_mut(i);
                *slot = value;
                proof {
                    self.lemma_update(before, i as int);
                }
            },
            None => {
                self.entries.push((key, value));
                proof {
                    let expected = before@.insert(key@, value);
                    let n = before.keys().len() as int;
                    assert(self.keys() =~= before.keys().push(key@));
                    assert(self.values() =~= before.values().push(value));
                    assert(!before.keys().contains(key@));
                    assert(self.keys().no_duplicates());
                    assert forall|other: K::V| self@.contains_key(other)
                        <==> expected.contains_key(other) by {
                        if before.keys().contains(other) {
                            let j = before.lemma_index(other);
                            assert(self.keys()[j] == other);
                        }
                        assert(self.keys()[n] == key@);
                    }
                    assert(self@.dom() =~= expected.dom());
                    assert forall|other: K::V| self@.contains_key(other) implies self@[other]
                        == expected[other] by {
                        let j = self.lemma_index(other);
                        if j < n {
                            before.lemma_entry(j);
                        }
                    }
                    assert(self@ =~= expected);
                }
            },
        }
    }

    /// Takes out the entry at an index. The last entry takes its place.
    pub fn remove_at(&mut self, i: usize)
        requires
            old(self).wf(),
            i < old(self).keys().len(),
        ensures
            final(self).wf(),
            final(self).keys() == old(self).keys().update(
                i as int,
                old(self).keys().last(),
            ).drop_last(),
            final(self).values() == old(self).values().update(
                i as int,
                old(self).values().last(),
            ).drop_last(),
            final(self)@ == old(self)@.remove(old(self).keys()[i as int]),
    {
        let ghost before = *self;
        let ghost gone = self.keys()[i as int];
        self.entries.swap_remove(i);
        proof {
            let last = before.keys().len() - 1;
            let expected = before@.remove(gone);
            assert(self.keys() =~= before.keys().update(
                i as int,
                before.keys().last(),
            ).drop_last());
            assert(self.values() =~= before.values().update(
                i as int,
                before.values().last(),
            ).drop_last());
            assert(self.keys().no_duplicates());
            assert forall|other: K::V| self@.contains_key(other)
                <==> expected.contains_key(other) by {
                if expected.contains_key(other) {
                    let j = before.lemma_index(other);
                    if j == last {
                        assert(self.keys()[i as int] == other);
                    } else {
                        assert(self.keys()[j] == other);
                    }
                }
                if self@.contains_key(other) {
                    let j = self.lemma_index(other);
                    if j == i {
                        before.lemma_entry(last);
                    } else {
                        before.lemma_entry(j);
                    }
                }
            }
            assert(self@.dom() =~= expected.dom());
            assert forall|other: K::V| self@.contains_key(other) implies self@[other]
                == expected[other] by {
                let j = self.lemma_index(other);
                if j == i {
                    before.lemma_entry(last);
                } else {
                    before.lemma_entry(j);
                }
            }
            assert(self@ =~= expected);
        }
    }
}

} // verus!
