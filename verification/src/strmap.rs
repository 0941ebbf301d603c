//! A map keyed by strings, kept as a list of entries with distinct keys, in the
//! order in which the keys were first inserted.

use vstd::prelude::*;

verus! {

/// A finite map from strings to values, kept in insertion order.
pub struct StrMap<V> {
    entries: Vec<(String, V)>,
}

impl<V> StrMap<V> {
    /// The keys, in insertion order.
    pub closed spec fn key_seq(&self) -> Seq<Seq<char>> {
        Seq::new(self.entries@.len(), |i: int| self.entries@[i].0@)
    }

    /// The values, in the order of their keys.
    pub closed spec fn value_seq(&self) -> Seq<V> {
        Seq::new(self.entries@.len(), |i: int| self.entries@[i].1)
    }

    /// Well-formedness: no key occurs twice.
    pub closed spec fn wf(&self) -> bool {
        self.key_seq().no_duplicates()
    }

    /// The map seen as a sequence of (key, value) pairs in insertion order.
    pub open spec fn pair_seq(&self) -> Seq<(Seq<char>, V)> {
        Seq::new(self.key_seq().len(), |i: int| (self.key_seq()[i], self.value_seq()[i]))
    }

    /// Every map has as many keys as values, and no key occurs twice.
    pub proof fn lemma_shape(&self)
        requires
            self.wf(),
        ensures
            self.key_seq().len() == self.value_seq().len(),
            self.key_seq().no_duplicates(),
            self@.dom() == self.key_seq().to_set(),
            self@.len() == self.key_seq().len(),
            forall|i: int|
                0 <= i < self.key_seq().len() ==> #[trigger] self@[self.key_seq()[i]]
                    == self.value_seq()[i],
    {
        self.lemma_view_at();
        assert(self@.dom() =~= self.key_seq().to_set());
        self.key_seq().unique_seq_to_set();
    }

    /// Each key of the key sequence is in the map.
    pub proof fn lemma_key_present(&self, i: int)
        requires
            0 <= i < self.key_seq().len(),
        ensures
            self@.contains_key(self.key_seq()[i]),
    {
        assert(self.key_seq().contains(self.key_seq()[i]));
    }

    proof fn lemma_view_at(&self)
        requires
            self.wf(),
        ensures
            forall|i: int|
                0 <= i < self.key_seq().len() ==> #[trigger] self@[self.key_seq()[i]]
                    == self.value_seq()[i],
    {
        assert forall|i: int| 0 <= i < self.key_seq().len() implies #[trigger] self@[self.key_seq()[i]]
            == self.value_seq()[i] by {
            let k = self.key_seq()[i];
            assert(self.key_seq().contains(k));
            let j = self.key_seq().index_of(k);
            assert(self.key_seq()[j] == k);
        }
    }

    /// An empty map.
    pub fn new() -> (m: Self)
        ensures
            m.wf(),
            m@ == Map::<Seq<char>, V>::empty(),
            m.key_seq() == Seq::<Seq<char>>::empty(),
            m.value_seq() == Seq::<V>::empty(),
    {
        let m = StrMap { entries: Vec::new() };
        assert(m@ =~= Map::<Seq<char>, V>::empty());
        assert(m.key_seq() =~= Seq::<Seq<char>>::empty());
        assert(m.value_seq() =~= Seq::<V>::empty());
        m
    }

    /// The number of entries.
    pub fn len(&self) -> (n: usize)
        requires
            self.wf(),
        ensures
            n == self@.len(),
            n == self.key_seq().len(),
            n == self.value_seq().len(),
    {
        proof {
            self.lemma_shape();
        }
        self.entries.len()
    }

    /// The position of `key` in insertion order, if it is present.
    pub fn find(&self, key: &str) -> (r: Option<usize>)
        requires
            self.wf(),
        ensures
            match r {
                Some(i) => i < self.key_seq().len() && self.key_seq()[i as int] == key@,
                None => !self.key_seq().contains(key@),
            },
            r is Some <==> self@.contains_key(key@),
    {
        proof {
            self.lemma_shape();
        }
        let k: String = key.to_owned();
        let mut i: usize = 0;
        while i < self.entries.len()
            invariant
                0 <= i <= self.entries@.len(),
                k@ == key@,
                forall|j: int| 0 <= j < i ==> self.key_seq()[j] != key@,
            decreases self.entries@.len() - i,
        {
            if self.entries[i].0 == k {
                return Some(i);
            }
            i = i + 1;
        }
        None
    }

    /// Whether `key` is present.
    pub fn contains_key(&self, key: &str) -> (b: bool)
        requires
            self.wf(),
        ensures
            b == self@.contains_key(key@),
    {
        self.find(key).is_some()
    }

    /// The key at position `i` in insertion order.
    pub fn key_at(&self, i: usize) -> (k: &String)
        requires
            i < self.key_seq().len(),
        ensures
            k@ == self.key_seq()[i as int],
    {
        &self.entries[i].0
    }

    /// The value at position `i` in insertion order.
    pub fn value_at(&self, i: usize) -> (v: &V)
        requires
            i < self.value_seq().len(),
        ensures
            *v == self.value_seq()[i as int],
    {
        &self.entries[i].1
    }

    /// The value stored under `key`, if any.
    pub fn get(&self, key: &str) -> (r: Option<&V>)
        requires
            self.wf(),
        ensures
            match r {
                Some(v) => self@.contains_key(key@) && *v == self@[key@],
                None => !self@.contains_key(key@),
            },
    {
        proof {
            self.lemma_shape();
        }
        match self.find(key) {
            Some(i) => Some(&self.entries[i].1),
            None => None,
        }
    }

    /// Stores `value` under `key`. A key already present keeps its position;
    /// a new key goes last.
    pub fn insert(&mut self, key: String, value: V)
        requires
            old(self).wf(),
        ensures
            final(self).wf(),
            final(self)@ == old(self)@.insert(key@, value),
            old(self)@.contains_key(key@) ==> final(self).key_seq() == old(self).key_seq(),
            old(self)@.contains_key(key@) ==> final(self).value_seq() == old(self).value_seq().update(
                old(self).key_seq().index_of(key@),
                value,
            ),
            !old(self)@.contains_key(key@) ==> final(self).key_seq() == old(self).key_seq().push(
                key@,
            ),
            !old(self)@.contains_key(key@) ==> final(self).value_seq() == old(
                self,
            ).value_seq().push(value),
    {
        proof {
            self.lemma_shape();
        }
        let ghost old_keys = self.key_seq();
        let ghost old_vals = self.value_seq();
        match self.find(key.as_str()) {
            Some(i) => {
                proof {
                    assert(old_keys[old_keys.index_of(key@)] == key@);
                    assert(old_keys.index_of(key@) == i as int);
                }
                self.entries.set(i, (key, value));
                assert(self.key_seq() =~= old_keys);
                assert(self.value_seq() =~= old_vals.update(i as int, value));
            },
            None => {
                self.entries.push((key, value));
                assert(self.key_seq() =~= old_keys.push(key@));
                assert(self.value_seq() =~= old_vals.push(value));
            },
        }
        proof {
            old(self).lemma_shape();
            self.lemma_shape();
            assert(self@.dom() =~= old(self)@.insert(key@, value).dom()) by {
                assert forall|k: Seq<char>| #[trigger] self.key_seq().contains(k) implies k == key@
                    || old_keys.contains(k) by {
                    let j = self.key_seq().index_of(k);
                    if j < old_keys.len() {
                        assert(old_keys[j] == k);
                    }
                }
                assert forall|k: Seq<char>| old_keys.contains(k) || k == key@ implies #[trigger] self.key_seq().contains(k) by {
                    if k == key@ {
                        let j = old_keys.len();
                        if old_keys.contains(key@) {
                            assert(self.key_seq()[old_keys.index_of(key@)] == k);
                        } else {
                            assert(self.key_seq()[j as int] == k);
                        }
                    } else {
                        let j = old_keys.index_of(k);
                        assert(self.key_seq()[j] == k);
                    }
                }
            }
            assert forall|k: Seq<char>| #[trigger] self@.contains_key(k) implies self@[k] == old(self)@.insert(key@, value)[k] by {
                let j = self.key_seq().index_of(k);
                assert(self.key_seq()[j] == k);
                if k != key@ {
                    assert(old_keys[j] == k);
                }
            }
            assert(self@ =~= old(self)@.insert(key@, value));
        }
    }

    /// Replaces the value at position `i`; the keys and their order stay.
    pub fn set_value_at(&mut self, i: usize, value: V)
        requires
            old(self).wf(),
            i < old(self).key_seq().len(),
        ensures
            final(self).wf(),
            final(self).key_seq() == old(self).key_seq(),
            final(self).value_seq() == old(self).value_seq().update(i as int, value),
            final(self)@ == old(self)@.insert(old(self).key_seq()[i as int], value),
    {
        let ghost old_keys = self.key_seq();
        let ghost old_vals = self.value_seq();
        let k = self.entries[i].0.clone();
        self.entries.set(i, (k, value));
        assert(self.key_seq() =~= old_keys);
        assert(self.value_seq() =~= old_vals.update(i as int, value));
        proof {
            old(self).lemma_shape();
            self.lemma_shape();
            assert(self@.dom() =~= old(self)@.insert(old_keys[i as int], value).dom()) by {
                assert(old_keys.contains(old_keys[i as int]));
            }
            assert forall|k: Seq<char>| #[trigger] self@.contains_key(k) implies self@[k] == old(self)@.insert(old_keys[i as int], value)[k] by {
                let j = self.key_seq().index_of(k);
                assert(self.key_seq()[j] == k);
            }
            assert(self@ =~= old(self)@.insert(old_keys[i as int], value));
        }
    }

    /// Removes the entry stored under `key`, giving its value back. The other
    /// entries keep their order.
    pub fn remove(&mut self, key: &str) -> (r: Option<V>)
        requires
            old(self).wf(),
        ensures
            final(self).wf(),
            final(self)@ == old(self)@.remove(key@),
            match r {
                Some(v) => old(self)@.contains_key(key@) && v == old(self)@[key@],
                None => !old(self)@.contains_key(key@),
            },
            match r {
                Some(_) => {
                    &&& final(self).key_seq() == old(self).key_seq().remove(
                        old(self).key_seq().index_of(key@),
                    )
                    &&& final(self).value_seq() == old(self).value_seq().remove(
                        old(self).key_seq().index_of(key@),
                    )
                },
                None => *final(self) == *old(self),
            },
    {
        proof {
            self.lemma_shape();
        }
        let ghost old_keys = self.key_seq();
        let ghost old_vals = self.value_seq();
        match self.find(key) {
            Some(i) => {
                proof {
                    assert(old_keys[old_keys.index_of(key@)] == key@);
                    assert(old_keys.index_of(key@) == i as int);
                }
                let (_, v) = self.entries.remove(i);
                assert(self.key_seq() =~= old_keys.remove(i as int));
                assert(self.value_seq() =~= old_vals.remove(i as int));
                proof {
                    self.lemma_shape();
                    assert forall|k: Seq<char>| #[trigger] self@.contains_key(k) <==> old(self)@.remove(key@).contains_key(k) by {
                        if old_keys.contains(k) && k != key@ {
                            let j = old_keys.index_of(k);
                            if j < i {
                                assert(self.key_seq()[j] == k);
                            } else {
                                assert(self.key_seq()[j - 1] == k);
                            }
                        }
                        if self.key_seq().contains(k) {
                            let j = self.key_seq().index_of(k);
                            if j < i {
                                assert(old_keys[j] == k);
                            } else {
                                assert(old_keys[j + 1] == k);
                            }
                        }
                    }
                    assert forall|k: Seq<char>| #[trigger] self@.contains_key(k) implies self@[k] == old(self)@[k] by {
                        let j = self.key_seq().index_of(k);
                        if j < i {
                            assert(old_keys[j] == k);
                        } else {
                            assert(old_keys[j + 1] == k);
                        }
                    }
                    assert(self@ =~= old(self)@.remove(key@));
                }
                Some(v)
            },
            None => {
                proof {
                    assert(old(self)@.remove(key@) =~= old(self)@);
                }
                None
            },
        }
    }
}

impl<V> View for StrMap<V> {
    type V = Map<Seq<char>, V>;

    closed spec fn view(&self) -> Map<Seq<char>, V> {
        Map::new(
            |k: Seq<char>| self.key_seq().contains(k),
            |k: Seq<char>| self.value_seq()[self.key_seq().index_of(k)],
        )
    }
}

} // verus!
