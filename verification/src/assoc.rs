//! A finite map that keeps its entries in insertion order.
use crate::atom::Atom;
use vstd::prelude::*;

verus! {

/// A finite map from atoms to values. No two entries have keys of the same
/// identity; the entries keep the order in which their keys first came in.
#[derive(Debug)]
pub struct AssocMap<K: Atom, V> {
    pub(crate) entries: Vec<(K, V)>,
}

impl<K: Atom, V> View for AssocMap<K, V> {
    type V = Map<K::Id, V>;

    /// The map from the identity of each key to the value stored with it.
    closed spec fn view(&self) -> Map<K::Id, V> {
        Map::new(
            |k: K::Id| self.keys().contains(k),
            |k: K::Id| self.values()[self.keys().index_of(k)],
        )
    }
}

impl<K: Atom, V> AssocMap<K, V> {
    /// The entries, in their order.
    pub closed spec fn entries(&self) -> Seq<(K, V)> {
        self.entries@
    }

    /// The keys, in the order of the entries.
    pub open spec fn atoms(&self) -> Seq<K> {
        Seq::new(self.entries().len(), |i: int| self.entries()[i].0)
    }

    /// The identities of the keys, in the order of the entries.
    pub open spec fn keys(&self) -> Seq<K::Id> {
        Seq::new(self.entries().len(), |i: int| self.entries()[i].0.id())
    }

    /// The values, in the order of the entries.
    pub open spec fn values(&self) -> Seq<V> {
        Seq::new(self.entries().len(), |i: int| self.entries()[i].1)
    }

    /// No key occurs twice.
    #[verifier::type_invariant]
    pub open spec fn keys_distinct(&self) -> bool {
        self.keys().no_duplicates()
    }

    /// The entry at position `i` is the binding of its key.
    pub proof fn lemma_entry(&self, i: int)
        requires
            self.keys_distinct(),
            0 <= i < self.keys().len(),
        ensures
            self@.dom().contains(self.keys()[i]),
            self@[self.keys()[i]] == self.values()[i],
    {
        let k = self.keys()[i];
        assert(self.keys().contains(k));
        let j = self.keys().index_of(k);
        assert(self.keys()[j] == k);
    }

    /// The domain is the set of the keys, and has one element for each entry.
    pub proof fn lemma_domain(&self)
        requires
            self.keys_distinct(),
        ensures
            self@.dom() == self.keys().to_set(),
            self@.dom().finite(),
            self@.dom().len() == self.keys().len(),
    {
        assert(self@.dom() =~= self.keys().to_set());
        self.keys().unique_seq_to_set();
    }

    /// Every key of the domain stands at some position.
    pub proof fn lemma_position(&self, k: K::Id) -> (i: int)
        requires
            self@.dom().contains(k),
        ensures
            0 <= i < self.keys().len(),
            self.keys()[i] == k,
            self@[k] == self.values()[i],
    {
        assert(self.keys().contains(k));
        self.keys().index_of(k)
    }

    /// A value of the map is structurally smaller than the map.
    pub proof fn lemma_value_decreases(&self, k: K::Id)
        requires
            self@.dom().contains(k),
        ensures
            decreases_to!(*self => self@[k]),
    {
        assert(self.keys().contains(k));
        let i = self.keys().index_of(k);
        assert(decreases_to!(*self => self.entries));
        assert(decreases_to!(self.entries => self.entries@));
        assert(decreases_to!(self.entries@ => self.entries@[i]));
        assert(decreases_to!(self.entries@[i] => self.entries@[i].1));
    }

    /// The value of an entry is structurally smaller than the map.
    pub proof fn lemma_entry_decreases(&self, i: int)
        requires
            0 <= i < self.entries().len(),
        ensures
            decreases_to!(*self => self.entries()[i].1),
    {
        assert(decreases_to!(*self => self.entries));
        assert(decreases_to!(self.entries => self.entries@));
        assert(decreases_to!(self.entries@ => self.entries@[i]));
        assert(decreases_to!(self.entries@[i] => self.entries@[i].1));
    }

    /// The empty map.
    pub fn new() -> (m: Self)
        ensures
            m@ == Map::<K::Id, V>::empty(),
            m.entries() == Seq::<(K, V)>::empty(),
    {
        let m = AssocMap { entries: Vec::new() };
        assert(m.keys() =~= Seq::<K::Id>::empty());
        assert(m@ =~= Map::<K::Id, V>::empty());
        m
    }

    /// The number of entries.
    pub fn len(&self) -> (n: usize)
        ensures
            n == self@.len(),
            n == self.keys().len(),
            n == self.entries().len(),
    {
        proof {
            use_type_invariant(self);
            self.lemma_domain();
        }
        self.entries.len()
    }

    /// Whether the map has no entry.
    pub fn is_empty(&self) -> (b: bool)
        ensures
            b == (self@ == Map::<K::Id, V>::empty()),
            b == (self@.len() == 0),
    {
        proof {
            use_type_invariant(self);
            self.lemma_domain();
            if self.entries.len() == 0 {
                assert(self@ =~= Map::<K::Id, V>::empty());
            } else {
                self.lemma_entry(0);
            }
        }
        self.entries.len() == 0
    }

    /// The key of the entry at position `i`.
    pub fn key_at(&self, i: usize) -> (k: &K)
        requires
            i < self.keys().len(),
        ensures
            *k == self.entries()[i as int].0,
            k.id() == self.keys()[i as int],
    {
        &self.entries[i].0
    }

    /// The value of the entry at position `i`.
    pub fn value_at(&self, i: usize) -> (v: &V)
        requires
            i < self.keys().len(),
        ensures
            *v == self.entries()[i as int].1,
            *v == self.values()[i as int],
            self@.dom().contains(self.keys()[i as int]),
            *v == self@[self.keys()[i as int]],
    {
        proof {
            use_type_invariant(self);
            self.lemma_entry(i as int);
        }
        &self.entries[i].1
    }

    /// The position of the entry with the key `key`, if there is one.
    pub fn position(&self, key: &K) -> (found: Option<usize>)
        ensures
            match found {
                Some(i) => i < self.keys().len() && self.keys()[i as int] == key.id(),
                None => !self.keys().contains(key.id()),
            },
    {
        let mut i: usize = 0;
        while i < self.entries.len()
            invariant
                i <= self.entries.len(),
                self.entries.len() == self.keys().len(),
                forall|j: int| 0 <= j < i ==> self.keys()[j] != key.id(),
            decreases self.entries.len() - i,
        {
            if self.entries[i].0.same(key) {
                return Some(i);
            }
            i += 1;
        }
        None
    }

    /// Whether some entry has the key `key`.
    pub fn contains_key(&self, key: &K) -> (b: bool)
        ensures
            b == self@.dom().contains(key.id()),
    {
        self.position(key).is_some()
    }

    /// The value stored with `key`, if there is one.
    pub fn get(&self, key: &K) -> (found: Option<&V>)
        ensures
            match found {
                Some(v) => self@.dom().contains(key.id()) && *v == self@[key.id()],
                None => !self@.dom().contains(key.id()),
            },
    {
        match self.position(key) {
            Some(i) => {
                proof {
                    use_type_invariant(self);
                    self.lemma_entry(i as int);
                }
                Some(&self.entries[i].1)
            },
            None => None,
        }
    }

    /// Whether the two maps have the same keys.
    pub fn same_keys<W>(&self, other: &AssocMap<K, W>) -> (b: bool)
        ensures
            b == (self@.dom() == other@.dom()),
    {
        proof {
            use_type_invariant(self);
            use_type_invariant(other);
            self.lemma_domain();
            other.lemma_domain();
        }
        if self.entries.len() != other.entries.len() {
            return false;
        }
        let mut i: usize = 0;
        while i < self.entries.len()
            invariant
                i <= self.entries.len(),
                self.entries.len() == self.keys().len(),
                forall|j: int| 0 <= j < i ==> other@.dom().contains(#[trigger] self.keys()[j]),
            decreases self.entries.len() - i,
        {
            if !other.contains_key(&self.entries[i].0) {
                proof {
                    use_type_invariant(self);
                    self.lemma_entry(i as int);
                }
                return false;
            }
            i += 1;
        }
        proof {
            assert(self@.dom().subset_of(other@.dom())) by {
                assert forall|k: K::Id| self@.dom().contains(k) implies other@.dom().contains(
                    k,
                ) by {
                    let p = self.lemma_position(k);
                    assert(other@.dom().contains(self.keys()[p]));
                }
            }
            vstd::set_lib::lemma_subset_equality(self@.dom(), other@.dom());
        }
        true
    }

    /// Binds `key` to `value`. A binding that `key` had before is replaced
    /// and keeps its position; a new key goes to the end.
    pub fn insert(&mut self, key: K, value: V)
        ensures
            final(self)@ == old(self)@.insert(key.id(), value),
    {
        proof {
            use_type_invariant(&*self);
        }
        let ghost before = *self;
        let ghost k = key.id();
        let found = self.position(&key);
        let mut taken = AssocMap { entries: Vec::new() };
        assert(taken.keys() =~= Seq::<K::Id>::empty());
        std::mem::swap(self, &mut taken);
        let AssocMap { entries } = taken;
        let mut entries = entries;
        match found {
            Some(i) => {
                entries.set(i, (key, value));
                proof {
                    let probe = AssocMap { entries };
                    assert(probe.keys() =~= before.keys());
                }
                let after = AssocMap { entries };
                assert(after.keys() =~= before.keys());
                assert(after.values() =~= before.values().update(i as int, value));
                assert(after@ =~= before@.insert(k, value)) by {
                    assert forall|x: K::Id| after@.dom().contains(x) implies #[trigger] after@[x]
                        == before@.insert(k, value)[x] by {
                        let j = after.keys().index_of(x);
                        assert(after.keys()[j] == x);
                    }
                }
                *self = after;
            },
            None => {
                entries.push((key, value));
                proof {
                    let probe = AssocMap { entries };
                    assert(probe.keys() =~= before.keys().push(k));
                }
                let after = AssocMap { entries };
                assert(after.keys() =~= before.keys().push(k));
                assert(after.values() =~= before.values().push(value));
                assert(after@ =~= before@.insert(k, value)) by {
                    assert forall|x: K::Id| after@.dom().contains(x) implies before@.insert(
                        k,
                        value,
                    ).dom().contains(x) by {
                        let j = after.keys().index_of(x);
                        assert(after.keys()[j] == x);
                        if j < before.keys().len() {
                            assert(before.keys()[j] == x);
                        }
                    }
                    assert forall|x: K::Id| before@.insert(k, value).dom().contains(
                        x,
                    ) implies after@.dom().contains(x) by {
                        if x == k {
                            assert(after.keys()[before.keys().len() as int] == k);
                        } else {
                            let j = before.keys().index_of(x);
                            assert(after.keys()[j] == x);
                        }
                    }
                    assert forall|x: K::Id| after@.dom().contains(x) implies #[trigger] after@[x]
                        == before@.insert(k, value)[x] by {
                        let j = after.keys().index_of(x);
                        assert(after.keys()[j] == x);
                        if x != k {
                            let j2 = before.keys().index_of(x);
                            assert(before.keys()[j2] == x);
                            assert(after.keys()[j2] == x);
                        }
                    }
                }
                *self = after;
            },
        }
    }
}

} // verus!
