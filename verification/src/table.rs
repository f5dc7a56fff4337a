//! A map kept as a list of entries without two equal keys.
use crate::text::{copy_bytes, same_bytes};
use vstd::prelude::*;

verus! {

/// A key that is told apart from others by its view.
pub trait Key: View + Sized {
    /// Whether two keys have the same view.
    fn same(&self, other: &Self) -> (r: bool)
        ensures
            r == (self@ == other@),
    ;

    /// Another key with the same view.
    fn copy(&self) -> (r: Self)
        ensures
            r@ == self@,
    ;
}

impl Key for String {
    fn same(&self, other: &Self) -> (r: bool) {
        *self == *other
    }

    fn copy(&self) -> (r: Self) {
        self.clone()
    }
}

impl Key for Vec<u8> {
    fn same(&self, other: &Self) -> (r: bool) {
        same_bytes(self, other)
    }

    fn copy(&self) -> (r: Self) {
        copy_bytes(self)
    }
}

/// A map from keys to values that also fixes an order of its keys.
#[derive(Debug)]
pub struct Table<K: Key, V> {
    entries: Vec<(K, V)>,
}

impl<K: Key, V> Table<K, V> {
    /// The keys in the order in which they are walked.
    pub closed spec fn order(&self) -> Seq<K::V> {
        self.entries@.map_values(|e: (K, V)| e.0@)
    }

    #[verifier::type_invariant]
    spec fn keys_differ(self) -> bool {
        self.order().no_duplicates()
    }

    /// Each key occurs once in the order, and no other key does.
    pub open spec fn order_lists_keys(&self) -> bool {
        &&& self.order().no_duplicates()
        &&& forall|k: K::V| #[trigger] self.order().contains(k) <==> self@.contains_key(k)
    }

    proof fn entry_at(entries: Seq<(K, V)>, i: int)
        requires
            0 <= i < entries.len(),
            entries.map_values(|e: (K, V)| e.0@).no_duplicates(),
        ensures
            entries.map_values(|e: (K, V)| e.0@).contains(entries[i].0@),
            entries.map_values(|e: (K, V)| e.0@).index_of(entries[i].0@) == i,
    {
        let order = entries.map_values(|e: (K, V)| e.0@);
        assert(order[i] == entries[i].0@);
        assert(order[order.index_of(order[i])] == order[i]);
    }

    /// A table without entries.
    pub fn new() -> (r: Self)
        ensures
            r@ == Map::<K::V, V>::empty(),
            r.order() == Seq::<K::V>::empty(),
    {
        let r = Table { entries: Vec::new() };
        assert(r@ =~= Map::<K::V, V>::empty());
        assert(r.order() =~= Seq::<K::V>::empty());
        r
    }

    fn position(entries: &Vec<(K, V)>, key: &K) -> (r: Option<usize>)
        ensures
            match r {
                Some(i) => i < entries.len() && entries@[i as int].0@ == key@,
                None => forall|j: int| 0 <= j < entries.len() ==> #[trigger] entries@[j].0@ != key@,
            },
    {
        let mut i: usize = 0;
        while i < entries.len()
            invariant
                i <= entries.len(),
                forall|j: int| 0 <= j < i ==> #[trigger] entries@[j].0@ != key@,
            decreases entries.len() - i,
        {
            if entries[i].0.same(key) {
                return Some(i);
            }
            i += 1;
        }
        None
    }

    /// Whether the key has an entry.
    pub fn contains_key(&self, key: &K) -> (r: bool)
        ensures
            r == self@.contains_key(key@),
    {
        self.get(key).is_some()
    }

    /// The value of the key.
    pub fn get(&self, key: &K) -> (r: Option<&V>)
        ensures
            match r {
                Some(v) => self@.contains_key(key@) && *v == self@[key@],
                None => !self@.contains_key(key@),
            },
    {
        proof {
            use_type_invariant(self);
        }
        match Self::position(&self.entries, key) {
            Some(i) => {
                proof {
                    Self::entry_at(self.entries@, i as int);
                }
                Some(&self.entries[i].1)
            },
            None => {
                assert(!self.order().contains(key@)) by {
                    if self.order().contains(key@) {
                        let j = self.order().index_of(key@);
                        assert(self.entries@[j].0@ == key@);
                    }
                }
                None
            },
        }
    }

    /// The number of entries.
    pub fn len(&self) -> (r: usize)
        ensures
            r == self.order().len(),
            self.order_lists_keys(),
    {
        proof {
            use_type_invariant(self);
        }
        self.entries.len()
    }

    /// The key and the value at a place of the order.
    pub fn entry(&self, i: usize) -> (r: (&K, &V))
        requires
            i < self.order().len(),
        ensures
            r.0@ == self.order()[i as int],
            self@.contains_key(r.0@),
            *r.1 == self@[r.0@],
    {
        proof {
            use_type_invariant(self);
            Self::entry_at(self.entries@, i as int);
        }
        let e = &self.entries[i];
        (&e.0, &e.1)
    }

    /// Gives the key a value and hands out the one that it had.
    pub fn insert(&mut self, key: K, value: V) -> (r: Option<V>)
        ensures
            final(self)@ == old(self)@.insert(key@, value),
            match r {
                Some(v) => old(self)@.contains_key(key@) && v == old(self)@[key@],
                None => !old(self)@.contains_key(key@),
            },
    {
        let previous = self.remove(&key);
        proof {
            use_type_invariant(&*self);
        }
        let ghost before = *self;
        let mut entries: Vec<(K, V)> = Vec::new();
        std::mem::swap(&mut entries, &mut self.entries);
        let ghost k = key@;
        entries.push((key, value));
        let ghost order = entries@.map_values(|e: (K, V)| e.0@);
        assert(order =~= before.order().push(k));
        assert(!before@.contains_key(k));
        assert(!before.order().contains(k));
        assert(order.no_duplicates());
        self.entries = entries;
        proof {
            assert forall|x: K::V| #[trigger] self.order().contains(x) <==> before.order().contains(x)
                || x == k by {
                if before.order().contains(x) {
                    assert(order[before.order().index_of(x)] == x);
                }
                if x == k {
                    assert(order[before.order().len() as int] == x);
                }
            }
            assert forall|x: K::V| #[trigger] self@.contains_key(x) implies self@[x] == before@.insert(
                k,
                value,
            )[x] by {
                let i = self.order().index_of(x);
                Self::entry_at(self.entries@, i);
                if x != k {
                    Self::entry_at(before.entries@, i);
                } else {
                    Self::entry_at(self.entries@, before.order().len() as int);
                }
            }
            assert(self@ =~= before@.insert(k, value));
            assert(self@ =~= old(self)@.insert(k, value));
        }
        previous
    }

    /// Drops the key's entry and hands out its value.
    pub fn remove(&mut self, key: &K) -> (r: Option<V>)
        ensures
            final(self)@ == old(self)@.remove(key@),
            match r {
                Some(v) => old(self)@.contains_key(key@) && v == old(self)@[key@],
                None => !old(self)@.contains_key(key@) && *final(self) == *old(self),
            },
    {
        proof {
            use_type_invariant(&*self);
        }
        let ghost before = *self;
        match Self::position(&self.entries, key) {
            Some(i) => {
                let mut entries: Vec<(K, V)> = Vec::new();
                std::mem::swap(&mut entries, &mut self.entries);
                let e = entries.remove(i);
                let ghost order = entries@.map_values(|e: (K, V)| e.0@);
                assert(order =~= before.order().remove(i as int));
                assert(order.no_duplicates());
                self.entries = entries;
                proof {
                    Self::entry_at(before.entries@, i as int);
                    assert forall|x: K::V| #[trigger] self.order().contains(x)
                        <==> before.order().contains(x) && x != key@ by {
                        if before.order().contains(x) && x != key@ {
                            let j = before.order().index_of(x);
                            if j < i {
                                assert(order[j] == x);
                            } else {
                                assert(order[j - 1] == x);
                            }
                        }
                        if order.contains(x) {
                            let j = order.index_of(x);
                            if j < i {
                                assert(before.order()[j] == x);
                            } else {
                                assert(before.order()[j + 1] == x);
                            }
                        }
                    }
                    assert forall|x: K::V| #[trigger] self@.contains_key(x) implies self@[x]
                        == before@[x] by {
                        let j = order.index_of(x);
                        Self::entry_at(self.entries@, j);
                        if j < i {
                            Self::entry_at(before.entries@, j);
                        } else {
                            Self::entry_at(before.entries@, j + 1);
                        }
                    }
                    assert(self@ =~= old(self)@.remove(key@));
                }
                Some(e.1)
            },
            None => {
                assert(!self.order().contains(key@)) by {
                    if self.order().contains(key@) {
                        let j = self.order().index_of(key@);
                        assert(self.entries@[j].0@ == key@);
                    }
                }
                assert(self@ =~= old(self)@.remove(key@));
                None
            },
        }
    }

    /// The keys in their order.
    pub fn keys(&self) -> (r: Vec<K>)
        ensures
            r@.map_values(|k: K| k@) == self.order(),
            self.order_lists_keys(),
    {
        proof {
            use_type_invariant(self);
        }
        let mut r: Vec<K> = Vec::new();
        let mut i: usize = 0;
        while i < self.entries.len()
            invariant
                i <= self.entries.len(),
                r.len() == i,
                forall|j: int| 0 <= j < i ==> #[trigger] r@[j]@ == self.entries@[j].0@,
            decreases self.entries.len() - i,
        {
            r.push(self.entries[i].0.copy());
            i += 1;
        }
        assert(r@.map_values(|k: K| k@) =~= self.order());
        r
    }
}

impl<K: Key, V: Clone> Clone for Table<K, V> {
    fn clone(&self) -> (r: Self)
        ensures
            r.order() == self.order(),
            r@.dom() == self@.dom(),
            forall|k: K::V| #[trigger] r@.contains_key(k) ==> cloned(self@[k], r@[k]),
    {
        proof {
            use_type_invariant(self);
        }
        let mut entries: Vec<(K, V)> = Vec::new();
        let mut i: usize = 0;
        while i < self.entries.len()
            invariant
                i <= self.entries.len(),
                entries.len() == i,
                forall|j: int|
                    0 <= j < i ==> (#[trigger] entries@[j]).0@ == self.entries@[j].0@ && cloned(
                        self.entries@[j].1,
                        entries@[j].1,
                    ),
            decreases self.entries.len() - i,
        {
            entries.push((self.entries[i].0.copy(), self.entries[i].1.clone()));
            i += 1;
        }
        assert(entries@.map_values(|e: (K, V)| e.0@) =~= self.order());
        let r = Table { entries };
        assert(r@.dom() =~= self@.dom());
        assert forall|k: K::V| #[trigger] r@.contains_key(k) implies cloned(self@[k], r@[k]) by {
            let j = self.order().index_of(k);
            assert(cloned(self.entries@[j].1, r.entries@[j].1));
        }
        r
    }
}

impl<K: Key, V> View for Table<K, V> {
    type V = Map<K::V, V>;

    closed spec fn view(&self) -> Map<K::V, V> {
        Map::new(
            |k: K::V| self.order().contains(k),
            |k: K::V| self.entries@[self.order().index_of(k)].1,
        )
    }
}

} // verus!
