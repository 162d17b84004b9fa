//! A small key-value table keyed by byte strings.
//!
//! The table is the storage primitive of the ledger: accounts, contracts, code entries and
//! contract storage are all tables. Its model is a finite map from byte sequences to the
//! views of its values.

use vstd::prelude::*;
use vstd::slice::slice_to_vec;

verus! {

/// Byte-wise equality of two slices.
pub fn bytes_eq(a: &[u8], b: &[u8]) -> (r: bool)
    ensures
        r == (a@ == b@),
{
    if a.len() != b.len() {
        return false;
    }
    let mut i: usize = 0;
    while i < a.len()
        invariant
            a.len() == b.len(),
            i <= a.len(),
            forall|j: int| 0 <= j < i ==> a@[j] == b@[j],
        decreases a.len() - i,
    {
        if a[i] != b[i] {
            return false;
        }
        i += 1;
    }
    assert(a@ =~= b@);
    true
}

/// A value that a table can hold: it has a view, and a validity condition of its own that
/// the table keeps for every value in it.
pub trait Stored: View {
    spec fn valid(&self) -> bool;
}

impl Stored for Vec<u8> {
    open spec fn valid(&self) -> bool {
        true
    }
}

/// Finite map from byte-string keys to values, stored as two parallel vectors.
pub struct Table<V> {
    keys: Vec<Vec<u8>>,
    vals: Vec<V>,
}

impl<V: Stored> Table<V> {
    /// The position of `key` among the stored keys, when it is stored.
    pub closed spec fn index_of(self, key: Seq<u8>) -> int {
        choose|i: int| 0 <= i < self.keys.len() && self.keys[i]@ == key
    }

    /// Representation invariant: one valid value per key, no key stored twice.
    pub closed spec fn wf(self) -> bool {
        &&& self.keys.len() == self.vals.len()
        &&& forall|i: int| 0 <= i < self.vals.len() ==> (#[trigger] self.vals[i]).valid()
        &&& forall|i: int, j: int|
            0 <= i < self.keys.len() && 0 <= j < self.keys.len() && i != j
                ==> self.keys[i]@ != self.keys[j]@
    }

    /// The map this table stands for.
    pub closed spec fn view(self) -> Map<Seq<u8>, V::V> {
        Map::new(
            |k: Seq<u8>| exists|i: int| 0 <= i < self.keys.len() && self.keys[i]@ == k,
            |k: Seq<u8>| self.vals[self.index_of(k)]@,
        )
    }

    proof fn lemma_entry(self, i: int)
        requires
            self.wf(),
            0 <= i < self.keys.len(),
        ensures
            self@.contains_key(self.keys[i]@),
            self.index_of(self.keys[i]@) == i,
            self@[self.keys[i]@] == self.vals[i]@,
    {
        let k = self.keys[i]@;
        assert(0 <= i < self.keys.len() && self.keys[i]@ == k);
    }

    proof fn lemma_dom(self)
        requires
            self.wf(),
        ensures
            self@.dom().finite(),
            self@.dom().len() == self.keys.len(),
    {
        let ks = Seq::new(self.keys.len() as nat, |i: int| self.keys[i]@);
        assert(ks.no_duplicates());
        assert(ks.to_set() =~= self@.dom()) by {
            assert forall|k: Seq<u8>| ks.to_set().contains(k) <==> self@.dom().contains(k) by {
                if ks.contains(k) {
                    let i = choose|i: int| 0 <= i < ks.len() && ks[i] == k;
                    assert(self.keys[i]@ == k);
                }
                if self@.dom().contains(k) {
                    let i = choose|i: int| 0 <= i < self.keys.len() && self.keys[i]@ == k;
                    assert(ks[i] == k);
                }
            }
        }
        ks.unique_seq_to_set();
        vstd::seq_lib::seq_to_set_is_finite(ks);
    }

    /// A table holds finitely many entries.
    pub proof fn lemma_finite(self)
        requires
            self.wf(),
        ensures
            self@.dom().finite(),
    {
        self.lemma_dom();
    }

    /// A table holds no more entries than a machine can count.
    pub proof fn lemma_fits(self)
        requires
            self.wf(),
        ensures
            self@.dom().finite(),
            self@.dom().len() <= usize::MAX,
    {
        self.lemma_dom();
    }

    /// The key at the position `i`, in the order in which the table can be walked.
    pub closed spec fn key_at(self, i: int) -> Seq<u8> {
        self.keys[i]@
    }

    /// The value at the position `i`.
    pub closed spec fn value_at(self, i: int) -> V::V {
        self.vals[i]@
    }

    /// The entries at the positions below `n`, as a map.
    pub closed spec fn first(self, n: int) -> Map<Seq<u8>, V::V> {
        Map::new(
            |k: Seq<u8>| exists|i: int| 0 <= i < n && self.keys[i]@ == k,
            |k: Seq<u8>| self.vals[self.index_of(k)]@,
        )
    }

    /// The entries below a position are finitely many; below the first position there is
    /// none, and below the last all of them.
    pub proof fn lemma_first(self, n: int)
        requires
            self.wf(),
            0 <= n <= self@.dom().len(),
        ensures
            self.first(n).dom().finite(),
            n == 0 ==> self.first(n) == Map::<Seq<u8>, V::V>::empty(),
            n == self@.dom().len() ==> self.first(n) == self@,
        decreases n,
    {
        self.lemma_dom();
        if n == 0 {
            assert(self.first(n) =~= Map::<Seq<u8>, V::V>::empty());
        } else {
            self.lemma_first(n - 1);
            self.lemma_next(n - 1);
        }
        if n == self.keys.len() {
            assert(self.first(n) =~= self@);
        }
    }

    /// The entry at the position `n` is an entry of the table, is none of those below `n`,
    /// and is the one by which the entries below `n + 1` exceed them.
    pub proof fn lemma_next(self, n: int)
        requires
            self.wf(),
            0 <= n < self@.dom().len(),
        ensures
            self@.contains_key(self.key_at(n)),
            self@[self.key_at(n)] == self.value_at(n),
            !self.first(n).contains_key(self.key_at(n)),
            self.first(n + 1) == self.first(n).insert(self.key_at(n), self.value_at(n)),
    {
        self.lemma_dom();
        self.lemma_entry(n);
        assert(self.first(n + 1) =~= self.first(n).insert(self.key_at(n), self.value_at(n))) by {
            let grown = self.first(n).insert(self.key_at(n), self.value_at(n));
            assert forall|k: Seq<u8>| self.first(n + 1).contains_key(k) <==> grown.contains_key(
                k,
            ) by {
                if self.first(n + 1).contains_key(k) {
                    let i = choose|i: int| 0 <= i < n + 1 && self.keys[i]@ == k;
                    if i < n {
                        assert(self.first(n).contains_key(k));
                    }
                }
                if self.first(n).contains_key(k) {
                    let i = choose|i: int| 0 <= i < n && self.keys[i]@ == k;
                    assert(0 <= i < n + 1 && self.keys[i]@ == k);
                }
                if k == self.key_at(n) {
                    assert(0 <= n < n + 1 && self.keys[n]@ == k);
                }
            }
        }
    }

    /// Every entry of the table stands at a position.
    pub proof fn lemma_position(self, key: Seq<u8>)
        requires
            self.wf(),
            self@.contains_key(key),
        ensures
            exists|i: int|
                0 <= i < self@.dom().len() && #[trigger] self.key_at(i) == key && self.value_at(i)
                    == self@[key],
    {
        self.lemma_dom();
        let i = self.index_of(key);
        assert(0 <= i < self.keys.len() && self.key_at(i) == key);
    }

    /// The key and the value at the position `i`.
    pub fn entry(&self, i: usize) -> (r: (&[u8], &V))
        requires
            self.wf(),
            i < self@.dom().len(),
        ensures
            r.0@ == self.key_at(i as int),
            r.1@ == self.value_at(i as int),
            r.1.valid(),
    {
        proof {
            self.lemma_dom();
        }
        (self.keys[i].as_slice(), &self.vals[i])
    }

    /// An empty table.
    pub fn new() -> (t: Table<V>)
        ensures
            t.wf(),
            t@ == Map::<Seq<u8>, V::V>::empty(),
    {
        let t = Table { keys: Vec::new(), vals: Vec::new() };
        assert(t@ =~= Map::<Seq<u8>, V::V>::empty());
        t
    }

    fn find(&self, key: &[u8]) -> (r: Option<usize>)
        requires
            self.wf(),
        ensures
            match r {
                Some(i) => i < self.keys.len() && self.keys[i as int]@ == key@
                    && self@.contains_key(
                    key@,
                ) && self.index_of(key@) == i,
                None => !self@.contains_key(key@),
            },
    {
        let mut i: usize = 0;
        while i < self.keys.len()
            invariant
                self.wf(),
                i <= self.keys.len(),
                forall|j: int| 0 <= j < i ==> self.keys[j]@ != key@,
            decreases self.keys.len() - i,
        {
            if bytes_eq(self.keys[i].as_slice(), key) {
                proof {
                    self.lemma_entry(i as int);
                }
                return Some(i);
            }
            i += 1;
        }
        None
    }

    /// Number of entries.
    pub fn len(&self) -> (n: usize)
        requires
            self.wf(),
        ensures
            self@.dom().finite(),
            n == self@.dom().len(),
    {
        proof {
            self.lemma_dom();
        }
        self.keys.len()
    }

    /// Whether `key` has a value.
    pub fn contains_key(&self, key: &[u8]) -> (r: bool)
        requires
            self.wf(),
        ensures
            r == self@.contains_key(key@),
    {
        self.find(key).is_some()
    }

    /// The value stored under `key`.
    pub fn get(&self, key: &[u8]) -> (r: Option<&V>)
        requires
            self.wf(),
        ensures
            match r {
                Some(v) => self@.contains_key(key@) && v@ == self@[key@] && v.valid(),
                None => !self@.contains_key(key@),
            },
    {
        match self.find(key) {
            Some(i) => {
                proof {
                    self.lemma_entry(i as int);
                }
                Some(&self.vals[i])
            },
            None => None,
        }
    }

    /// Stores `val` under `key` and hands back the value it replaces.
    pub fn insert(&mut self, key: &[u8], val: V) -> (r: Option<V>)
        requires
            old(self).wf(),
            val.valid(),
        ensures
            final(self).wf(),
            final(self)@ == old(self)@.insert(key@, val@),
            match r {
                Some(o) => old(self)@.contains_key(key@) && o@ == old(self)@[key@] && o.valid(),
                None => !old(self)@.contains_key(key@),
            },
    {
        let ghost before = *self;
        match self.find(key) {
            Some(i) => {
                proof {
                    before.lemma_entry(i as int);
                }
                self.vals.push(val);
                let o = self.vals.swap_remove(i);
                proof {
                    let after = *self;
                    assert(after.keys == before.keys);
                    assert(after.vals@ == before.vals@.update(i as int, val));
                    assert(after.wf());
                    assert(after@ =~= before@.insert(key@, val@)) by {
                        assert forall|k: Seq<u8>| after@.contains_key(
                            k) implies #[trigger] after@[k]
                            == before@.insert(key@, val@)[k] by {
                            let j = after.index_of(k);
                            after.lemma_entry(j);
                            before.lemma_entry(j);
                        }
                    }
                }
                Some(o)
            },
            None => {
                self.keys.push(slice_to_vec(key));
                self.vals.push(val);
                proof {
                    let after = *self;
                    let n = before.keys.len() as int;
                    assert(after.keys@ == before.keys@.push(after.keys[n]));
                    assert(after.keys[n]@ == key@);
                    assert(after.wf()) by {
                        assert forall|i: int, j: int|
                            0 <= i < after.keys.len() && 0 <= j < after.keys.len() && i != j
                                implies after.keys[i]@ != after.keys[j]@ by {
                            if i < n {
                                assert(before.keys[i]@ == after.keys[i]@);
                            }
                            if j < n {
                                assert(before.keys[j]@ == after.keys[j]@);
                            }
                        }
                    }
                    assert(after@ =~= before@.insert(key@, val@)) by {
                        assert forall|k: Seq<u8>| after@.contains_key(k) <==> before@.insert(
                            key@,
                            val@,
                        ).contains_key(k) by {
                            if after@.contains_key(k) {
                                let j = choose|j: int| 0 <= j < after.keys.len() && after.keys[j]@
                                    == k;
                                if j < n {
                                    assert(before.keys[j]@ == k);
                                }
                            }
                            if before@.contains_key(k) {
                                let j = choose|j: int|
                                    0 <= j < before.keys.len() && before.keys[j]@ == k;
                                assert(after.keys[j]@ == k);
                            }
                            if k == key@ {
                                assert(after.keys[n]@ == k);
                            }
                        }
                        assert forall|k: Seq<u8>| after@.contains_key(
                            k) implies #[trigger] after@[k]
                            == before@.insert(key@, val@)[k] by {
                            let j = after.index_of(k);
                            after.lemma_entry(j);
                            if j < n {
                                assert(before.keys[j]@ == k);
                                before.lemma_entry(j);
                            }
                        }
                    }
                }
                None
            },
        }
    }

    /// Where the entry now at `a` stood before the entry at `i` was swapped out.
    spec fn moved_from(a: int, i: int, n: int) -> int {
        if a == i {
            n - 1
        } else {
            a
        }
    }

    proof fn lemma_swap_removed(before: Self, after: Self, i: int)
        requires
            before.wf(),
            0 <= i < before.keys.len(),
            after.keys@ == before.keys@.update(i, before.keys@.last()).drop_last(),
            after.vals@ == before.vals@.update(i, before.vals@.last()).drop_last(),
        ensures
            after.wf(),
            after@ == before@.remove(before.keys[i]@),
    {
        let n = before.keys.len() as int;
        let key = before.keys[i]@;
        assert forall|a: int| 0 <= a < n - 1 implies after.keys[a] == before.keys[Self::moved_from(
            a,
            i,
            n,
        )] && after.vals[a] == before.vals[Self::moved_from(a, i, n)] by {}
        assert(after.wf());
        assert(after@ =~= before@.remove(key)) by {
            assert forall|k: Seq<u8>| after@.contains_key(k) <==> before@.remove(key).contains_key(
                k,
            ) by {
                if after@.contains_key(k) {
                    let a = choose|a: int| 0 <= a < after.keys.len() && after.keys[a]@ == k;
                    let b = if a == i {
                        n - 1
                    } else {
                        a
                    };
                    assert(before.keys[b]@ == k);
                }
                if before@.contains_key(k) && k != key {
                    let b = choose|b: int| 0 <= b < before.keys.len() && before.keys[b]@ == k;
                    let a = if b == n - 1 {
                        i
                    } else {
                        b
                    };
                    assert(after.keys[a]@ == k);
                }
            }
            assert forall|k: Seq<u8>| after@.contains_key(k) implies #[trigger] after@[k]
                == before@.remove(key)[k] by {
                let a = after.index_of(k);
                after.lemma_entry(a);
                let b = if a == i {
                    n - 1
                } else {
                    a
                };
                before.lemma_entry(b);
            }
        }
    }

    /// Removes `key` and hands back its value.
    pub fn remove(&mut self, key: &[u8]) -> (r: Option<V>)
        requires
            old(self).wf(),
        ensures
            final(self).wf(),
            final(self)@ == old(self)@.remove(key@),
            match r {
                Some(o) => old(self)@.contains_key(key@) && o@ == old(self)@[key@] && o.valid(),
                None => !old(self)@.contains_key(key@),
            },
    {
        let ghost before = *self;
        match self.find(key) {
            Some(i) => {
                proof {
                    before.lemma_entry(i as int);
                }
                let _k = self.keys.swap_remove(i);
                let o = self.vals.swap_remove(i);
                proof {
                    Self::lemma_swap_removed(before, *self, i as int);
                }
                Some(o)
            },
            None => {
                assert(before@ =~= before@.remove(key@));
                None
            },
        }
    }

    /// Removes one entry, if there is any, and hands it back.
    pub fn pop(&mut self) -> (r: Option<(Vec<u8>, V)>)
        requires
            old(self).wf(),
        ensures
            final(self).wf(),
            match r {
                Some((k, v)) => old(self)@.contains_key(k@) && v@ == old(self)@[k@] && v.valid()
                    && final(self)@ == old(self)@.remove(k@) && old(self)@.dom().finite()
                        && final(self)@.dom().len() + 1 == old(self)@.dom().len(),
                None => old(self)@ == Map::<Seq<u8>, V::V>::empty() && final(self)@ == old(self)@,
            },
    {
        let ghost before = *self;
        if self.keys.len() == 0 {
            assert(before@ =~= Map::<Seq<u8>, V::V>::empty());
            return None;
        }
        let i = self.keys.len() - 1;
        proof {
            before.lemma_entry(i as int);
        }
        let k = self.keys.swap_remove(i);
        let v = self.vals.swap_remove(i);
        proof {
            Self::lemma_swap_removed(before, *self, i as int);
            before.lemma_dom();
            self.lemma_dom();
        }
        Some((k, v))
    }
}

} // verus!
