//! A map keyed by digests, held as a list of entries in which no key occurs
//! twice. No operation of the ledger needs an order over its accounts, so the
//! entries are kept in the order in which their keys first came.

use vstd::prelude::*;
use crate::bytes::bytes_eq;
use crate::host::{Key, KEY_LEN};

verus! {

/// One key with what is stored under it.
pub struct Entry<V> {
    key: Key,
    value: V,
}

/// A map from keys of fixed size to values of `V`.
pub struct DigestMap<V> {
    entries: Vec<Entry<V>>,
}

impl<V> View for DigestMap<V> {
    type V = Map<Seq<u8>, V>;

    /// The map that the entries stand for.
    closed spec fn view(&self) -> Map<Seq<u8>, V> {
        Map::new(|k: Seq<u8>| self.has(k), |k: Seq<u8>| self.entries@[self.slot(k)].value)
    }
}

impl<V> DigestMap<V> {
    /// The key of the entry at index `i`.
    spec fn key_at(&self, i: int) -> Seq<u8> {
        self.entries@[i].key@
    }

    /// Whether some entry has the key `k`.
    spec fn has(&self, k: Seq<u8>) -> bool {
        exists|i: int| 0 <= i < self.entries@.len() && #[trigger] self.key_at(i) == k
    }

    /// The index of an entry with the key `k`.
    spec fn slot(&self, k: Seq<u8>) -> int {
        choose|i: int| 0 <= i < self.entries@.len() && #[trigger] self.key_at(i) == k
    }

    /// No key occurs twice.
    pub closed spec fn wf(&self) -> bool {
        forall|i: int, j: int|
            0 <= i < j < self.entries@.len() ==> #[trigger] self.key_at(i) != #[trigger] self.key_at(j)
    }

    /// In a well-formed map the entry at index `i` is the one found for its key.
    proof fn lemma_slot(&self, i: int)
        requires
            self.wf(),
            0 <= i < self.entries@.len(),
        ensures
            self.has(self.key_at(i)),
            self.slot(self.key_at(i)) == i,
            self@.contains_key(self.key_at(i)),
            self@[self.key_at(i)] == self.entries@[i].value,
    {
        let k = self.key_at(i);
        let j = self.slot(k);
        assert(self.key_at(j) == k);
        if j < i {
            assert(self.key_at(j) != self.key_at(i));
        } else if i < j {
            assert(self.key_at(i) != self.key_at(j));
        }
    }

    /// The keys of the entries, in their order.
    spec fn key_seq(&self) -> Seq<Seq<u8>> {
        self.entries@.map_values(|e: Entry<V>| e.key@)
    }

    /// The keys of a map are those of its entries.
    proof fn lemma_dom(&self)
        ensures
            self@.dom() == self.key_seq().to_set(),
    {
        let keys = self.key_seq();
        assert forall|k: Seq<u8>| self@.dom().contains(k) <==> keys.to_set().contains(k) by {
            if self.has(k) {
                let i = self.slot(k);
                assert(keys[i] == k);
            }
            if keys.contains(k) {
                let i = choose|i: int| 0 <= i < keys.len() && keys[i] == k;
                assert(self.key_at(i) == k);
            }
        }
        assert(self@.dom() =~= keys.to_set());
    }

    /// The keys of a map are finitely many, and each has the fixed size.
    pub proof fn lemma_finite(&self)
        ensures
            self@.dom().finite(),
            forall|k: Seq<u8>| self@.contains_key(k) ==> k.len() == KEY_LEN,
    {
        self.lemma_dom();
        vstd::seq_lib::seq_to_set_is_finite(self.key_seq());
        assert forall|k: Seq<u8>| self@.contains_key(k) implies k.len() == KEY_LEN by {
            let i = self.slot(k);
            assert(self.key_at(i) == k);
            vstd::array::array_len_matches_n(&self.entries@[i].key);
        }
    }

    /// A map without entries.
    pub fn new() -> (m: Self)
        ensures
            m.wf(),
            m@ == Map::<Seq<u8>, V>::empty(),
    {
        let m = DigestMap { entries: Vec::new() };
        assert(m@ =~= Map::<Seq<u8>, V>::empty());
        m
    }

    /// Whether the map has no entry.
    pub fn is_empty(&self) -> (empty: bool)
        requires
            self.wf(),
        ensures
            empty == (self@ == Map::<Seq<u8>, V>::empty()),
    {
        let empty = self.entries.len() == 0;
        proof {
            if empty {
                assert(self@ =~= Map::<Seq<u8>, V>::empty());
            } else {
                self.lemma_slot(0);
            }
        }
        empty
    }

    /// A well-formed map has as many keys as entries.
    proof fn lemma_len(&self)
        requires
            self.wf(),
        ensures
            self@.dom().finite(),
            self@.dom().len() == self.entries@.len(),
    {
        self.lemma_finite();
        self.lemma_dom();
        let keys = self.key_seq();
        assert(keys.no_duplicates()) by {
            assert forall|i: int, j: int|
                0 <= i < keys.len() && 0 <= j < keys.len() && i != j implies keys[i] != keys[j] by {
                if i < j {
                    assert(self.key_at(i) != self.key_at(j));
                } else {
                    assert(self.key_at(j) != self.key_at(i));
                }
            }
        }
        keys.unique_seq_to_set();
    }

    /// The number of entries.
    pub fn len(&self) -> (n: usize)
        requires
            self.wf(),
        ensures
            self@.dom().finite(),
            n == self@.dom().len(),
    {
        proof {
            self.lemma_len();
        }
        self.entries.len()
    }

    /// The index of the entry with the key `key`, if there is one.
    fn find(&self, key: &Key) -> (found: Option<usize>)
        requires
            self.wf(),
        ensures
            match found {
                Some(i) => i < self.entries@.len() && self.key_at(i as int) == key@,
                None => !self.has(key@),
            },
    {
        let mut i: usize = 0;
        while i < self.entries.len()
            invariant
                i <= self.entries@.len(),
                forall|j: int| 0 <= j < i ==> #[trigger] self.key_at(j) != key@,
            decreases self.entries@.len() - i,
        {
            if bytes_eq(self.entries[i].key.as_slice(), key.as_slice()) {
                return Some(i);
            }
            i = i + 1;
        }
        None
    }

    /// Whether something is stored under `key`.
    pub fn contains_key(&self, key: &Key) -> (found: bool)
        requires
            self.wf(),
        ensures
            found == self@.contains_key(key@),
    {
        self.find(key).is_some()
    }

    /// What is stored under `key`, if anything.
    pub fn get(&self, key: &Key) -> (found: Option<&V>)
        requires
            self.wf(),
        ensures
            match found {
                Some(v) => self@.contains_key(key@) && *v == self@[key@],
                None => !self@.contains_key(key@),
            },
    {
        match self.find(key) {
            Some(i) => {
                proof {
                    self.lemma_slot(i as int);
                }
                Some(&self.entries[i].value)
            },
            None => None,
        }
    }

    /// The keys of the map, each of them once.
    pub fn keys(&self) -> (keys: Vec<Key>)
        requires
            self.wf(),
        ensures
            keys@.len() == self@.dom().len(),
            forall|i: int| 0 <= i < keys@.len() ==> self@.contains_key(#[trigger] keys@[i]@),
            forall|i: int, j: int|
                0 <= i < j < keys@.len() ==> (#[trigger] keys@[i])@ != (#[trigger] keys@[j])@,
            forall|k: Seq<u8>|
                self@.contains_key(k) ==> exists|i: int|
                    0 <= i < keys@.len() && (#[trigger] keys@[i])@ == k,
    {
        proof {
            self.lemma_len();
        }
        let mut keys: Vec<Key> = Vec::new();
        let mut i: usize = 0;
        while i < self.entries.len()
            invariant
                i <= self.entries@.len(),
                keys@.len() == i,
                forall|j: int| 0 <= j < i ==> (#[trigger] keys@[j])@ == self.key_at(j),
            decreases self.entries@.len() - i,
        {
            keys.push(self.entries[i].key);
            i = i + 1;
        }
        proof {
            assert forall|j: int| 0 <= j < keys@.len() implies self@.contains_key(
                #[trigger] keys@[j]@,
            ) by {
                self.lemma_slot(j);
            }
            assert forall|a: int, b: int| 0 <= a < b < keys@.len() implies (#[trigger] keys@[a])@
                != (#[trigger] keys@[b])@ by {
                assert(self.key_at(a) != self.key_at(b));
            }
            assert forall|k: Seq<u8>| self@.contains_key(k) implies exists|j: int|
                0 <= j < keys@.len() && (#[trigger] keys@[j])@ == k by {
                let j = self.slot(k);
                assert(keys@[j]@ == k);
            }
        }
        keys
    }

    /// Stores `value` under `key`, in place of what was stored there.
    pub fn insert(&mut self, key: Key, value: V)
        requires
            old(self).wf(),
        ensures
            final(self).wf(),
            final(self)@ == old(self)@.insert(key@, value),
    {
        let ghost before = *self;
        let ghost k = key@;
        match self.find(&key) {
            Some(i) => {
                self.entries.set(i, Entry { key, value });
                proof {
                    assert forall|j: int| 0 <= j < self.entries@.len() implies self.key_at(j)
                        == before.key_at(j) by {}
                    assert(self.wf()) by {
                        assert forall|a: int, b: int| 0 <= a < b < self.entries@.len() implies self.key_at(
                            a,
                        ) != self.key_at(b) by {
                            assert(before.key_at(a) != before.key_at(b));
                        }
                    }
                    assert forall|q: Seq<u8>| self@.contains_key(q) <==> before@.insert(
                        k,
                        value,
                    ).contains_key(q) by {
                        if self.has(q) {
                            let j = self.slot(q);
                            assert(before.key_at(j) == q);
                        }
                        if before.has(q) {
                            let j = before.slot(q);
                            assert(self.key_at(j) == q);
                        }
                        if q == k {
                            assert(self.key_at(i as int) == q);
                        }
                    }
                    assert forall|q: Seq<u8>| self@.contains_key(q) implies self@[q]
                        == before@.insert(k, value)[q] by {
                        let j = self.slot(q);
                        self.lemma_slot(j);
                        before.lemma_slot(j);
                    }
                    assert(self@ =~= before@.insert(k, value));
                }
            },
            None => {
                self.entries.push(Entry { key, value });
                proof {
                    let n = before.entries@.len() as int;
                    assert forall|j: int| 0 <= j < n implies self.key_at(j) == before.key_at(
                        j,
                    ) by {}
                    assert(self.key_at(n) == k);
                    assert(self.wf()) by {
                        assert forall|a: int, b: int| 0 <= a < b < self.entries@.len() implies self.key_at(
                            a,
                        ) != self.key_at(b) by {
                            if b < n {
                                assert(before.key_at(a) != before.key_at(b));
                            } else {
                                assert(before.key_at(a) != k);
                            }
                        }
                    }
                    assert forall|q: Seq<u8>| self@.contains_key(q) <==> before@.insert(
                        k,
                        value,
                    ).contains_key(q) by {
                        if self.has(q) {
                            let j = self.slot(q);
                            if j < n {
                                assert(before.key_at(j) == q);
                            }
                        }
                        if before.has(q) {
                            let j = before.slot(q);
                            assert(self.key_at(j) == q);
                        }
                    }
                    assert forall|q: Seq<u8>| self@.contains_key(q) implies self@[q]
                        == before@.insert(k, value)[q] by {
                        let j = self.slot(q);
                        self.lemma_slot(j);
                        if j < n {
                            before.lemma_slot(j);
                        }
                    }
                    assert(self@ =~= before@.insert(k, value));
                }
            },
        }
    }

    /// Removes what is stored under `key`, if anything.
    pub fn remove(&mut self, key: &Key)
        requires
            old(self).wf(),
        ensures
            final(self).wf(),
            final(self)@ == old(self)@.remove(key@),
    {
        let ghost before = *self;
        let ghost k = key@;
        match self.find(key) {
            Some(i) => {
                let _ = self.entries.remove(i);
                proof {
                    let n = self.entries@.len() as int;
                    assert forall|j: int| 0 <= j < n implies self.key_at(j) == before.key_at(
                        if j < i {
                            j
                        } else {
                            j + 1
                        },
                    ) by {}
                    assert(self.wf()) by {
                        assert forall|a: int, b: int| 0 <= a < b < n implies self.key_at(a)
                            != self.key_at(b) by {
                            let a0 = if a < i {
                                a
                            } else {
                                a + 1
                            };
                            let b0 = if b < i {
                                b
                            } else {
                                b + 1
                            };
                            assert(before.key_at(a0) != before.key_at(b0));
                        }
                    }
                    assert forall|q: Seq<u8>| self@.contains_key(q) <==> before@.remove(
                        k,
                    ).contains_key(q) by {
                        if self.has(q) {
                            let j = self.slot(q);
                            let j0 = if j < i {
                                j
                            } else {
                                j + 1
                            };
                            assert(before.key_at(j0) == q);
                            if q == k {
                                if j0 < i {
                                    assert(before.key_at(j0) != before.key_at(i as int));
                                } else {
                                    assert(before.key_at(i as int) != before.key_at(j0));
                                }
                            }
                        }
                        if before.has(q) && q != k {
                            let j0 = before.slot(q);
                            let j = if j0 < i {
                                j0
                            } else {
                                j0 - 1
                            };
                            assert(self.key_at(j) == q);
                        }
                    }
                    assert forall|q: Seq<u8>| self@.contains_key(q) implies self@[q]
                        == before@.remove(k)[q] by {
                        let j = self.slot(q);
                        let j0 = if j < i {
                            j
                        } else {
                            j + 1
                        };
                        self.lemma_slot(j);
                        before.lemma_slot(j0);
                    }
                    assert(self@ =~= before@.remove(k));
                }
            },
            None => {
                assert(self@ =~= before@.remove(k));
            },
        }
    }
}

impl<V: Copy> Clone for DigestMap<V> {
    /// A copy that stands for the same map.
    fn clone(&self) -> (copy: Self)
        ensures
            self.wf() ==> copy.wf() && copy@ == self@,
    {
        let mut entries: Vec<Entry<V>> = Vec::new();
        let mut i: usize = 0;
        while i < self.entries.len()
            invariant
                i <= self.entries@.len(),
                entries@.len() == i,
                forall|j: int|
                    0 <= j < i ==> (#[trigger] entries@[j]).key@ == self.entries@[j].key@
                        && entries@[j].value == self.entries@[j].value,
            decreases self.entries@.len() - i,
        {
            let entry = &self.entries[i];
            entries.push(Entry { key: entry.key, value: entry.value });
            i = i + 1;
        }
        let copy = DigestMap { entries };
        proof {
            if self.wf() {
                assert forall|j: int| 0 <= j < copy.entries@.len() implies copy.key_at(j)
                    == self.key_at(j) by {
                    assert(copy.entries@[j].key@ == self.entries@[j].key@);
                }
                assert(copy.wf()) by {
                    assert forall|a: int, b: int| 0 <= a < b < copy.entries@.len() implies copy.key_at(
                        a,
                    ) != copy.key_at(b) by {
                        assert(self.key_at(a) != self.key_at(b));
                    }
                }
                assert forall|q: Seq<u8>| copy@.contains_key(q) <==> self@.contains_key(q) by {
                    if copy.has(q) {
                        let j = copy.slot(q);
                        assert(self.key_at(j) == q);
                    }
                    if self.has(q) {
                        let j = self.slot(q);
                        assert(copy.key_at(j) == q);
                    }
                }
                assert forall|q: Seq<u8>| copy@.contains_key(q) implies copy@[q] == self@[q] by {
                    let j = copy.slot(q);
                    copy.lemma_slot(j);
                    self.lemma_slot(j);
                    assert(copy.entries@[j].value == self.entries@[j].value);
                }
                assert(copy@ =~= self@);
            }
        }
        copy
    }
}

} // verus!
