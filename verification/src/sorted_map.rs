//! A sparse table keyed by an index, kept in ascending order of the index.
//!
//! The grid of a worksheet is sparse: only what was written takes memory.
//! Rows are kept by row number, the cells of a row by column number, and
//! both are read back in ascending order when the worksheet is written out.

use vstd::prelude::*;

verus! {

/// Whether the keys of `entries` ascend strictly.
pub open spec fn ascending<V>(entries: Seq<(u32, V)>) -> bool {
    forall|i: int, j: int| 0 <= i < j < entries.len() ==> entries[i].0 < entries[j].0
}

/// Whether an entry of `entries` has the key `key`.
pub open spec fn has_key<V>(entries: Seq<(u32, V)>, key: u32) -> bool {
    exists|i: int| 0 <= i < entries.len() && #[trigger] entries[i].0 == key
}

/// The position of an entry of `entries` with the key `key`.
pub open spec fn position_of<V>(entries: Seq<(u32, V)>, key: u32) -> int {
    choose|i: int| 0 <= i < entries.len() && #[trigger] entries[i].0 == key
}

/// The table that `entries` stands for.
pub open spec fn table_of<V>(entries: Seq<(u32, V)>) -> Map<u32, V> {
    Map::new(|key: u32| has_key(entries, key), |key: u32| entries[position_of(entries, key)].1)
}

/// In ascending entries a key stands at one position only.
pub proof fn lemma_position<V>(entries: Seq<(u32, V)>, i: int)
    requires
        ascending(entries),
        0 <= i < entries.len(),
    ensures
        has_key(entries, entries[i].0),
        position_of(entries, entries[i].0) == i,
        table_of(entries).contains_key(entries[i].0),
        table_of(entries)[entries[i].0] == entries[i].1,
{
    let key = entries[i].0;
    assert(entries[i].0 == key);
    let p = position_of(entries, key);
    assert(0 <= p < entries.len() && entries[p].0 == key);
    if p < i {
        assert(entries[p].0 < entries[i].0);
    } else if i < p {
        assert(entries[i].0 < entries[p].0);
    }
}

/// Whether `keys` lists the indices of `indices` in ascending order, each
/// once.
pub open spec fn is_ascending_listing(keys: Seq<u32>, indices: Set<u32>) -> bool {
    &&& forall|i: int, j: int| 0 <= i < j < keys.len() ==> keys[i] < keys[j]
    &&& forall|i: int| 0 <= i < keys.len() ==> indices.contains(#[trigger] keys[i])
    &&& forall|key: u32| #[trigger]
        indices.contains(key) ==> exists|i: int| 0 <= i < keys.len() && #[trigger] keys[i] == key
}

/// The indices of `indices` in ascending order, where `indices` is finite.
pub open spec fn ascending_keys(indices: Set<u32>) -> Seq<u32> {
    choose|keys: Seq<u32>| is_ascending_listing(keys, indices)
}

/// A set of indices has one ascending listing at most.
pub proof fn lemma_listing_is_unique(a: Seq<u32>, b: Seq<u32>, indices: Set<u32>)
    requires
        is_ascending_listing(a, indices),
        is_ascending_listing(b, indices),
    ensures
        a == b,
    decreases a.len(),
{
    if a.len() == 0 {
        if b.len() > 0 {
            assert(indices.contains(b[0]));
        }
        assert(a =~= b);
    } else {
        let top = a.last();
        assert(indices.contains(a[a.len() - 1]));
        let p = choose|i: int| 0 <= i < b.len() && #[trigger] b[i] == top;
        if p < b.len() - 1 {
            let above = b[b.len() - 1];
            assert(b[p] < b[b.len() - 1]);
            assert(indices.contains(b[b.len() - 1]));
            let q = choose|i: int| 0 <= i < a.len() && #[trigger] a[i] == above;
            if q < a.len() - 1 {
                assert(a[q] < a[a.len() - 1]);
            }
        }
        assert(b.last() == top);
        let rest = indices.remove(top);
        let a0 = a.drop_last();
        let b0 = b.drop_last();
        assert(is_ascending_listing(a0, rest)) by {
            assert forall|i: int| 0 <= i < a0.len() implies rest.contains(#[trigger] a0[i]) by {
                assert(a[i] < a[a.len() - 1]);
                assert(indices.contains(a[i]));
            }
            assert forall|key: u32| #[trigger] rest.contains(key) implies exists|i: int|
                0 <= i < a0.len() && #[trigger] a0[i] == key by {
                assert(indices.contains(key));
                let i = choose|i: int| 0 <= i < a.len() && #[trigger] a[i] == key;
                assert(a0[i] == key);
            }
        }
        assert(is_ascending_listing(b0, rest)) by {
            assert forall|i: int| 0 <= i < b0.len() implies rest.contains(#[trigger] b0[i]) by {
                assert(b[i] < b[b.len() - 1]);
                assert(indices.contains(b[i]));
            }
            assert forall|key: u32| #[trigger] rest.contains(key) implies exists|i: int|
                0 <= i < b0.len() && #[trigger] b0[i] == key by {
                assert(indices.contains(key));
                let i = choose|i: int| 0 <= i < b.len() && #[trigger] b[i] == key;
                assert(b0[i] == key);
            }
        }
        lemma_listing_is_unique(a0, b0, rest);
        assert(a =~= a0.push(top));
        assert(b =~= b0.push(top));
    }
}

/// A table from indices to values of `V`, in ascending order of the index.
pub struct SortedMap<V> {
    entries: Vec<(u32, V)>,
}

impl<V> View for SortedMap<V> {
    type V = Map<u32, V>;

    closed spec fn view(&self) -> Map<u32, V> {
        table_of(self.entries@)
    }
}

impl<V> SortedMap<V> {
    /// The keys of the table in ascending order.
    pub closed spec fn keys(&self) -> Seq<u32> {
        Seq::new(self.entries@.len(), |i: int| self.entries@[i].0)
    }

    /// The representation is in order.
    pub closed spec fn wf(&self) -> bool {
        ascending(self.entries@)
    }

    /// The keys ascend strictly, and they are the keys of the table.
    pub open spec fn keys_are_ordered(&self) -> bool {
        &&& forall|i: int, j: int|
            0 <= i < j < self.keys().len() ==> self.keys()[i] < self.keys()[j]
        &&& forall|i: int| 0 <= i < self.keys().len() ==> self@.contains_key(#[trigger] self.keys()[i])
        &&& forall|key: u32| #[trigger]
            self@.contains_key(key) ==> exists|i: int|
                0 <= i < self.keys().len() && #[trigger] self.keys()[i] == key
    }

    /// What `keys` gives is in order and complete.
    pub proof fn lemma_keys(&self)
        requires
            self.wf(),
        ensures
            self.keys_are_ordered(),
    {
        let entries = self.entries@;
        assert forall|i: int| 0 <= i < self.keys().len() implies self@.contains_key(
            #[trigger] self.keys()[i],
        ) by {
            lemma_position(entries, i);
        }
        assert forall|key: u32| #[trigger] self@.contains_key(key) implies exists|i: int|
            0 <= i < self.keys().len() && #[trigger] self.keys()[i] == key by {
            let p = position_of(entries, key);
            assert(self.keys()[p] == key);
        }
    }

    /// The keys of the table are the ascending listing of its indices.
    pub proof fn lemma_keys_listing(&self)
        requires
            self.wf(),
        ensures
            self.keys() == ascending_keys(self@.dom()),
            is_ascending_listing(self.keys(), self@.dom()),
    {
        self.lemma_keys();
        assert(is_ascending_listing(self.keys(), self@.dom()));
        lemma_listing_is_unique(self.keys(), ascending_keys(self@.dom()), self@.dom());
    }

    /// An empty table.
    pub fn new() -> (table: Self)
        ensures
            table@ == Map::<u32, V>::empty(),
            table.keys() == Seq::<u32>::empty(),
            table.wf(),
    {
        let table = SortedMap { entries: Vec::new() };
        proof {
            assert(table@ =~= Map::<u32, V>::empty());
            assert(table.keys() =~= Seq::<u32>::empty());
        }
        table
    }

    /// The number of entries.
    pub fn len(&self) -> (len: usize)
        ensures
            len == self.keys().len(),
    {
        self.entries.len()
    }

    /// The key at position `index` in ascending order.
    pub fn key_at(&self, index: usize) -> (key: u32)
        requires
            self.wf(),
            index < self.keys().len(),
        ensures
            key == self.keys()[index as int],
            self@.contains_key(key),
    {
        proof {
            lemma_position(self.entries@, index as int);
        }
        self.entries[index].0
    }

    /// The value at position `index` in ascending order of the keys.
    pub fn value_at(&self, index: usize) -> (value: &V)
        requires
            self.wf(),
            index < self.keys().len(),
        ensures
            self@.contains_key(self.keys()[index as int]),
            *value == self@[self.keys()[index as int]],
    {
        proof {
            lemma_position(self.entries@, index as int);
        }
        &self.entries[index].1
    }

    /// The first position whose key is not below `key`.
    fn search(&self, key: u32) -> (index: usize)
        requires
            self.wf(),
        ensures
            index <= self.entries@.len(),
            forall|i: int| 0 <= i < index ==> self.entries@[i].0 < key,
            forall|i: int| index <= i < self.entries@.len() ==> self.entries@[i].0 >= key,
    {
        let mut low: usize = 0;
        let mut high: usize = self.entries.len();
        while low < high
            invariant
                low <= high <= self.entries@.len(),
                ascending(self.entries@),
                forall|i: int| 0 <= i < low ==> self.entries@[i].0 < key,
                forall|i: int| high <= i < self.entries@.len() ==> self.entries@[i].0 >= key,
            decreases high - low,
        {
            let middle = low + (high - low) / 2;
            if self.entries[middle].0 < key {
                low = middle + 1;
            } else {
                high = middle;
            }
        }
        low
    }

    /// Whether the table has an entry for `key`.
    pub fn contains_key(&self, key: u32) -> (found: bool)
        requires
            self.wf(),
        ensures
            found == self@.contains_key(key),
    {
        let index = self.search(key);
        let found = index < self.entries.len() && self.entries[index].0 == key;
        proof {
            if self@.contains_key(key) {
                let p = position_of(self.entries@, key);
                assert(self.entries@[p].0 == key);
            }
            if found {
                assert(self.entries@[index as int].0 == key);
            }
        }
        found
    }

    /// The value for `key`, if the table has one.
    pub fn get(&self, key: u32) -> (value: Option<&V>)
        requires
            self.wf(),
        ensures
            value is Some <==> self@.contains_key(key),
            value matches Some(v) ==> *v == self@[key],
    {
        let index = self.search(key);
        if index < self.entries.len() && self.entries[index].0 == key {
            proof {
                lemma_position(self.entries@, index as int);
            }
            Some(&self.entries[index].1)
        } else {
            proof {
                if self@.contains_key(key) {
                    let p = position_of(self.entries@, key);
                    assert(self.entries@[p].0 == key);
                }
            }
            None
        }
    }

    /// Sets the value for `key`, in place of the one that the table had.
    pub fn insert(&mut self, key: u32, value: V)
        requires
            old(self).wf(),
        ensures
            final(self)@ == old(self)@.insert(key, value),
            final(self).wf(),
    {
        let index = self.search(key);
        let ghost before = self.entries@;
        if index < self.entries.len() && self.entries[index].0 == key {
            self.entries[index] = (key, value);
            proof {
                let after = self.entries@;
                assert(after =~= before.update(index as int, (key, value)));
                assert(ascending(after)) by {
                    assert forall|i: int, j: int| 0 <= i < j < after.len() implies after[i].0
                        < after[j].0 by {
                        assert(before[i].0 < before[j].0);
                    }
                }
                assert forall|k: u32| has_key(after, k) == (k == key || has_key(before, k)) by {
                    if has_key(after, k) {
                        let p = position_of(after, k);
                        assert(before[p].0 == k);
                    }
                    if has_key(before, k) {
                        let p = position_of(before, k);
                        assert(after[p].0 == k);
                    }
                    if k == key {
                        assert(after[index as int].0 == k);
                    }
                }
                assert forall|k: u32| has_key(after, k) implies table_of(after)[k] == (if k
                    == key {
                    value
                } else {
                    table_of(before)[k]
                }) by {
                    let p = position_of(after, k);
                    lemma_position(after, p);
                    if k != key {
                        assert(before[p].0 == k);
                        lemma_position(before, p);
                    } else {
                        lemma_position(after, index as int);
                    }
                }
                assert(table_of(after) =~= table_of(before).insert(key, value));
            }
        } else {
            self.entries.insert(index, (key, value));
            proof {
                let after = self.entries@;
                assert(after =~= before.insert(index as int, (key, value)));
                assert(ascending(after)) by {
                    assert forall|i: int, j: int| 0 <= i < j < after.len() implies after[i].0
                        < after[j].0 by {
                        let a = if i < index { i } else { i - 1 };
                        let b = if j < index { j } else { j - 1 };
                        if i != index && j != index {
                            assert(before[a].0 < before[b].0);
                        }
                    }
                }
                assert forall|k: u32| has_key(after, k) == (k == key || has_key(before, k)) by {
                    if has_key(after, k) {
                        let p = position_of(after, k);
                        if p < index {
                            assert(before[p].0 == k);
                        } else if p > index {
                            assert(before[p - 1].0 == k);
                        }
                    }
                    if has_key(before, k) {
                        let p = position_of(before, k);
                        if p < index {
                            assert(after[p].0 == k);
                        } else {
                            assert(after[p + 1].0 == k);
                        }
                    }
                    if k == key {
                        assert(after[index as int].0 == k);
                    }
                }
                assert forall|k: u32| has_key(after, k) implies table_of(after)[k] == (if k
                    == key {
                    value
                } else {
                    table_of(before)[k]
                }) by {
                    let p = position_of(after, k);
                    lemma_position(after, p);
                    if k != key {
                        if p < index {
                            assert(before[p].0 == k);
                            lemma_position(before, p);
                        } else {
                            assert(before[p - 1].0 == k);
                            lemma_position(before, p - 1);
                        }
                    } else {
                        lemma_position(after, index as int);
                    }
                }
                assert(table_of(after) =~= table_of(before).insert(key, value));
            }
        }
    }

    /// Takes the entry for `key` out of the table.
    pub fn remove(&mut self, key: u32) -> (value: Option<V>)
        requires
            old(self).wf(),
        ensures
            final(self)@ == old(self)@.remove(key),
            final(self).wf(),
            value is Some <==> old(self)@.contains_key(key),
            value matches Some(v) ==> v == old(self)@[key],
    {
        let index = self.search(key);
        let ghost before = self.entries@;
        if index < self.entries.len() && self.entries[index].0 == key {
            proof {
                lemma_position(before, index as int);
            }
            let entry = self.entries.remove(index);
            proof {
                let after = self.entries@;
                assert(after =~= before.remove(index as int));
                assert(ascending(after)) by {
                    assert forall|i: int, j: int| 0 <= i < j < after.len() implies after[i].0
                        < after[j].0 by {
                        let a = if i < index { i } else { i + 1 };
                        let b = if j < index { j } else { j + 1 };
                        assert(before[a].0 < before[b].0);
                    }
                }
                assert forall|k: u32| has_key(after, k) == (k != key && has_key(before, k)) by {
                    if has_key(after, k) {
                        let p = position_of(after, k);
                        let a = if p < index { p } else { p + 1 };
                        assert(before[a].0 == k);
                        if a < index {
                            assert(before[a].0 < before[index as int].0);
                        } else {
                            assert(before[index as int].0 < before[a].0);
                        }
                    }
                    if has_key(before, k) && k != key {
                        let p = position_of(before, k);
                        if p < index {
                            assert(after[p].0 == k);
                        } else {
                            assert(after[p - 1].0 == k);
                        }
                    }
                }
                assert forall|k: u32| has_key(after, k) implies table_of(after)[k] == table_of(
                    before,
                )[k] by {
                    let p = position_of(after, k);
                    lemma_position(after, p);
                    let a = if p < index { p } else { p + 1 };
                    assert(before[a].0 == k);
                    lemma_position(before, a);
                }
                assert(table_of(after) =~= table_of(before).remove(key));
            }
            Some(entry.1)
        } else {
            proof {
                if has_key(before, key) {
                    let p = position_of(before, key);
                    assert(before[p].0 == key);
                }
                assert(table_of(before) =~= table_of(before).remove(key));
            }
            None
        }
    }
}

} // verus!
