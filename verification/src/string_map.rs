//! A table keyed by a name.
//!
//! The table holds each name once. A name is found by comparing texts, so
//! two names are the same key when they hold the same characters.

use vstd::prelude::*;
use vstd::string::*;
use crate::utility::str_equal;

verus! {

/// Whether no two entries of `entries` have the same name.
pub open spec fn distinct_names<V>(entries: Seq<(String, V)>) -> bool {
    forall|i: int, j: int|
        0 <= i < entries.len() && 0 <= j < entries.len() && i != j ==> entries[i].0@
            != entries[j].0@
}

/// Whether an entry of `entries` has the name `name`.
pub open spec fn has_name<V>(entries: Seq<(String, V)>, name: Seq<char>) -> bool {
    exists|i: int| 0 <= i < entries.len() && #[trigger] entries[i].0@ == name
}

/// The position of an entry of `entries` with the name `name`.
pub open spec fn position_of_name<V>(entries: Seq<(String, V)>, name: Seq<char>) -> int {
    choose|i: int| 0 <= i < entries.len() && #[trigger] entries[i].0@ == name
}

/// The table that `entries` stands for.
pub open spec fn named_table_of<V>(entries: Seq<(String, V)>) -> Map<Seq<char>, V> {
    Map::new(
        |name: Seq<char>| has_name(entries, name),
        |name: Seq<char>| entries[position_of_name(entries, name)].1,
    )
}

/// Among distinct names a name stands at one position only.
pub proof fn lemma_name_position<V>(entries: Seq<(String, V)>, i: int)
    requires
        distinct_names(entries),
        0 <= i < entries.len(),
    ensures
        has_name(entries, entries[i].0@),
        position_of_name(entries, entries[i].0@) == i,
        named_table_of(entries).contains_key(entries[i].0@),
        named_table_of(entries)[entries[i].0@] == entries[i].1,
{
    let name = entries[i].0@;
    assert(entries[i].0@ == name);
    let p = position_of_name(entries, name);
    assert(0 <= p < entries.len() && entries[p].0@ == name);
}

/// A table from names to values of `V`.
pub struct StringMap<V> {
    entries: Vec<(String, V)>,
}

impl<V> View for StringMap<V> {
    type V = Map<Seq<char>, V>;

    closed spec fn view(&self) -> Map<Seq<char>, V> {
        named_table_of(self.entries@)
    }
}

impl<V> StringMap<V> {
    /// No name is held twice.
    pub closed spec fn wf(&self) -> bool {
        distinct_names(self.entries@)
    }

    /// An empty table.
    pub fn new() -> (table: Self)
        ensures
            table@ == Map::<Seq<char>, V>::empty(),
            table.wf(),
    {
        let table = StringMap { entries: Vec::new() };
        proof {
            assert(table@ =~= Map::<Seq<char>, V>::empty());
        }
        table
    }

    /// The position of the entry with the name `name`, or the number of
    /// entries where there is none.
    fn search(&self, name: &str) -> (index: usize)
        requires
            self.wf(),
        ensures
            index <= self.entries@.len(),
            index < self.entries@.len() ==> self.entries@[index as int].0@ == name@,
            index == self.entries@.len() ==> !has_name(self.entries@, name@),
    {
        let mut i: usize = 0;
        while i < self.entries.len()
            invariant
                i <= self.entries@.len(),
                forall|j: int| 0 <= j < i ==> self.entries@[j].0@ != name@,
            decreases self.entries.len() - i,
        {
            if str_equal(self.entries[i].0.as_str(), name) {
                return i;
            }
            i += 1;
        }
        i
    }

    /// Whether the table has an entry with the name `name`.
    pub fn contains_key(&self, name: &str) -> (found: bool)
        requires
            self.wf(),
        ensures
            found == self@.contains_key(name@),
    {
        let index = self.search(name);
        proof {
            if index < self.entries@.len() {
                lemma_name_position(self.entries@, index as int);
            }
        }
        index < self.entries.len()
    }

    /// The value under the name `name`, if the table has one.
    pub fn get(&self, name: &str) -> (value: Option<&V>)
        requires
            self.wf(),
        ensures
            value is Some <==> self@.contains_key(name@),
            value matches Some(v) ==> *v == self@[name@],
    {
        let index = self.search(name);
        if index < self.entries.len() {
            proof {
                lemma_name_position(self.entries@, index as int);
            }
            Some(&self.entries[index].1)
        } else {
            None
        }
    }

    /// Sets the value under the name `name`, in place of the one that the
    /// table had.
    pub fn insert(&mut self, name: String, value: V)
        requires
            old(self).wf(),
        ensures
            final(self)@ == old(self)@.insert(name@, value),
            final(self).wf(),
    {
        let index = self.search(name.as_str());
        let ghost before = self.entries@;
        let ghost key = name@;
        if index < self.entries.len() {
            self.entries[index] = (name, value);
        } else {
            self.entries.push((name, value));
        }
        proof {
            let after = self.entries@;
            assert(after.len() > index && after[index as int].0@ == key && after[index as int].1
                == value);
            assert(forall|i: int|
                0 <= i < before.len() && i != index ==> after[i] == before[i]);
            assert(distinct_names(after)) by {
                assert forall|i: int, j: int|
                    0 <= i < after.len() && 0 <= j < after.len() && i != j implies after[i].0@
                    != after[j].0@ by {
                    if i == index {
                        assert(before[j].0@ != key);
                    } else if j == index {
                        assert(before[i].0@ != key);
                    }
                }
            }
            assert forall|k: Seq<char>| has_name(after, k) == (k == key || has_name(before, k)) by {
                if has_name(after, k) {
                    let p = position_of_name(after, k);
                    if p != index {
                        assert(before[p].0@ == k);
                    }
                }
                if has_name(before, k) && k != key {
                    let p = position_of_name(before, k);
                    assert(after[p].0@ == k);
                }
            }
            assert forall|k: Seq<char>| has_name(after, k) implies named_table_of(after)[k] == (if k
                == key {
                value
            } else {
                named_table_of(before)[k]
            }) by {
                let p = position_of_name(after, k);
                lemma_name_position(after, p);
                if k != key {
                    assert(before[p].0@ == k);
                    lemma_name_position(before, p);
                } else {
                    lemma_name_position(after, index as int);
                }
            }
            assert(named_table_of(after) =~= named_table_of(before).insert(key, value));
        }
    }

    /// Takes the entry with the name `name` out of the table.
    pub fn remove(&mut self, name: &str) -> (value: Option<V>)
        requires
            old(self).wf(),
        ensures
            final(self)@ == old(self)@.remove(name@),
            final(self).wf(),
            value is Some <==> old(self)@.contains_key(name@),
            value matches Some(v) ==> v == old(self)@[name@],
    {
        let index = self.search(name);
        let ghost before = self.entries@;
        let ghost key = name@;
        if index < self.entries.len() {
            proof {
                lemma_name_position(before, index as int);
            }
            let entry = self.entries.remove(index);
            proof {
                let after = self.entries@;
                assert(after =~= before.remove(index as int));
                assert(distinct_names(after)) by {
                    assert forall|i: int, j: int|
                        0 <= i < after.len() && 0 <= j < after.len() && i != j implies after[i].0@
                        != after[j].0@ by {
                        let a = if i < index { i } else { i + 1 };
                        let b = if j < index { j } else { j + 1 };
                        assert(before[a].0@ != before[b].0@);
                    }
                }
                assert forall|k: Seq<char>| has_name(after, k) == (k != key && has_name(
                    before,
                    k,
                )) by {
                    if has_name(after, k) {
                        let p = position_of_name(after, k);
                        let a = if p < index { p } else { p + 1 };
                        assert(before[a].0@ == k);
                        assert(before[a].0@ != before[index as int].0@);
                    }
                    if has_name(before, k) && k != key {
                        let p = position_of_name(before, k);
                        if p < index {
                            assert(after[p].0@ == k);
                        } else {
                            assert(after[p - 1].0@ == k);
                        }
                    }
                }
                assert forall|k: Seq<char>| has_name(after, k) implies named_table_of(after)[k]
                    == named_table_of(before)[k] by {
                    let p = position_of_name(after, k);
                    lemma_name_position(after, p);
                    let a = if p < index { p } else { p + 1 };
                    assert(before[a].0@ == k);
                    lemma_name_position(before, a);
                }
                assert(named_table_of(after) =~= named_table_of(before).remove(key));
            }
            Some(entry.1)
        } else {
            proof {
                assert(named_table_of(before) =~= named_table_of(before).remove(key));
            }
            None
        }
    }
}

} // verus!
