//! An ordered table without duplicates.
//!
//! A registry keeps descriptors in the order in which they were first
//! registered and hands out their positions. Two descriptors are the same
//! entry when their views are equal, so equality is structural. The format
//! table, the tables of fonts, fills and borders, and the shared-string
//! table are all registries.

use vstd::prelude::*;
use vstd::string::*;

verus! {

/// A value that a registry can hold: it can be compared with another by its
/// view, and copied.
pub trait Descriptor: View + Sized {
    /// Whether both descriptors have the same view.
    fn same(&self, other: &Self) -> (r: bool)
        ensures
            r == (self@ == other@),
    ;

    /// A copy with the same view.
    fn duplicate(&self) -> (copy: Self)
        ensures
            copy@ == self@,
    ;
}

impl Descriptor for String {
    fn same(&self, other: &Self) -> (r: bool) {
        *self == *other
    }

    fn duplicate(&self) -> (copy: Self) {
        self.clone()
    }
}

/// Descriptors in the order of their first registration.
pub struct Registry<T: Descriptor> {
    items: Vec<T>,
}

/// The position of the first entry of `entries` that equals `entry`, or the
/// length of `entries` where there is none.
pub open spec fn first_index_of<V>(entries: Seq<V>, entry: V) -> int
    decreases entries.len(),
{
    if entries.len() == 0 {
        0
    } else if entries[0] == entry {
        0
    } else {
        1 + first_index_of(entries.drop_first(), entry)
    }
}

/// `first_index_of` gives a position at most the length; below the length
/// it is the position of an equal entry that no equal entry precedes, and at
/// the length there is no equal entry.
pub proof fn lemma_first_index_of<V>(entries: Seq<V>, entry: V)
    ensures
        0 <= first_index_of(entries, entry) <= entries.len(),
        first_index_of(entries, entry) < entries.len() ==> entries[first_index_of(entries, entry)]
            == entry,
        forall|i: int| 0 <= i < first_index_of(entries, entry) ==> entries[i] != entry,
        first_index_of(entries, entry) < entries.len() <==> entries.contains(entry),
    decreases entries.len(),
{
    if entries.len() == 0 {
    } else if entries[0] == entry {
    } else {
        let rest = entries.drop_first();
        lemma_first_index_of(rest, entry);
        let k = first_index_of(rest, entry);
        assert forall|i: int| 0 <= i < 1 + k implies entries[i] != entry by {
            if i > 0 {
                assert(rest[i - 1] == entries[i]);
            }
        }
        if k < rest.len() {
            assert(entries[1 + k] == rest[k]);
        }
        if entries.contains(entry) {
            let j = choose|j: int| 0 <= j < entries.len() && entries[j] == entry;
            assert(rest[j - 1] == entry);
        }
    }
}

/// What registering `entry` makes of the entries: unchanged where an equal
/// entry is present, else with `entry` appended.
pub open spec fn registered<V>(entries: Seq<V>, entry: V) -> Seq<V> {
    if entries.contains(entry) {
        entries
    } else {
        entries.push(entry)
    }
}

impl<T: Descriptor> Registry<T> {
    /// The views of the entries, in order.
    pub closed spec fn entries(&self) -> Seq<T::V> {
        Seq::new(self.items@.len(), |i: int| self.items@[i]@)
    }

    /// No two entries are equal.
    pub open spec fn wf(&self) -> bool {
        self.entries().no_duplicates()
    }

    /// A registry without entries.
    pub fn new() -> (registry: Self)
        ensures
            registry.entries() == Seq::<T::V>::empty(),
            registry.wf(),
    {
        let registry = Registry { items: Vec::new() };
        assert(registry.entries() =~= Seq::<T::V>::empty());
        registry
    }

    /// The number of entries.
    pub fn len(&self) -> (len: usize)
        ensures
            len == self.entries().len(),
    {
        self.items.len()
    }

    /// The entry at `index`.
    pub fn get(&self, index: usize) -> (item: &T)
        requires
            index < self.entries().len(),
        ensures
            item@ == self.entries()[index as int],
    {
        &self.items[index]
    }

    /// The position of the entry equal to `item`, if there is one.
    pub fn index_of(&self, item: &T) -> (found: Option<usize>)
        ensures
            found is Some <==> self.entries().contains(item@),
            found matches Some(index) ==> index == first_index_of(self.entries(), item@),
    {
        let mut i: usize = 0;
        while i < self.items.len()
            invariant
                i <= self.items.len(),
                forall|j: int| 0 <= j < i ==> self.entries()[j] != item@,
            decreases self.items.len() - i,
        {
            if self.items[i].same(item) {
                proof {
                    lemma_first_index_of(self.entries(), item@);
                    let k = first_index_of(self.entries(), item@);
                    assert(self.entries()[i as int] == item@);
                    if k > i {
                        assert(self.entries()[i as int] != item@);
                    }
                }
                return Some(i);
            }
            i += 1;
        }
        proof {
            lemma_first_index_of(self.entries(), item@);
        }
        None
    }

    /// The position of the entry equal to `item`, or the number of entries
    /// where there is none.
    pub fn position_of(&self, item: &T) -> (index: usize)
        ensures
            index == first_index_of(self.entries(), item@),
    {
        proof {
            lemma_first_index_of(self.entries(), item@);
        }
        match self.index_of(item) {
            Some(index) => index,
            None => self.len(),
        }
    }

    /// Registers `item` and returns its position: that of the equal entry
    /// registered before, or, for a new entry, the position at the end.
    pub fn register(&mut self, item: &T) -> (index: usize)
        requires
            old(self).wf(),
        ensures
            final(self).wf(),
            final(self).entries() == registered(old(self).entries(), item@),
            index == first_index_of(old(self).entries(), item@),
            index < final(self).entries().len(),
            final(self).entries()[index as int] == item@,
    {
        proof {
            lemma_first_index_of(self.entries(), item@);
        }
        match self.index_of(item) {
            Some(index) => index,
            None => {
                let index = self.items.len();
                self.items.push(item.duplicate());
                proof {
                    assert(self.entries() =~= old(self).entries().push(item@));
                    assert forall|i: int, j: int|
                        0 <= i < self.entries().len() && 0 <= j < self.entries().len() && i
                            != j implies self.entries()[i] != self.entries()[j] by {
                        if i < index && j < index {
                            assert(old(self).entries()[i] != old(self).entries()[j]);
                        }
                    }
                }
                index
            },
        }
    }
}

/// Registering the same descriptor twice gives the same position, and the
/// second registration changes nothing.
pub proof fn lemma_register_is_idempotent<V>(entries: Seq<V>, entry: V)
    requires
        entries.no_duplicates(),
    ensures
        registered(registered(entries, entry), entry) == registered(entries, entry),
        first_index_of(registered(entries, entry), entry) == first_index_of(entries, entry),
{
    lemma_first_index_of(entries, entry);
    lemma_first_index_of(registered(entries, entry), entry);
    let after = registered(entries, entry);
    if !entries.contains(entry) {
        assert(after[entries.len() as int] == entry);
        assert(after.contains(entry));
        let k = first_index_of(after, entry);
        if k < entries.len() {
            assert(entries[k] == after[k]);
            assert(entries.contains(entry));
        }
    }
}

/// Registering a descriptor leaves every entry where it was: positions
/// handed out before stay valid and keep their meaning.
pub proof fn lemma_register_keeps_positions<V>(entries: Seq<V>, entry: V, earlier: V)
    ensures
        entries.contains(earlier) ==> first_index_of(registered(entries, entry), earlier)
            == first_index_of(entries, earlier),
        forall|i: int| 0 <= i < entries.len() ==> registered(entries, entry)[i] == entries[i],
{
    if entries.contains(earlier) && !entries.contains(entry) {
        lemma_first_index_of(entries, earlier);
        lemma_first_index_of(entries.push(entry), earlier);
        let a = first_index_of(entries, earlier);
        let b = first_index_of(entries.push(entry), earlier);
        assert(entries.push(entry)[a] == earlier);
        if b < a {
            assert(entries[b] == entries.push(entry)[b]);
        }
    }
}

/// The entries of a registry with the entries `entries` after the
/// descriptors `added` are registered one after the other.
pub open spec fn registered_all<V>(entries: Seq<V>, added: Seq<V>) -> Seq<V>
    decreases added.len(),
{
    if added.len() == 0 {
        entries
    } else {
        registered(registered_all(entries, added.drop_last()), added.last())
    }
}

/// Registering descriptors that are pairwise distinct, into an empty
/// registry, keeps them in the order of registration: the one registered as
/// the `i`-th gets position `i`.
pub proof fn lemma_distinct_registrations_count_up<V>(added: Seq<V>)
    requires
        added.no_duplicates(),
    ensures
        registered_all(Seq::<V>::empty(), added) == added,
        forall|i: int|
            0 <= i < added.len() ==> first_index_of(
                #[trigger] registered_all(Seq::<V>::empty(), added.take(i)),
                added[i],
            ) == i,
    decreases added.len(),
{
    if added.len() == 0 {
    } else {
        let front = added.drop_last();
        assert(front.no_duplicates());
        lemma_distinct_registrations_count_up(front);
        assert(!front.contains(added.last())) by {
            if front.contains(added.last()) {
                let j = choose|j: int| 0 <= j < front.len() && front[j] == added.last();
                assert(added[j] == added[added.len() - 1]);
            }
        }
        assert(front.push(added.last()) =~= added);
        assert forall|i: int| 0 <= i < added.len() implies first_index_of(
            #[trigger] registered_all(Seq::<V>::empty(), added.take(i)),
            added[i],
        ) == i by {
            let prefix = added.take(i);
            assert(prefix.no_duplicates());
            if i < front.len() {
                assert(front.take(i) =~= prefix);
                assert(front[i] == added[i]);
            } else {
                assert(prefix =~= front);
                lemma_first_index_of(front, added[i]);
            }
        }
    }
}

} // verus!
