//! A map from field elements.

use crate::felt::Felt;
use vstd::prelude::*;

verus! {

broadcast use crate::felt::lemma_felt_injective;

/// A map from field elements to values, kept as a list of entries.
pub struct FeltMap<V> {
    entries: Vec<(Felt, V)>,
}

/// The value of the last entry under a key.
pub open spec fn last_value<V>(entries: Seq<(Felt, V)>, key: Felt) -> Option<V>
    decreases entries.len(),
{
    if entries.len() == 0 {
        None
    } else if entries.last().0 == key {
        Some(entries.last().1)
    } else {
        last_value(entries.drop_last(), key)
    }
}

/// The map that a list of entries makes, a later entry over an earlier one under the same key.
pub open spec fn entries_map<V>(entries: Seq<(Felt, V)>) -> Map<Felt, V> {
    Map::new(
        |key: Felt| last_value(entries, key) is Some,
        |key: Felt| last_value(entries, key)->0,
    )
}

impl<V> View for FeltMap<V> {
    type V = Map<Felt, V>;

    closed spec fn view(&self) -> Map<Felt, V> {
        entries_map(self.entries@)
    }
}

/// The value under a key of a map, where there is one.
pub open spec fn lookup<V>(map: Map<Felt, V>, key: Felt) -> Option<V> {
    if map.dom().contains(key) {
        Some(map[key])
    } else {
        None
    }
}

/// Taking out an entry under one key changes nothing under another.
proof fn lemma_remove_entry<V>(entries: Seq<(Felt, V)>, i: int, key: Felt)
    requires
        0 <= i < entries.len(),
        entries[i].0 != key,
    ensures
        last_value(entries.remove(i), key) == last_value(entries, key),
    decreases entries.len(),
{
    let removed = entries.remove(i);
    if i == entries.len() - 1 {
        assert(removed =~= entries.drop_last());
    } else {
        assert(removed.last() == entries.last());
        assert(removed.drop_last() =~= entries.drop_last().remove(i));
        if entries.last().0 != key {
            lemma_remove_entry(entries.drop_last(), i, key);
        }
    }
}

/// A key without an entry has no value.
proof fn lemma_absent<V>(entries: Seq<(Felt, V)>, key: Felt)
    requires
        forall|i: int| 0 <= i < entries.len() ==> (#[trigger] entries[i]).0 != key,
    ensures
        last_value(entries, key) is None,
    decreases entries.len(),
{
    if entries.len() > 0 {
        assert(entries[entries.len() - 1].0 != key);
        assert forall|i: int| 0 <= i < entries.drop_last().len() implies (
        #[trigger] entries.drop_last()[i]).0 != key by {
            assert(entries.drop_last()[i] == entries[i]);
        }
        lemma_absent(entries.drop_last(), key);
    }
}

/// The last entry under a key is its value.
proof fn lemma_present<V>(entries: Seq<(Felt, V)>, i: int)
    requires
        0 <= i < entries.len(),
        forall|k: int| i < k < entries.len() ==> (#[trigger] entries[k]).0 != entries[i].0,
    ensures
        last_value(entries, entries[i].0) == Some(entries[i].1),
    decreases entries.len(),
{
    if i < entries.len() - 1 {
        assert(entries[entries.len() - 1].0 != entries[i].0);
        assert forall|k: int| i < k < entries.drop_last().len() implies (
        #[trigger] entries.drop_last()[k]).0 != entries.drop_last()[i].0 by {
            assert(entries.drop_last()[k] == entries[k]);
        }
        lemma_present(entries.drop_last(), i);
    }
}

impl<V> FeltMap<V> {
    /// A map without entries.
    pub fn new() -> (result: FeltMap<V>)
        ensures
            result@ == Map::<Felt, V>::empty(),
    {
        let map: FeltMap<V> = FeltMap { entries: Vec::new() };
        assert(map@ =~= Map::<Felt, V>::empty());
        map
    }

    /// The value under a key.
    pub fn get(&self, key: Felt) -> (result: Option<&V>)
        ensures
            match result {
                Some(value) => self@.dom().contains(key) && self@[key] == *value,
                None => !self@.dom().contains(key),
            },
    {
        let mut i: usize = self.entries.len();
        while i > 0
            invariant
                i <= self.entries@.len(),
                forall|k: int|
                    i <= k < self.entries@.len() ==> (#[trigger] self.entries@[k]).0 != key,
            decreases i,
        {
            i = i - 1;
            if self.entries[i].0 == key {
                proof {
                    lemma_present(self.entries@, i as int);
                }
                return Some(&self.entries[i].1);
            }
        }
        proof {
            lemma_absent(self.entries@, key);
        }
        None
    }

    /// Takes the value under a key out of the map.
    pub fn remove(&mut self, key: Felt)
        ensures
            final(self)@ == old(self)@.remove(key),
    {
        let ghost before = self.entries@;
        let mut i: usize = 0;
        while i < self.entries.len()
            invariant
                i <= self.entries@.len(),
                forall|k: int| 0 <= k < i ==> (#[trigger] self.entries@[k]).0 != key,
                forall|other: Felt|
                    other != key ==> #[trigger] last_value(self.entries@, other) == last_value(
                        before,
                        other,
                    ),
            decreases self.entries@.len() - i,
        {
            let ghost entries = self.entries@;
            if self.entries[i].0 == key {
                self.entries.remove(i);
                proof {
                    assert(self.entries@ =~= entries.remove(i as int));
                    assert forall|other: Felt| other != key implies #[trigger] last_value(
                        self.entries@,
                        other,
                    ) == last_value(before, other) by {
                        lemma_remove_entry(entries, i as int, other);
                        assert(last_value(entries, other) == last_value(before, other));
                    }
                }
            } else {
                i = i + 1;
            }
        }
        proof {
            lemma_absent(self.entries@, key);
            assert(self@ =~= entries_map(before).remove(key));
        }
    }

    /// Puts a value under a key, in place of the one that was there.
    pub fn insert(&mut self, key: Felt, value: V)
        ensures
            final(self)@ == old(self)@.insert(key, value),
    {
        self.remove(key);
        let ghost entries = self.entries@;
        self.entries.push((key, value));
        proof {
            assert(self.entries@.drop_last() =~= entries);
            assert forall|other: Felt| #[trigger] last_value(self.entries@, other) == (if other
                == key {
                Some(value)
            } else {
                last_value(entries, other)
            }) by {}
            assert(self@ =~= entries_map(entries).insert(key, value));
        }
    }
}

/// What is put under a key is found there, what is taken out is not, and every other key keeps what
/// it has.
pub proof fn law_map_holds_the_latest_value<V>(
    filling: &mut FeltMap<V>,
    filled: &FeltMap<V>,
    emptying: &mut FeltMap<V>,
    emptied: &FeltMap<V>,
    key: Felt,
    other: Felt,
    value: V,
    found: (Option<&V>, Option<&V>),
    done: ((), ()),
)
    requires
        *filled == *final(filling),
        *emptied == *final(emptying),
        call_ensures(FeltMap::insert, (filling, key, value), done.0),
        call_ensures(FeltMap::remove, (emptying, key), done.1),
        call_ensures(FeltMap::get, (filled, key), found.0),
        call_ensures(FeltMap::get, (emptied, key), found.1),
        other != key,
    ensures
        found.0 is Some && *found.0->0 == value,
        found.1 is None,
        lookup(filled@, other) == lookup(old(filling)@, other),
        lookup(emptied@, other) == lookup(old(emptying)@, other),
{
}

} // verus!
