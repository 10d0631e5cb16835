//! A keyed store: the shape of every persistent map of the Circuit.
//!
//! A table holds at most one value per key and keeps its entries in the order in
//! which their keys first arrived. Its model is the sequence of its entries; the
//! map from keys to values is derived from it.
use crate::primitives::{same_hash, H256};
use vstd::prelude::*;

verus! {

/// A key of a table: a plain value whose equality can be computed.
pub trait Key: Sized {
    /// Tells whether two keys are the same.
    fn same(&self, other: &Self) -> (r: bool)
        ensures
            r == (*self == *other),
    ;
}

impl Key for H256 {
    fn same(&self, other: &Self) -> (r: bool) {
        same_hash(self, other)
    }
}

impl Key for (H256, H256) {
    fn same(&self, other: &Self) -> (r: bool) {
        same_hash(&self.0, &other.0) && same_hash(&self.1, &other.1)
    }
}

/// Some entry has the key.
pub open spec fn has_key<K, V>(slots: Seq<(K, V)>, key: K) -> bool {
    exists|i: int| 0 <= i < slots.len() && (#[trigger] slots[i]).0 == key
}

/// The position of the first entry with the key; the number of entries if none has it.
pub open spec fn position_of<K, V>(slots: Seq<(K, V)>, key: K) -> int
    decreases slots.len(),
{
    if slots.len() == 0 {
        0
    } else if slots[0].0 == key {
        0
    } else {
        1 + position_of(slots.skip(1), key)
    }
}

/// No key occurs twice.
pub open spec fn distinct_keys<K, V>(slots: Seq<(K, V)>) -> bool {
    forall|i: int, j: int|
        0 <= i < j < slots.len() ==> (#[trigger] slots[i]).0 != (#[trigger] slots[j]).0
}

/// The map that the entries stand for.
pub open spec fn map_of<K, V>(slots: Seq<(K, V)>) -> Map<K, V> {
    Map::new(|k: K| has_key(slots, k), |k: K| slots[position_of(slots, k)].1)
}

/// The entries after a value is put under a key: a key that an entry has keeps its
/// place, a new key goes to the end.
pub open spec fn slots_put<K, V>(slots: Seq<(K, V)>, key: K, value: V) -> Seq<(K, V)> {
    if has_key(slots, key) {
        slots.update(position_of(slots, key), (key, value))
    } else {
        slots.push((key, value))
    }
}

/// The entries after a key is taken out: the others keep their order.
pub open spec fn slots_drop<K, V>(slots: Seq<(K, V)>, key: K) -> Seq<(K, V)> {
    if has_key(slots, key) {
        slots.remove(position_of(slots, key))
    } else {
        slots
    }
}

/// `position_of` finds the key where an entry has it.
pub proof fn lemma_position_of<K, V>(slots: Seq<(K, V)>, key: K)
    ensures
        0 <= position_of(slots, key) <= slots.len(),
        has_key(slots, key) <==> position_of(slots, key) < slots.len(),
        position_of(slots, key) < slots.len() ==> slots[position_of(slots, key)].0 == key,
        forall|i: int| 0 <= i < position_of(slots, key) ==> (#[trigger] slots[i]).0 != key,
    decreases slots.len(),
{
    if slots.len() == 0 {
    } else if slots[0].0 == key {
    } else {
        let rest = slots.skip(1);
        lemma_position_of(rest, key);
        let p = position_of(rest, key);
        assert forall|i: int| 0 <= i < 1 + p implies (#[trigger] slots[i]).0 != key by {
            if i > 0 {
                assert(rest[i - 1] == slots[i]);
            }
        }
        if p < rest.len() {
            assert(rest[p] == slots[p + 1]);
        }
        if has_key(slots, key) {
            let i = choose|i: int| 0 <= i < slots.len() && (#[trigger] slots[i]).0 == key;
            assert(rest[i - 1] == slots[i]);
        }
    }
}

/// Among distinct keys, the entry at `i` is the one that its key finds.
pub proof fn lemma_position_at<K, V>(slots: Seq<(K, V)>, i: int)
    requires
        distinct_keys(slots),
        0 <= i < slots.len(),
    ensures
        position_of(slots, slots[i].0) == i,
        has_key(slots, slots[i].0),
{
    lemma_position_of(slots, slots[i].0);
}

/// Putting a value under a key keeps the keys distinct, adds the key to those
/// that the entries have, and inserts the value in the map.
pub proof fn lemma_slots_put<K, V>(slots: Seq<(K, V)>, key: K, value: V)
    requires
        distinct_keys(slots),
    ensures
        distinct_keys(slots_put(slots, key, value)),
        forall|k: K| has_key(slots_put(slots, key, value), k) <==> (has_key(slots, k) || k == key),
        map_of(slots_put(slots, key, value)) == map_of(slots).insert(key, value),
{
    let before = slots;
    let after = slots_put(slots, key, value);
    lemma_position_of(before, key);
    if has_key(before, key) {
        assert forall|k: K| has_key(after, k) == has_key(before, k) by {
            if has_key(after, k) {
                let j = choose|j: int| 0 <= j < after.len() && (#[trigger] after[j]).0 == k;
                assert(before[j].0 == k);
            }
            if has_key(before, k) {
                let j = choose|j: int| 0 <= j < before.len() && (#[trigger] before[j]).0 == k;
                assert(after[j].0 == k);
            }
        }
        assert forall|k: K| has_key(after, k) implies #[trigger] map_of(after)[k] == map_of(
            before,
        ).insert(key, value)[k] by {
            lemma_position_of(after, k);
            lemma_position_of(before, k);
            let p = position_of(after, k);
            assert(before[p].0 == k);
            lemma_position_at(before, p);
        }
    } else {
        assert(after[before.len() as int].0 == key);
        assert forall|k: K| has_key(after, k) == (has_key(before, k) || k == key) by {
            if has_key(after, k) {
                let j = choose|j: int| 0 <= j < after.len() && (#[trigger] after[j]).0 == k;
                if j < before.len() {
                    assert(before[j].0 == k);
                }
            }
            if has_key(before, k) {
                let j = choose|j: int| 0 <= j < before.len() && (#[trigger] before[j]).0 == k;
                assert(after[j].0 == k);
            }
        }
        assert forall|k: K| has_key(after, k) implies #[trigger] map_of(after)[k] == map_of(
            before,
        ).insert(key, value)[k] by {
            lemma_position_of(after, k);
            let p = position_of(after, k);
            if p < before.len() {
                assert(before[p].0 == k);
                lemma_position_at(before, p);
            }
        }
    }
    assert(map_of(after) =~= map_of(before).insert(key, value));
}

/// Taking a key out keeps the keys distinct, takes the key from those that the
/// entries have, and removes it from the map.
pub proof fn lemma_slots_drop<K, V>(slots: Seq<(K, V)>, key: K)
    requires
        distinct_keys(slots),
    ensures
        distinct_keys(slots_drop(slots, key)),
        forall|k: K| has_key(slots_drop(slots, key), k) <==> (has_key(slots, k) && k != key),
        map_of(slots_drop(slots, key)) == map_of(slots).remove(key),
{
    let before = slots;
    let after = slots_drop(slots, key);
    lemma_position_of(before, key);
    if has_key(before, key) {
        let i = position_of(before, key);
        assert forall|k: K| has_key(after, k) == (has_key(before, k) && k != key) by {
            if has_key(after, k) {
                let j = choose|j: int| 0 <= j < after.len() && (#[trigger] after[j]).0 == k;
                if j < i {
                    assert(before[j].0 == k);
                } else {
                    assert(before[j + 1].0 == k);
                }
            }
            if has_key(before, k) && k != key {
                let j = choose|j: int| 0 <= j < before.len() && (#[trigger] before[j]).0 == k;
                if j < i {
                    assert(after[j].0 == k);
                } else {
                    assert(after[j - 1].0 == k);
                }
            }
        }
        assert forall|k: K| has_key(after, k) implies #[trigger] map_of(after)[k] == map_of(
            before,
        ).remove(key)[k] by {
            lemma_position_of(after, k);
            let p = position_of(after, k);
            if p < i {
                assert(before[p].0 == k);
                lemma_position_at(before, p);
            } else {
                assert(before[p + 1].0 == k);
                lemma_position_at(before, p + 1);
            }
        }
    }
    assert(map_of(after) =~= map_of(before).remove(key));
}

/// After a key is taken out, no entry before its first place has it; where the
/// keys are distinct, no entry has it at all.
pub proof fn lemma_slots_drop_gone<K, V>(slots: Seq<(K, V)>, key: K)
    ensures
        distinct_keys(slots) ==> !has_key(slots_drop(slots, key), key),
        !has_key(slots, key) ==> slots_drop(slots, key) == slots,
{
    if distinct_keys(slots) {
        lemma_slots_drop(slots, key);
    }
}

/// A keyed store with at most one value per key.
#[derive(Clone, Debug, PartialEq, Eq)]
pub struct Table<K, V> {
    entries: Vec<(K, V)>,
}

impl<K: Key, V> Table<K, V> {
    /// The entries, in the order in which their keys first arrived.
    pub closed spec fn slots(&self) -> Seq<(K, V)> {
        self.entries@
    }

    /// No key occurs twice: what every table keeps.
    pub open spec fn wf(&self) -> bool {
        distinct_keys(self.slots())
    }

    /// The map from keys to values.
    pub open spec fn map(&self) -> Map<K, V> {
        map_of(self.slots())
    }

    /// The table holds the key.
    pub open spec fn has(&self, key: K) -> bool {
        has_key(self.slots(), key)
    }

    /// An empty table.
    pub fn new() -> (r: Self)
        ensures
            r.slots() == Seq::<(K, V)>::empty(),
            r.wf(),
    {
        Table { entries: Vec::new() }
    }

    /// The number of entries.
    pub fn len(&self) -> (r: usize)
        ensures
            r == self.slots().len(),
    {
        self.entries.len()
    }

    /// The entry at a position.
    pub fn entry(&self, i: usize) -> (r: &(K, V))
        requires
            i < self.slots().len(),
        ensures
            *r == self.slots()[i as int],
    {
        &self.entries[i]
    }

    /// The position of the entry with the key, if the table holds it.
    pub fn find(&self, key: &K) -> (r: Option<usize>)
        ensures
            match r {
                Some(i) => i < self.slots().len() && self.slots()[i as int].0 == *key && i
                    == position_of(self.slots(), *key),
                None => !self.has(*key),
            },
    {
        let mut i: usize = 0;
        while i < self.entries.len()
            invariant
                i <= self.entries.len(),
                forall|k: int| 0 <= k < i ==> (#[trigger] self.entries@[k]).0 != *key,
            decreases self.entries.len() - i,
        {
            if self.entries[i].0.same(key) {
                proof {
                    lemma_position_of(self.entries@, *key);
                    assert(self.entries@[i as int].0 == *key);
                }
                return Some(i);
            }
            i += 1;
        }
        None
    }

    /// Tells whether the table holds the key.
    pub fn contains_key(&self, key: &K) -> (r: bool)
        ensures
            r == self.has(*key),
    {
        self.find(key).is_some()
    }

    /// The value under the key, if the table holds it.
    pub fn get(&self, key: &K) -> (r: Option<&V>)
        ensures
            match r {
                Some(v) => self.has(*key) && *v == self.map()[*key],
                None => !self.has(*key),
            },
    {
        match self.find(key) {
            Some(i) => Some(&self.entries[i].1),
            None => None,
        }
    }

    /// Puts a value under the key. A key that the table holds keeps its place; a
    /// new key goes to the end.
    pub fn insert(&mut self, key: K, value: V)
        requires
            old(self).wf(),
        ensures
            final(self).wf(),
            final(self).slots() == slots_put(old(self).slots(), key, value),
            final(self).map() == old(self).map().insert(key, value),
    {
        proof {
            lemma_slots_put(self.entries@, key, value);
        }
        match self.find(&key) {
            Some(i) => {
                self.entries[i] = (key, value);
            },
            None => {
                self.entries.push((key, value));
            },
        }
    }

    /// Takes the key out, with its value. The other entries keep their order.
    pub fn remove(&mut self, key: &K)
        requires
            old(self).wf(),
        ensures
            final(self).wf(),
            final(self).slots() == slots_drop(old(self).slots(), *key),
            final(self).map() == old(self).map().remove(*key),
    {
        proof {
            lemma_slots_drop(self.entries@, *key);
        }
        match self.find(key) {
            Some(i) => {
                self.entries.remove(i);
            },
            None => {},
        }
    }
}

} // verus!
