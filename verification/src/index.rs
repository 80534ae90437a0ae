//! A map keyed by torrent identity, walked in identity order.
use crate::hash::InfoHash;
use vstd::prelude::*;

verus! {

/// Entries in strictly increasing key order.
#[derive(Debug)]
pub struct HashIndex<V> {
    entries: Vec<(InfoHash, V)>,
}

/// Keys strictly increase along the sequence.
pub open spec fn keys_increase<V>(entries: Seq<(InfoHash, V)>) -> bool {
    forall|i: int, j: int|
        0 <= i < j < entries.len() ==> (#[trigger] entries[i]).0.rank() < (
        #[trigger] entries[j]).0.rank()
}

/// Some entry carries the key.
pub open spec fn has_key<V>(entries: Seq<(InfoHash, V)>, key: InfoHash) -> bool {
    exists|i: int| 0 <= i < entries.len() && (#[trigger] entries[i]).0 == key
}

/// The position of the entry that carries the key.
pub open spec fn position_of<V>(entries: Seq<(InfoHash, V)>, key: InfoHash) -> int {
    choose|i: int| 0 <= i < entries.len() && (#[trigger] entries[i]).0 == key
}

/// The map that a sequence of entries stands for.
pub open spec fn entry_map<V>(entries: Seq<(InfoHash, V)>) -> Map<InfoHash, V> {
    Map::new(
        |key: InfoHash| has_key(entries, key),
        |key: InfoHash| entries[position_of(entries, key)].1,
    )
}

impl<V> View for HashIndex<V> {
    type V = Map<InfoHash, V>;

    open spec fn view(&self) -> Map<InfoHash, V> {
        entry_map(self.seq())
    }
}

impl<V> HashIndex<V> {
    /// The entries in key order.
    pub closed spec fn seq(&self) -> Seq<(InfoHash, V)> {
        self.entries@
    }

    /// Every key occurs once, and the entries are in key order.
    pub open spec fn wf(&self) -> bool {
        keys_increase(self.seq())
    }

    pub fn new() -> (index: HashIndex<V>)
        ensures
            index.wf(),
            index.seq() == Seq::<(InfoHash, V)>::empty(),
            index@ == Map::<InfoHash, V>::empty(),
    {
        let index = HashIndex { entries: Vec::new() };
        assert(index@ =~= Map::<InfoHash, V>::empty());
        index
    }

    pub fn len(&self) -> (count: usize)
        ensures
            count == self.seq().len(),
    {
        self.entries.len()
    }

    pub fn is_empty(&self) -> (empty: bool)
        requires
            self.wf(),
        ensures
            empty == (self.seq().len() == 0),
            empty == (self@ == Map::<InfoHash, V>::empty()),
    {
        proof {
            if self.seq().len() == 0 {
                assert(self@ =~= Map::<InfoHash, V>::empty());
            } else {
                lemma_entry(self.seq(), 0);
                assert(self@.dom().contains(self.seq()[0].0));
            }
        }
        self.entries.len() == 0
    }

    /// The key of the entry at a position in key order.
    pub fn key_at(&self, position: usize) -> (key: InfoHash)
        requires
            self.wf(),
            position < self.seq().len(),
        ensures
            key == self.seq()[position as int].0,
            self@.dom().contains(key),
            self@[key] == self.seq()[position as int].1,
    {
        proof {
            lemma_entry(self.seq(), position as int);
        }
        self.entries[position].0
    }

    /// The value of the entry at a position in key order.
    pub fn value_at(&self, position: usize) -> (value: &V)
        requires
            self.wf(),
            position < self.seq().len(),
        ensures
            *value == self.seq()[position as int].1,
            *value == self@[self.seq()[position as int].0],
    {
        proof {
            lemma_entry(self.seq(), position as int);
        }
        &self.entries[position].1
    }

    /// The value of the entry at a position in key order, for an update in place.
    pub fn value_at_mut(&mut self, position: usize) -> (value: &mut V)
        requires
            old(self).wf(),
            position < old(self).seq().len(),
        ensures
            *value == old(self).seq()[position as int].1,
            *value == old(self)@[old(self).seq()[position as int].0],
            final(self).wf(),
            final(self).seq() == old(self).seq().update(
                position as int,
                (old(self).seq()[position as int].0, *final(value)),
            ),
            final(self)@ == old(self)@.insert(
                old(self).seq()[position as int].0,
                *final(value),
            ),
    {
        proof {
            lemma_entry(self.seq(), position as int);
            assert forall|value: V|
                #![trigger self.seq().update(position as int, (self.seq()[position as int].0, value))]
                keys_increase(
                    self.seq().update(position as int, (self.seq()[position as int].0, value)),
                ) && entry_map(
                    self.seq().update(position as int, (self.seq()[position as int].0, value)),
                ) == entry_map(self.seq()).insert(self.seq()[position as int].0, value) by {
                lemma_update(self.seq(), position as int, value);
            }
        }
        &mut self.entries[position].1
    }

    /// Where the key is, or where it would be inserted.
    fn search(&self, key: &InfoHash) -> (place: usize)
        requires
            self.wf(),
        ensures
            place <= self.seq().len(),
            forall|i: int| 0 <= i < place ==> (#[trigger] self.seq()[i]).0.rank() < key.rank(),
            forall|i: int|
                place <= i < self.seq().len() ==> (#[trigger] self.seq()[i]).0.rank()
                    >= key.rank(),
    {
        let mut low: usize = 0;
        let mut high: usize = self.entries.len();
        while low < high
            invariant
                self.wf(),
                low <= high <= self.seq().len(),
                self.seq() == self.entries@,
                forall|i: int| 0 <= i < low ==> (#[trigger] self.seq()[i]).0.rank() < key.rank(),
                forall|i: int|
                    high <= i < self.seq().len() ==> (#[trigger] self.seq()[i]).0.rank()
                        >= key.rank(),
            decreases high - low,
        {
            let middle: usize = low + (high - low) / 2;
            assert(self.seq()[middle as int] == self.entries@[middle as int]);
            if self.entries[middle].0.precedes(key) {
                low = middle + 1;
            } else {
                high = middle;
            }
        }
        low
    }

    /// The position of a key, if the map holds it.
    pub fn find(&self, key: &InfoHash) -> (position: Option<usize>)
        requires
            self.wf(),
        ensures
            position.is_some() == self@.dom().contains(*key),
            position matches Some(i) ==> i < self.seq().len() && self.seq()[i as int].0 == *key
                && self.seq()[i as int].1 == self@[*key],
    {
        let place: usize = self.search(key);
        if place < self.entries.len() && self.entries[place].0 == *key {
            proof {
                lemma_entry(self.seq(), place as int);
            }
            Some(place)
        } else {
            proof {
                if has_key(self.seq(), *key) {
                    let i = position_of(self.seq(), *key);
                    assert(self.seq()[i].0.rank() == key.rank());
                    if place < i {
                        assert(self.seq()[place as int].0.rank() < self.seq()[i].0.rank());
                    }
                }
            }
            None
        }
    }

    pub fn contains(&self, key: &InfoHash) -> (present: bool)
        requires
            self.wf(),
        ensures
            present == self@.dom().contains(*key),
    {
        self.find(key).is_some()
    }

    pub fn get(&self, key: &InfoHash) -> (value: Option<&V>)
        requires
            self.wf(),
        ensures
            value.is_some() == self@.dom().contains(*key),
            value matches Some(v) ==> *v == self@[*key],
    {
        match self.find(key) {
            Some(position) => Some(&self.entries[position].1),
            None => None,
        }
    }

    /// Binds the key to the value, in place of what it was bound to.
    pub fn insert(&mut self, key: InfoHash, value: V)
        requires
            old(self).wf(),
        ensures
            final(self).wf(),
            final(self)@ == old(self)@.insert(key, value),
    {
        let place: usize = self.search(&key);
        if place < self.entries.len() && self.entries[place].0 == key {
            proof {
                lemma_update(self.seq(), place as int, value);
            }
            self.entries.set(place, (key, value));
        } else {
            proof {
                if place < self.seq().len() && self.seq()[place as int].0.rank() == key.rank() {
                    crate::hash::rank_is_injective(self.seq()[place as int].0, key);
                }
                lemma_insert(self.seq(), place as int, key, value);
            }
            self.entries.insert(place, (key, value));
        }
    }

    /// Unbinds the key and returns what it was bound to.
    pub fn remove(&mut self, key: &InfoHash) -> (removed: Option<V>)
        requires
            old(self).wf(),
        ensures
            final(self).wf(),
            final(self)@ == old(self)@.remove(*key),
            removed == (if old(self)@.dom().contains(*key) {
                Some(old(self)@[*key])
            } else {
                None
            }),
    {
        match self.find(key) {
            Some(position) => {
                proof {
                    lemma_remove(self.seq(), position as int);
                }
                let (_, value) = self.entries.remove(position);
                Some(value)
            },
            None => {
                assert(self@.remove(*key) =~= self@);
                None
            },
        }
    }

    pub fn clear(&mut self)
        ensures
            final(self).wf(),
            final(self)@ == Map::<InfoHash, V>::empty(),
            final(self).seq() == Seq::<(InfoHash, V)>::empty(),
    {
        self.entries.clear();
        assert(self@ =~= Map::<InfoHash, V>::empty());
    }
}

/// An entry's key is in the map, with the entry's value.
pub proof fn lemma_entry<V>(entries: Seq<(InfoHash, V)>, position: int)
    requires
        keys_increase(entries),
        0 <= position < entries.len(),
    ensures
        has_key(entries, entries[position].0),
        position_of(entries, entries[position].0) == position,
        entry_map(entries).dom().contains(entries[position].0),
        entry_map(entries)[entries[position].0] == entries[position].1,
{
    let key = entries[position].0;
    let found = position_of(entries, key);
    assert(0 <= found < entries.len() && entries[found].0 == key);
    if found < position {
        assert(entries[found].0.rank() < entries[position].0.rank());
    }
    if position < found {
        assert(entries[position].0.rank() < entries[found].0.rank());
    }
}

proof fn lemma_update<V>(entries: Seq<(InfoHash, V)>, position: int, value: V)
    requires
        keys_increase(entries),
        0 <= position < entries.len(),
    ensures
        keys_increase(entries.update(position, (entries[position].0, value))),
        entry_map(entries.update(position, (entries[position].0, value))) == entry_map(
            entries,
        ).insert(entries[position].0, value),
{
    let updated = entries.update(position, (entries[position].0, value));
    assert(keys_increase(updated));
    assert forall|key: InfoHash| has_key(updated, key) == has_key(entries, key) by {
        if has_key(updated, key) {
            let i = position_of(updated, key);
            assert(entries[i].0 == key);
        }
        if has_key(entries, key) {
            let i = position_of(entries, key);
            assert(updated[i].0 == key);
        }
    }
    lemma_entry(entries, position);
    lemma_entry(updated, position);
    assert forall|key: InfoHash| has_key(entries, key) implies entry_map(updated)[key]
        == #[trigger] entry_map(entries).insert(entries[position].0, value)[key] by {
        let i = position_of(entries, key);
        lemma_entry(entries, i);
        lemma_entry(updated, i);
    }
    assert(entry_map(updated) =~= entry_map(entries).insert(entries[position].0, value));
}

proof fn lemma_insert<V>(entries: Seq<(InfoHash, V)>, place: int, key: InfoHash, value: V)
    requires
        keys_increase(entries),
        0 <= place <= entries.len(),
        forall|i: int| 0 <= i < place ==> (#[trigger] entries[i]).0.rank() < key.rank(),
        forall|i: int|
            place <= i < entries.len() ==> (#[trigger] entries[i]).0.rank() > key.rank(),
    ensures
        keys_increase(entries.insert(place, (key, value))),
        entry_map(entries.insert(place, (key, value))) == entry_map(entries).insert(key, value),
{
    let grown = entries.insert(place, (key, value));
    assert(keys_increase(grown)) by {
        assert forall|i: int, j: int| 0 <= i < j < grown.len() implies (
        #[trigger] grown[i]).0.rank() < (#[trigger] grown[j]).0.rank() by {
            let a = if i < place { i } else { i - 1 };
            let b = if j < place { j } else { j - 1 };
            if i != place {
                assert(grown[i] == entries[a]);
            }
            if j != place {
                assert(grown[j] == entries[b]);
            }
        }
    }
    assert forall|k: InfoHash| #[trigger] has_key(grown, k) == (k == key || has_key(entries, k)) by {
        if has_key(grown, k) {
            let i = position_of(grown, k);
            if i < place {
                assert(entries[i].0 == k);
            } else if i > place {
                assert(entries[i - 1].0 == k);
            }
        }
        if has_key(entries, k) {
            let i = position_of(entries, k);
            if i < place {
                assert(grown[i].0 == k);
            } else {
                assert(grown[i + 1].0 == k);
            }
        }
        assert(grown[place].0 == key);
    }
    assert forall|k: InfoHash| has_key(grown, k) implies entry_map(grown)[k]
        == #[trigger] entry_map(entries).insert(key, value)[k] by {
        lemma_entry(grown, place);
        if k != key {
            let i = position_of(entries, k);
            lemma_entry(entries, i);
            if i < place {
                lemma_entry(grown, i);
            } else {
                lemma_entry(grown, i + 1);
            }
        }
    }
    assert(entry_map(grown) =~= entry_map(entries).insert(key, value));
}

proof fn lemma_remove<V>(entries: Seq<(InfoHash, V)>, place: int)
    requires
        keys_increase(entries),
        0 <= place < entries.len(),
    ensures
        keys_increase(entries.remove(place)),
        entry_map(entries.remove(place)) == entry_map(entries).remove(entries[place].0),
{
    let shrunk = entries.remove(place);
    let key = entries[place].0;
    assert(keys_increase(shrunk)) by {
        assert forall|i: int, j: int| 0 <= i < j < shrunk.len() implies (
        #[trigger] shrunk[i]).0.rank() < (#[trigger] shrunk[j]).0.rank() by {
            let a = if i < place { i } else { i + 1 };
            let b = if j < place { j } else { j + 1 };
            assert(shrunk[i] == entries[a]);
            assert(shrunk[j] == entries[b]);
        }
    }
    assert forall|k: InfoHash| #[trigger] has_key(shrunk, k) == (k != key && has_key(entries, k)) by {
        if has_key(shrunk, k) {
            let i = position_of(shrunk, k);
            let a = if i < place { i } else { i + 1 };
            assert(shrunk[i] == entries[a]);
            lemma_entry(entries, place);
            lemma_entry(entries, a);
        }
        if k != key && has_key(entries, k) {
            let i = position_of(entries, k);
            if i < place {
                assert(shrunk[i].0 == k);
            } else {
                assert(shrunk[i - 1].0 == k);
            }
        }
    }
    assert forall|k: InfoHash| has_key(shrunk, k) implies entry_map(shrunk)[k]
        == #[trigger] entry_map(entries).remove(key)[k] by {
        let i = position_of(shrunk, k);
        let a = if i < place { i } else { i + 1 };
        lemma_entry(shrunk, i);
        lemma_entry(entries, a);
    }
    assert(entry_map(shrunk) =~= entry_map(entries).remove(key));
}

/// Rewriting every value in place rewrites the map pointwise.
pub proof fn lemma_rewritten<V>(
    before: Seq<(InfoHash, V)>,
    after: Seq<(InfoHash, V)>,
    rewrite: spec_fn(InfoHash, V) -> V,
)
    requires
        keys_increase(before),
        after.len() == before.len(),
        forall|i: int|
            0 <= i < before.len() ==> #[trigger] after[i] == (
                before[i].0,
                rewrite(before[i].0, before[i].1),
            ),
    ensures
        keys_increase(after),
        entry_map(after).dom() == entry_map(before).dom(),
        forall|key: InfoHash|
            entry_map(before).dom().contains(key) ==> #[trigger] entry_map(after)[key] == rewrite(
                key,
                entry_map(before)[key],
            ),
{
    assert(keys_increase(after)) by {
        assert forall|i: int, j: int| 0 <= i < j < after.len() implies (
        #[trigger] after[i]).0.rank() < (#[trigger] after[j]).0.rank() by {
            assert(before[i].0.rank() < before[j].0.rank());
        }
    }
    assert forall|key: InfoHash| #[trigger] has_key(after, key) == has_key(before, key) by {
        if has_key(after, key) {
            let i = position_of(after, key);
            assert(after[i].0 == key);
            assert(before[i].0 == key);
        }
        if has_key(before, key) {
            let i = position_of(before, key);
            assert(after[i].0 == key);
        }
    }
    assert(entry_map(after).dom() =~= entry_map(before).dom());
    assert forall|key: InfoHash| entry_map(before).dom().contains(key) implies
        #[trigger] entry_map(after)[key] == rewrite(key, entry_map(before)[key]) by {
        let i = position_of(before, key);
        lemma_entry(before, i);
        lemma_entry(after, i);
    }
}

} // verus!
