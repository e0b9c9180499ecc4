use vstd::prelude::*;

verus! {

/// A key made of two MIDI bytes: status and first data byte.
pub type PairKey = (u8, u8);

/// The value stored for `key` in an entry list: the entry latest in the
/// list with that key.
pub open spec fn lookup<K, V>(entries: Seq<(K, V)>, key: K) -> Option<V>
    decreases entries.len(),
{
    if entries.len() == 0 {
        None
    } else if entries.last().0 == key {
        Some(entries.last().1)
    } else {
        lookup(entries.drop_last(), key)
    }
}

/// No key occurs twice.
pub open spec fn keys_unique<K, V>(entries: Seq<(K, V)>) -> bool {
    forall|i: int, j: int|
        0 <= i < j < entries.len() ==> #[trigger] entries[i].0 != #[trigger] entries[j].0
}

/// In a list with unique keys, each entry's key looks up that entry's value.
pub proof fn lemma_lookup_found<K, V>(entries: Seq<(K, V)>, i: int)
    requires
        keys_unique(entries),
        0 <= i < entries.len(),
    ensures
        lookup(entries, entries[i].0) == Some(entries[i].1),
    decreases entries.len(),
{
    if i < entries.len() - 1 {
        let rest = entries.drop_last();
        assert(entries[i].0 != entries[entries.len() - 1].0);
        assert(rest[i] == entries[i]);
        lemma_lookup_found(rest, i);
    }
}

proof fn lemma_lookup_absent<K, V>(entries: Seq<(K, V)>, key: K)
    requires
        forall|i: int| 0 <= i < entries.len() ==> #[trigger] entries[i].0 != key,
    ensures
        lookup(entries, key) is None,
    decreases entries.len(),
{
    if entries.len() > 0 {
        let rest = entries.drop_last();
        assert forall|i: int| 0 <= i < rest.len() implies #[trigger] rest[i].0 != key by {
            assert(rest[i] == entries[i]);
        }
        lemma_lookup_absent(rest, key);
    }
}

/// Lookup in a list with unique keys, by position.
proof fn lemma_lookup_cases<K, V>(entries: Seq<(K, V)>, key: K)
    requires
        keys_unique(entries),
    ensures
        lookup(entries, key) is Some <==> exists|i: int|
            0 <= i < entries.len() && #[trigger] entries[i].0 == key,
        forall|i: int|
            0 <= i < entries.len() && #[trigger] entries[i].0 == key ==> lookup(entries, key)
                == Some(entries[i].1),
{
    if exists|i: int| 0 <= i < entries.len() && #[trigger] entries[i].0 == key {
        let i = choose|i: int| 0 <= i < entries.len() && #[trigger] entries[i].0 == key;
        lemma_lookup_found(entries, i);
    } else {
        lemma_lookup_absent(entries, key);
    }
    assert forall|i: int| 0 <= i < entries.len() && #[trigger] entries[i].0 == key implies lookup(
        entries,
        key,
    ) == Some(entries[i].1) by {
        lemma_lookup_found(entries, i);
    }
}

/// A stored value is held by some entry with its key.
pub proof fn lemma_lookup_has_entry<K, V>(entries: Seq<(K, V)>, key: K)
    ensures
        lookup(entries, key) matches Some(v) ==> exists|i: int|
            0 <= i < entries.len() && #[trigger] entries[i] == (key, v),
    decreases entries.len(),
{
    if entries.len() > 0 && entries.last().0 != key {
        let rest = entries.drop_last();
        lemma_lookup_has_entry(rest, key);
        if let Some(v) = lookup(rest, key) {
            let i = choose|i: int| 0 <= i < rest.len() && #[trigger] rest[i] == (key, v);
            assert(entries[i] == (key, v));
        }
    } else if entries.len() > 0 {
        assert(entries[entries.len() - 1] == (key, entries.last().1));
    }
}

/// A key of a small table, compared for equality.
pub trait TableKey: Sized {
    /// Whether two keys are equal.
    fn same(&self, other: &Self) -> (r: bool)
        ensures
            r == (*self == *other),
    ;

    /// A copy of the key.
    fn duplicate(&self) -> (r: Self)
        ensures
            r == *self,
    ;
}

impl TableKey for (u8, u8) {
    fn same(&self, other: &Self) -> (r: bool) {
        self.0 == other.0 && self.1 == other.1
    }

    fn duplicate(&self) -> (r: Self) {
        (self.0, self.1)
    }
}

impl TableKey for (u128, u16) {
    fn same(&self, other: &Self) -> (r: bool) {
        self.0 == other.0 && self.1 == other.1
    }

    fn duplicate(&self) -> (r: Self) {
        (self.0, self.1)
    }
}

impl TableKey for u32 {
    fn same(&self, other: &Self) -> (r: bool) {
        *self == *other
    }

    fn duplicate(&self) -> (r: Self) {
        *self
    }
}

/// A small map from keys to values, kept as a list of entries in which no
/// key occurs twice.
#[derive(Clone, Debug)]
pub struct KeyTable<K: TableKey, V: Copy> {
    entries: Vec<(K, V)>,
}

/// A table keyed by two MIDI bytes: status and first data byte.
pub type PairTable<V> = KeyTable<PairKey, V>;

impl<K: TableKey, V: Copy> KeyTable<K, V> {
    /// The entries in storage order.
    pub closed spec fn entry_seq(self) -> Seq<(K, V)> {
        self.entries@
    }

    /// The value stored for `key`, if any.
    pub open spec fn spec_get(self, key: K) -> Option<V> {
        lookup(self.entry_seq(), key)
    }

    /// No key is stored twice.
    pub open spec fn well_formed(self) -> bool {
        keys_unique(self.entry_seq())
    }

    /// An empty table.
    pub fn new() -> (r: Self)
        ensures
            r.well_formed(),
            r.entry_seq().len() == 0,
            forall|k: K| r.spec_get(k) is None,
    {
        KeyTable { entries: Vec::new() }
    }

    /// Number of stored keys.
    pub fn len(&self) -> (r: usize)
        ensures
            r == self.entry_seq().len(),
    {
        self.entries.len()
    }

    /// Whether no key is stored.
    pub fn is_empty(&self) -> (r: bool)
        requires
            self.well_formed(),
        ensures
            r == (self.entry_seq().len() == 0),
            r ==> forall|k: K| self.spec_get(k) is None,
    {
        proof {
            if self.entries.len() == 0 {
                assert forall|k: K| self.spec_get(k) is None by {
                    lemma_lookup_absent(self.entries@, k);
                }
            }
        }
        self.entries.len() == 0
    }

    fn position(&self, key: &K) -> (r: Option<usize>)
        requires
            self.well_formed(),
        ensures
            match r {
                Some(i) => i < self.entry_seq().len() && self.entry_seq()[i as int].0 == key,
                None => forall|i: int|
                    0 <= i < self.entry_seq().len() ==> #[trigger] self.entry_seq()[i].0 != key,
            },
    {
        let mut i: usize = 0;
        while i < self.entries.len()
            invariant
                i <= self.entries@.len(),
                forall|j: int| 0 <= j < i ==> #[trigger] self.entries@[j].0 != key,
            decreases self.entries@.len() - i,
        {
            if self.entries[i].0.same(key) {
                return Some(i);
            }
            i = i + 1;
        }
        None
    }

    /// The value stored for `key`.
    pub fn get(&self, key: K) -> (r: Option<V>)
        requires
            self.well_formed(),
        ensures
            r == self.spec_get(key),
    {
        proof {
            lemma_lookup_cases(self.entries@, key);
        }
        match self.position(&key) {
            Some(i) => Some(self.entries[i].1),
            None => None,
        }
    }

    /// Store `value` for `key`; returns the value it replaced.
    pub fn insert(&mut self, key: K, value: V) -> (r: Option<V>)
        requires
            old(self).well_formed(),
        ensures
            final(self).well_formed(),
            r == old(self).spec_get(key),
            final(self).spec_get(key) == Some(value),
            forall|k: K| k != key ==> final(self).spec_get(k) == old(self).spec_get(k),
            r is None ==> final(self).entry_seq() == old(self).entry_seq().push((key, value)),
            r is Some ==> exists|i: int|
                0 <= i < old(self).entry_seq().len() && #[trigger] old(self).entry_seq()[i].0 == key
                    && final(self).entry_seq() == old(self).entry_seq().update(i, (key, value)),
    {
        let ghost before = self.entries@;
        proof {
            lemma_lookup_cases(before, key);
        }
        match self.position(&key) {
            Some(i) => {
                let previous = self.entries[i].1;
                self.entries.set(i, (key, value));
                proof {
                    let after = self.entries@;
                    assert(keys_unique(after)) by {
                        assert forall|a: int, b: int| 0 <= a < b < after.len() implies #[trigger] after[a].0
                            != #[trigger] after[b].0 by {
                            assert(before[a].0 != before[b].0);
                        }
                    }
                    assert(after[i as int] == (key, value));
                    assert(after =~= before.update(i as int, (key, value)));
                    assert(before[i as int].0 == key);
                    lemma_lookup_found(after, i as int);
                    assert forall|k: K| k != key implies lookup(after, k) == lookup(before, k) by {
                        lemma_lookup_cases(after, k);
                        lemma_lookup_cases(before, k);
                        if exists|j: int| 0 <= j < before.len() && #[trigger] before[j].0 == k {
                            let j = choose|j: int| 0 <= j < before.len() && #[trigger] before[j].0 == k;
                            assert(after[j] == before[j]);
                        } else {
                            assert forall|j: int| 0 <= j < after.len() implies #[trigger] after[j].0 != k by {
                                if j != i {
                                    assert(after[j] == before[j]);
                                }
                            }
                        }
                    }
                }
                Some(previous)
            },
            None => {
                self.entries.push((key, value));
                proof {
                    let after = self.entries@;
                    assert(after.drop_last() =~= before);
                    assert(after =~= before.push((key, value)));
                    assert(after.last() == (key, value));
                    assert(keys_unique(after)) by {
                        assert forall|a: int, b: int| 0 <= a < b < after.len() implies #[trigger] after[a].0
                            != #[trigger] after[b].0 by {
                            if b < before.len() {
                                assert(before[a].0 != before[b].0);
                            } else {
                                assert(after[a] == before[a]);
                            }
                        }
                    }
                }
                None
            },
        }
    }

    /// Remove the entry for `key`; returns the removed value.
    pub fn remove(&mut self, key: K) -> (r: Option<V>)
        requires
            old(self).well_formed(),
        ensures
            final(self).well_formed(),
            r == old(self).spec_get(key),
            final(self).spec_get(key) is None,
            forall|k: K| k != key ==> final(self).spec_get(k) == old(self).spec_get(k),
            r is Some ==> final(self).entry_seq().len() + 1 == old(self).entry_seq().len(),
            r is None ==> final(self).entry_seq() == old(self).entry_seq(),
    {
        let ghost before = self.entries@;
        proof {
            lemma_lookup_cases(before, key);
        }
        match self.position(&key) {
            Some(i) => {
                let removed = self.entries.remove(i);
                proof {
                    let after = self.entries@;
                    assert(after =~= before.remove(i as int));
                    assert forall|j: int| 0 <= j < after.len() implies #[trigger] after[j] == (if j < i {
                        before[j]
                    } else {
                        before[j + 1]
                    }) by {}
                    assert(keys_unique(after)) by {
                        assert forall|a: int, b: int| 0 <= a < b < after.len() implies #[trigger] after[a].0
                            != #[trigger] after[b].0 by {
                            let a0 = if a < i { a } else { a + 1 };
                            let b0 = if b < i { b } else { b + 1 };
                            assert(before[a0].0 != before[b0].0);
                        }
                    }
                    assert forall|j: int| 0 <= j < after.len() implies #[trigger] after[j].0 != key by {
                        let j0 = if j < i { j } else { j + 1 };
                        assert(before[j0].0 != before[i as int].0);
                    }
                    lemma_lookup_absent(after, key);
                    assert forall|k: K| k != key implies lookup(after, k) == lookup(before, k) by {
                        lemma_lookup_cases(after, k);
                        lemma_lookup_cases(before, k);
                        if exists|j: int| 0 <= j < before.len() && #[trigger] before[j].0 == k {
                            let j = choose|j: int| 0 <= j < before.len() && #[trigger] before[j].0 == k;
                            let j1 = if j < i { j } else { j - 1 };
                            assert(after[j1] == before[j]);
                        } else {
                            assert forall|j: int| 0 <= j < after.len() implies #[trigger] after[j].0 != k by {
                                let j0 = if j < i { j } else { j + 1 };
                                assert(after[j] == before[j0]);
                            }
                        }
                    }
                }
                Some(removed.1)
            },
            None => None,
        }
    }

    /// Remove every entry.
    pub fn clear(&mut self)
        ensures
            final(self).well_formed(),
            final(self).entry_seq().len() == 0,
            forall|k: K| final(self).spec_get(k) is None,
    {
        self.entries.clear();
        proof {
            assert forall|k: K| self.spec_get(k) is None by {
                lemma_lookup_absent(self.entries@, k);
            }
        }
    }

    /// The entry at position `i` in storage order.
    pub fn entry_at(&self, i: usize) -> (r: (K, V))
        requires
            i < self.entry_seq().len(),
        ensures
            r == self.entry_seq()[i as int],
    {
        (self.entries[i].0.duplicate(), self.entries[i].1)
    }
}

} // verus!
