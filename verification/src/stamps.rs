use vstd::prelude::*;

verus! {

/// The mathematical contents of an association list of (key, stamp) entries,
/// a later entry overriding an earlier one with the same key.
pub open spec fn stamp_map_of(entries: Seq<(u32, u64)>) -> Map<u32, u64>
    decreases entries.len(),
{
    if entries.len() == 0 {
        Map::empty()
    } else {
        stamp_map_of(entries.drop_last()).insert(entries.last().0, entries.last().1)
    }
}

/// No two entries carry the same key.
pub open spec fn unique_keys(entries: Seq<(u32, u64)>) -> bool {
    forall|i: int, j: int|
        0 <= i < j < entries.len() ==> (#[trigger] entries[i]).0 != (#[trigger] entries[j]).0
}

proof fn lemma_unique_drop_last(entries: Seq<(u32, u64)>)
    requires
        unique_keys(entries),
        entries.len() > 0,
    ensures
        unique_keys(entries.drop_last()),
{
    let dl = entries.drop_last();
    assert forall|i: int, j: int| 0 <= i < j < dl.len() implies (#[trigger] dl[i]).0 != (
    #[trigger] dl[j]).0 by {
        assert(dl[i] == entries[i]);
        assert(dl[j] == entries[j]);
    }
}

/// A key is in the map exactly when some entry carries it.
proof fn lemma_contains(entries: Seq<(u32, u64)>, key: u32)
    ensures
        stamp_map_of(entries).contains_key(key) <==> exists|i: int|
            0 <= i < entries.len() && (#[trigger] entries[i]).0 == key,
    decreases entries.len(),
{
    if entries.len() > 0 {
        let dl = entries.drop_last();
        lemma_contains(dl, key);
        if entries.last().0 == key {
            assert((entries[entries.len() - 1]).0 == key);
        } else {
            if stamp_map_of(entries).contains_key(key) {
                let i = choose|i: int| 0 <= i < dl.len() && (#[trigger] dl[i]).0 == key;
                assert((entries[i]).0 == key);
            }
            if exists|i: int| 0 <= i < entries.len() && (#[trigger] entries[i]).0 == key {
                let i = choose|i: int| 0 <= i < entries.len() && (#[trigger] entries[i]).0 == key;
                assert(i < entries.len() - 1);
                assert((dl[i]).0 == key);
            }
        }
    }
}

/// If no entry carries the key, the map does not contain it.
proof fn lemma_absent(entries: Seq<(u32, u64)>, key: u32)
    requires
        forall|i: int| 0 <= i < entries.len() ==> (#[trigger] entries[i]).0 != key,
    ensures
        !stamp_map_of(entries).contains_key(key),
    decreases entries.len(),
{
    if entries.len() > 0 {
        let dl = entries.drop_last();
        assert forall|i: int| 0 <= i < dl.len() implies (#[trigger] dl[i]).0 != key by {
            assert(dl[i] == entries[i]);
        }
        lemma_absent(dl, key);
        assert((entries[entries.len() - 1]).0 != key);
    }
}

/// With unique keys, the entry at any index gives the map's value for its key.
proof fn lemma_unique_index(entries: Seq<(u32, u64)>, i: int)
    requires
        unique_keys(entries),
        0 <= i < entries.len(),
    ensures
        stamp_map_of(entries).contains_key(entries[i].0),
        stamp_map_of(entries)[entries[i].0] == entries[i].1,
    decreases entries.len(),
{
    let dl = entries.drop_last();
    if i == entries.len() - 1 {
        assert(entries.last() == entries[i]);
    } else {
        lemma_unique_drop_last(entries);
        assert(dl[i] == entries[i]);
        lemma_unique_index(dl, i);
        assert(entries[i].0 != entries[entries.len() - 1].0);
    }
}

/// With unique keys, removing the entry at an index removes exactly its key
/// from the map and keeps the keys unique.
proof fn lemma_remove_at(entries: Seq<(u32, u64)>, i: int)
    requires
        unique_keys(entries),
        0 <= i < entries.len(),
    ensures
        unique_keys(entries.remove(i)),
        stamp_map_of(entries.remove(i)) == stamp_map_of(entries).remove(entries[i].0),
    decreases entries.len(),
{
    let key = entries[i].0;
    let rem = entries.remove(i);
    entries.remove_ensures(i);
    assert forall|a: int, b: int| 0 <= a < b < rem.len() implies (#[trigger] rem[a]).0 != (
    #[trigger] rem[b]).0 by {
        let ea: int = if a < i { a } else { a + 1 };
        let eb: int = if b < i { b } else { b + 1 };
        assert(rem[a] == entries[ea]);
        assert(rem[b] == entries[eb]);
    }
    let dl = entries.drop_last();
    if i == entries.len() - 1 {
        assert(rem =~= dl);
        assert forall|j: int| 0 <= j < dl.len() implies (#[trigger] dl[j]).0 != key by {
            assert(dl[j] == entries[j]);
        }
        lemma_absent(dl, key);
        assert(stamp_map_of(dl) =~= stamp_map_of(dl).insert(key, entries[i].1).remove(key));
    } else {
        lemma_unique_drop_last(entries);
        lemma_remove_at(dl, i);
        dl.remove_ensures(i);
        assert(dl[i] == entries[i]);
        assert(rem.len() == entries.len() - 1);
        assert(rem.drop_last() =~= dl.remove(i)) by {
            assert forall|j: int| 0 <= j < rem.len() - 1 implies rem.drop_last()[j] == dl.remove(
                i,
            )[j] by {
                if j < i {
                    assert(rem[j] == entries[j]);
                    assert(dl.remove(i)[j] == dl[j]);
                    assert(dl[j] == entries[j]);
                } else {
                    assert(rem[j] == entries[j + 1]);
                    assert(dl.remove(i)[j] == dl[j + 1]);
                    assert(dl[j + 1] == entries[j + 1]);
                }
            }
        }
        assert(rem.last() == entries[entries.len() - 1]) by {
            assert(rem[rem.len() - 1] == entries[entries.len() - 1]);
        }
        let last = entries[entries.len() - 1];
        assert(key != last.0);
        assert(stamp_map_of(rem) == stamp_map_of(dl.remove(i)).insert(last.0, last.1));
        assert(stamp_map_of(dl).remove(key).insert(last.0, last.1) =~= stamp_map_of(dl).insert(
            last.0,
            last.1,
        ).remove(key));
    }
}

/// A map from numeric key tokens to the millisecond timestamp of the last
/// relevant transition, stored as a scan-friendly list of distinct entries.
pub struct StampMap {
    entries: Vec<(u32, u64)>,
}

impl View for StampMap {
    type V = Map<u32, u64>;

    closed spec fn view(&self) -> Map<u32, u64> {
        stamp_map_of(self.entries@)
    }
}

impl StampMap {
    /// The stored entries carry pairwise distinct keys.
    pub closed spec fn wf(self) -> bool {
        unique_keys(self.entries@)
    }

    /// An empty map.
    pub fn new() -> (m: StampMap)
        ensures
            m.wf(),
            m@ == Map::<u32, u64>::empty(),
    {
        StampMap { entries: Vec::new() }
    }

    fn index_of(&self, key: u32) -> (r: Option<usize>)
        ensures
            (r matches Some(i) ==> i < self.entries@.len() && self.entries@[i as int].0 == key),
            (r is None ==> forall|j: int|
                0 <= j < self.entries@.len() ==> (#[trigger] self.entries@[j]).0 != key),
    {
        let mut i: usize = 0;
        while i < self.entries.len()
            invariant
                i <= self.entries@.len(),
                forall|j: int| 0 <= j < i ==> (#[trigger] self.entries@[j]).0 != key,
            decreases self.entries@.len() - i,
        {
            if self.entries[i].0 == key {
                return Some(i);
            }
            i = i + 1;
        }
        None
    }

    /// The stamp recorded for a key, if one is.
    pub fn get(&self, key: u32) -> (r: Option<u64>)
        requires
            self.wf(),
        ensures
            (self@.contains_key(key) ==> r == Some(self@[key])),
            (!self@.contains_key(key) ==> r is None),
    {
        match self.index_of(key) {
            Some(i) => {
                proof {
                    lemma_unique_index(self.entries@, i as int);
                }
                Some(self.entries[i].1)
            },
            None => {
                proof {
                    lemma_absent(self.entries@, key);
                }
                None
            },
        }
    }

    /// Whether a stamp is recorded for the key.
    pub fn contains_key(&self, key: u32) -> (r: bool)
        requires
            self.wf(),
        ensures
            r == self@.contains_key(key),
    {
        self.get(key).is_some()
    }

    /// Record a stamp for the key, replacing any earlier one.
    pub fn insert(&mut self, key: u32, stamp: u64)
        requires
            old(self).wf(),
        ensures
            final(self).wf(),
            final(self)@ == old(self)@.insert(key, stamp),
    {
        self.remove(key);
        proof {
            lemma_contains(self.entries@, key);
        }
        let ghost pre = self.entries@;
        self.entries.push((key, stamp));
        proof {
            assert(self.entries@.drop_last() =~= pre);
            assert forall|a: int, b: int| 0 <= a < b < self.entries@.len() implies (
            #[trigger] self.entries@[a]).0 != (#[trigger] self.entries@[b]).0 by {
                if b < self.entries@.len() - 1 {
                    assert(self.entries@[a] == pre[a]);
                    assert(self.entries@[b] == pre[b]);
                } else {
                    assert(self.entries@[a] == pre[a]);
                }
            }
            assert(old(self)@.remove(key).insert(key, stamp) =~= old(self)@.insert(key, stamp));
        }
    }

    /// Forget the stamp for the key, if one is recorded.
    pub fn remove(&mut self, key: u32)
        requires
            old(self).wf(),
        ensures
            final(self).wf(),
            final(self)@ == old(self)@.remove(key),
    {
        match self.index_of(key) {
            Some(i) => {
                proof {
                    lemma_remove_at(self.entries@, i as int);
                }
                self.entries.remove(i);
            },
            None => {
                proof {
                    lemma_absent(self.entries@, key);
                    assert(self@.remove(key) =~= self@);
                }
            },
        }
    }

    /// Forget every stamp.
    pub fn clear(&mut self)
        ensures
            final(self).wf(),
            final(self)@ == Map::<u32, u64>::empty(),
    {
        self.entries.clear();
    }
}

} // verus!
