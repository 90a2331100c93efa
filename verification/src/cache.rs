//! A bounded cache from piece index to payload with batch eviction of the
//! least recently touched third.

use crate::clock::_calculate_timestamp;
use std::collections::HashMap;
use vstd::prelude::*;

verus! {

broadcast use vstd::std_specs::hash::group_hash_axioms;

/// One cached payload with the index it is stored under and the time, in
/// milliseconds, at which it was last inserted or read.
pub struct CacheRecord<T> where T: Clone {
    pub key: u32,
    pub item: T,
    pub timestamp: u64,
}

impl<T> CacheRecord<T> where T: Clone {
    pub fn new(key: u32, item: T, timestamp: u64) -> (record: Self)
        ensures
            record == (CacheRecord { key, item, timestamp }),
    {
        Self { key: key, item: item, timestamp: timestamp }
    }
}

/// Every record of `after` is a record of `before`, unchanged.
pub open spec fn keeps_only<T: Clone>(
    before: Map<u32, CacheRecord<T>>,
    after: Map<u32, CacheRecord<T>>,
) -> bool {
    forall|k: u32| #[trigger]
        after.contains_key(k) ==> before.contains_key(k) && after[k] == before[k]
}

/// `after` is `before` without a third of its records (rounded down), the
/// ones that went being no younger than any that stayed.
pub open spec fn is_purge_of<T: Clone>(
    before: Map<u32, CacheRecord<T>>,
    after: Map<u32, CacheRecord<T>>,
) -> bool {
    &&& after.dom().finite()
    &&& keeps_only(before, after)
    &&& after.len() == before.len() - before.len() / 3
    &&& forall|gone: u32, kept: u32|
        #![trigger before.contains_key(gone), after.contains_key(kept)]
        before.contains_key(gone) && !after.contains_key(gone) && after.contains_key(kept)
            ==> before[gone].timestamp <= before[kept].timestamp
}

/// What an insertion finds in place: `before` itself below capacity, a purge
/// of it at or above.
pub open spec fn makes_room<T: Clone>(
    before: Map<u32, CacheRecord<T>>,
    max_size: usize,
    room: Map<u32, CacheRecord<T>>,
) -> bool {
    if before.len() >= max_size {
        is_purge_of(before, room)
    } else {
        room == before
    }
}

/// `after` is `before` with `data` stored under `key` at time `ts`, after
/// making room.
pub open spec fn is_put_of<T: Clone>(
    before: Map<u32, CacheRecord<T>>,
    max_size: usize,
    key: u32,
    data: T,
    ts: u64,
    after: Map<u32, CacheRecord<T>>,
) -> bool {
    exists|room: Map<u32, CacheRecord<T>>|
        #[trigger] makes_room(before, max_size, room) && after == room.insert(
            key,
            CacheRecord { key, item: data, timestamp: ts },
        )
}

/// `after` is `before` with the record under `key` stamped `ts`.
pub open spec fn is_touch_of<T: Clone>(
    before: Map<u32, CacheRecord<T>>,
    key: u32,
    ts: u64,
    after: Map<u32, CacheRecord<T>>,
) -> bool {
    &&& before.contains_key(key)
    &&& after == before.insert(
        key,
        CacheRecord { key: before[key].key, item: before[key].item, timestamp: ts },
    )
}

/// A map from piece index to record that makes room, by a purge, before an
/// insertion that finds it at or above `max_size` records.
pub struct Cache<T> where T: Clone {
    max_size: usize,
    records: HashMap<u32, CacheRecord<T>>,
}

impl<T> Cache<T> where T: Clone {
    /// The records by index.
    pub closed spec fn view(&self) -> Map<u32, CacheRecord<T>> {
        self.records@
    }

    /// The capacity the cache was made with.
    pub closed spec fn capacity(&self) -> usize {
        self.max_size
    }

    /// Finitely many records, each filed under its own index.
    pub open spec fn wf(&self) -> bool {
        &&& self@.dom().finite()
        &&& forall|k: u32| #[trigger] self@.contains_key(k) ==> self@[k].key == k
    }

    pub fn new(max_size: usize) -> (cache: Self)
        ensures
            cache.wf(),
            cache@ == Map::<u32, CacheRecord<T>>::empty(),
            cache.capacity() == max_size,
    {
        Self { max_size: max_size, records: HashMap::new() }
    }

    /// Number of records held.
    pub fn len(&self) -> (n: usize)
        ensures
            n == self@.len(),
    {
        self.records.len()
    }

    /// The capacity the cache was made with.
    pub fn max_size(&self) -> (n: usize)
        ensures
            n == self.capacity(),
    {
        self.max_size
    }

    /// Whether a record is held under `key`; touches nothing.
    pub fn contains(&self, key: u32) -> (held: bool)
        ensures
            held == self@.contains_key(key),
    {
        self.records.contains_key(&key)
    }

    /// The index of a record with the smallest timestamp, `None` on an empty
    /// cache.
    fn oldest(&self) -> (found: Option<u32>)
        requires
            self.wf(),
        ensures
            self@.len() == 0 ==> found is None,
            self@.len() > 0 ==> found is Some,
            found matches Some(k) ==> self@.contains_key(k) && forall|j: u32| #[trigger]
                self@.contains_key(j) ==> self@[k].timestamp <= self@[j].timestamp,
    {
        let mut best: Option<(u32, u64)> = None;
        let ghost mut keys: Seq<u32> = Seq::empty();
        for k in it: self.records.keys()
            invariant
                it.seq().unref().to_set() == self.records@.dom(),
                it.seq().len() == self.records@.dom().len(),
                keys.len() == it.index(),
                forall|i: int| 0 <= i < keys.len() ==> #[trigger] keys[i] == *it.seq()[i],
                keys.len() > 0 && keys.len() == it.seq().len() ==> keys == it.seq().unref(),
                best is None ==> keys.len() == 0,
                best matches Some((bk, bt)) ==> self.records@.contains_key(bk)
                    && self.records@[bk].timestamp == bt && forall|i: int|
                    0 <= i < keys.len() ==> bt <= self.records@[#[trigger] keys[i]].timestamp,
        {
            proof {
                keys = keys.push(*k);
                assert(it.seq().unref()[it.index()] == *k);
                assert(it.seq().unref().to_set().contains(*k));
                assert(keys.len() == it.seq().len() ==> keys =~= it.seq().unref());
            }
            let ts: u64 = match self.records.get(k) {
                Some(record) => record.timestamp,
                None => 0,
            };
            let better = match best {
                None => true,
                Some((_, bt)) => ts < bt,
            };
            if better {
                best = Some((*k, ts));
            }
        }
        proof {
            if let Some((bk, bt)) = best {
                assert(keys.to_set() == self@.dom());
                assert forall|j: u32| #[trigger] self@.contains_key(j) implies bt
                    <= self@[j].timestamp by {
                    assert(keys.to_set().contains(j));
                    let i = choose|i: int| 0 <= i < keys.len() && keys[i] == j;
                    assert(bt <= self.records@[keys[i]].timestamp);
                }
            }
        }
        match best {
            Some((k, _)) => Some(k),
            None => None,
        }
    }

    /// Evicts a third of the records, rounded down, oldest first.
    pub fn purge(&mut self)
        requires
            old(self).wf(),
        ensures
            final(self).wf(),
            final(self).capacity() == old(self).capacity(),
            is_purge_of(old(self)@, final(self)@),
    {
        let to_remove_count: usize = self.records.len() / 3;
        let mut removed: usize = 0;
        while removed < to_remove_count
            invariant
                self.wf(),
                self.capacity() == old(self).capacity(),
                removed <= to_remove_count,
                to_remove_count == old(self)@.len() / 3,
                keeps_only(old(self)@, self@),
                self@.len() == old(self)@.len() - removed,
                forall|gone: u32, kept: u32|
                    #![trigger old(self)@.contains_key(gone), self@.contains_key(kept)]
                    old(self)@.contains_key(gone) && !self@.contains_key(gone)
                        && self@.contains_key(kept) ==> old(self)@[gone].timestamp <= old(self)@[kept].timestamp,
            decreases to_remove_count - removed,
        {
            let ghost mid = self@;
            if let Some(key_to_remove) = self.oldest() {
                self.records.remove(&key_to_remove);
                assert forall|gone: u32, kept: u32|
                    old(self)@.contains_key(gone) && !self@.contains_key(gone)
                        && self@.contains_key(kept) implies old(self)@[gone].timestamp <= old(self)@[kept].timestamp by {
                    assert(mid.contains_key(kept));
                    assert(mid[kept] == old(self)@[kept]);
                    if mid.contains_key(gone) {
                        assert(gone == key_to_remove);
                        assert(mid[gone] == old(self)@[gone]);
                    }
                }
            }
            removed += 1;
        }
    }

    /// Stores `data` under `key` with timestamp `ts`, purging first where
    /// the cache is at or above capacity.
    pub fn put_at(&mut self, key: u32, data: T, ts: u64)
        requires
            old(self).wf(),
        ensures
            final(self).wf(),
            final(self).capacity() == old(self).capacity(),
            is_put_of(old(self)@, old(self).capacity(), key, data, ts, final(self)@),
            (old(self).capacity() >= 3 && old(self)@.len() <= old(self).capacity())
                ==> final(self)@.len() <= final(self).capacity(),
    {
        if self.records.len() >= self.max_size {
            self.purge();
        }
        let ghost room = self@;
        let new_record = CacheRecord::new(key, data, ts);
        self.records.insert(key, new_record);
        proof {
            assert(makes_room(old(self)@, old(self).capacity(), room));
            if old(self).capacity() >= 3 && old(self)@.len() <= old(self).capacity() {
                lemma_put_stays_within_capacity(
                    old(self)@,
                    old(self).capacity(),
                    key,
                    data,
                    ts,
                    self@,
                );
            }
        }
    }

    /// Stores `data` under `key`, stamped with the current time.
    pub fn put(&mut self, key: u32, data: T)
        requires
            old(self).wf(),
        ensures
            final(self).wf(),
            final(self).capacity() == old(self).capacity(),
            exists|ts: u64| #[trigger]
                is_put_of(old(self)@, old(self).capacity(), key, data, ts, final(self)@),
            (old(self).capacity() >= 3 && old(self)@.len() <= old(self).capacity())
                ==> final(self)@.len() <= final(self).capacity(),
    {
        let ts: u64 = _calculate_timestamp();
        self.put_at(key, data, ts);
    }

    /// Reads the payload under `key` and stamps its record `ts`; a miss
    /// changes nothing.
    pub fn get_at(&mut self, key: u32, ts: u64) -> (found: Option<T>)
        requires
            old(self).wf(),
        ensures
            final(self).wf(),
            final(self).capacity() == old(self).capacity(),
            !old(self)@.contains_key(key) ==> found is None && final(self)@ == old(self)@,
            old(self)@.contains_key(key) ==> found is Some && cloned(
                old(self)@[key].item,
                found->0,
            ) && is_touch_of(old(self)@, key, ts, final(self)@),
    {
        match self.records.remove(&key) {
            None => {
                assert(self@ =~= old(self)@);
                None
            },
            Some(record) => {
                let item = record.item.clone();
                let touched = CacheRecord { key: record.key, item: record.item, timestamp: ts };
                self.records.insert(key, touched);
                assert(self@ =~= old(self)@.insert(key, touched));
                Some(item)
            },
        }
    }

    /// Reads the payload under `key`, stamping its record with the current
    /// time; a miss changes nothing.
    pub fn get(&mut self, key: u32) -> (found: Option<T>)
        requires
            old(self).wf(),
        ensures
            final(self).wf(),
            final(self).capacity() == old(self).capacity(),
            !old(self)@.contains_key(key) ==> found is None && final(self)@ == old(self)@,
            old(self)@.contains_key(key) ==> found is Some && cloned(
                old(self)@[key].item,
                found->0,
            ) && exists|ts: u64| #[trigger] is_touch_of(old(self)@, key, ts, final(self)@),
    {
        if self.records.contains_key(&key) {
            let ts: u64 = _calculate_timestamp();
            self.get_at(key, ts)
        } else {
            None
        }
    }
}

/// A cache of capacity three or more that holds no more records than its
/// capacity still holds no more after an insertion.
pub proof fn lemma_put_stays_within_capacity<T: Clone>(
    before: Map<u32, CacheRecord<T>>,
    max_size: usize,
    key: u32,
    data: T,
    ts: u64,
    after: Map<u32, CacheRecord<T>>,
)
    requires
        before.dom().finite(),
        before.len() <= max_size,
        max_size >= 3,
        is_put_of(before, max_size, key, data, ts, after),
    ensures
        after.dom().finite(),
        after.len() <= max_size,
{
    let room = choose|room: Map<u32, CacheRecord<T>>|
        #[trigger] makes_room(before, max_size, room) && after == room.insert(
            key,
            CacheRecord { key, item: data, timestamp: ts },
        );
    assert(room.dom().finite());
    assert(room.len() < max_size);
}

/// What was inserted is held afterwards, under its index and with its
/// timestamp, whatever was evicted to make room.
pub proof fn lemma_put_holds_record<T: Clone>(
    before: Map<u32, CacheRecord<T>>,
    max_size: usize,
    key: u32,
    data: T,
    ts: u64,
    after: Map<u32, CacheRecord<T>>,
)
    requires
        is_put_of(before, max_size, key, data, ts, after),
    ensures
        after.contains_key(key),
        after[key] == (CacheRecord { key, item: data, timestamp: ts }),
{
}

/// Below capacity an insertion evicts nothing: every record held before
/// under another index is held unchanged afterwards.
pub proof fn lemma_put_below_capacity_keeps_all<T: Clone>(
    before: Map<u32, CacheRecord<T>>,
    max_size: usize,
    key: u32,
    data: T,
    ts: u64,
    after: Map<u32, CacheRecord<T>>,
    other: u32,
)
    requires
        before.len() < max_size,
        is_put_of(before, max_size, key, data, ts, after),
        before.contains_key(other),
        other != key,
    ensures
        after.contains_key(other),
        after[other] == before[other],
{
}

/// A read keeps the set of indices and every payload; only the timestamp
/// of the record read changes.
pub proof fn lemma_touch_keeps_contents<T: Clone>(
    before: Map<u32, CacheRecord<T>>,
    key: u32,
    ts: u64,
    after: Map<u32, CacheRecord<T>>,
)
    requires
        is_touch_of(before, key, ts, after),
    ensures
        after.dom() == before.dom(),
        after[key].timestamp == ts,
        forall|k: u32| #[trigger]
            before.contains_key(k) ==> after[k].item == before[k].item && after[k].key
                == before[k].key,
        forall|k: u32| #[trigger] before.contains_key(k) && k != key ==> after[k] == before[k],
{
    assert(after.dom() =~= before.dom());
}

/// The indices that a purge took away.
pub open spec fn evicted<T: Clone>(
    before: Map<u32, CacheRecord<T>>,
    after: Map<u32, CacheRecord<T>>,
) -> Set<u32> {
    before.dom().difference(after.dom())
}

/// A purge takes away exactly a third of the records, rounded down.
pub proof fn lemma_purge_evicts_a_third<T: Clone>(
    before: Map<u32, CacheRecord<T>>,
    after: Map<u32, CacheRecord<T>>,
)
    requires
        before.dom().finite(),
        is_purge_of(before, after),
    ensures
        evicted(before, after).finite(),
        evicted(before, after).len() == before.len() / 3,
{
    let gone = evicted(before, after);
    assert(gone.disjoint(after.dom()));
    assert(gone + after.dom() =~= before.dom()) by {
        assert forall|k: u32| after.dom().contains(k) implies before.dom().contains(k) by {
            assert(after.contains_key(k));
        }
    }
    vstd::set_lib::lemma_set_disjoint_lens(gone, after.dom());
}

/// A purge keeps every record that is strictly younger than as many others
/// as the purge takes away.
pub proof fn lemma_purge_keeps_young<T: Clone>(
    before: Map<u32, CacheRecord<T>>,
    after: Map<u32, CacheRecord<T>>,
    key: u32,
    older: Set<u32>,
)
    requires
        before.dom().finite(),
        is_purge_of(before, after),
        before.contains_key(key),
        older.finite(),
        older.len() >= before.len() / 3,
        forall|j: u32| #[trigger]
            older.contains(j) ==> before.contains_key(j) && before[j].timestamp
                < before[key].timestamp,
    ensures
        after.contains_key(key),
        after[key] == before[key],
{
    if !after.contains_key(key) {
        let gone = evicted(before, after);
        lemma_purge_evicts_a_third(before, after);
        assert forall|j: u32| older.insert(key).contains(j) implies gone.contains(j) by {
            if j != key {
                assert(older.contains(j));
                if after.contains_key(j) {
                    assert(before.contains_key(key) && after.contains_key(j));
                }
            }
        }
        vstd::set_lib::lemma_len_subset(older.insert(key), gone);
        assert(!older.contains(key));
    }
}

/// A purge takes away every record that is strictly older than as many
/// others as the purge leaves.
pub proof fn lemma_purge_evicts_old<T: Clone>(
    before: Map<u32, CacheRecord<T>>,
    after: Map<u32, CacheRecord<T>>,
    key: u32,
    younger: Set<u32>,
)
    requires
        before.dom().finite(),
        is_purge_of(before, after),
        before.contains_key(key),
        younger.finite(),
        younger.len() >= before.len() - before.len() / 3,
        forall|j: u32| #[trigger]
            younger.contains(j) ==> before.contains_key(j) && before[key].timestamp
                < before[j].timestamp,
    ensures
        !after.contains_key(key),
{
    if after.contains_key(key) {
        assert forall|j: u32| younger.insert(key).contains(j) implies after.dom().contains(
            j,
        ) by {
            if j != key {
                assert(younger.contains(j));
                if !after.contains_key(j) {
                    assert(before.contains_key(j) && after.contains_key(key));
                }
            }
        }
        vstd::set_lib::lemma_len_subset(younger.insert(key), after.dom());
        assert(!younger.contains(key));
    }
}

} // verus!
