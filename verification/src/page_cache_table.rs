//! Table of page cache registrations that are kept for reuse, least recently used out first.

use crate::access_order;
use crate::access_order::sort_by_access;
use crate::clock;
use crate::clock::read_clock;
use crate::counter;
use crate::counter::count_u64;
use crate::page_cache::PageCacheRdmaRegistration;
use crate::page_cache_entry::{PageCacheEntry, PageCacheKey};
use crate::page_cache_map;
use crate::page_cache_map::{
    map_accesses, map_clear, map_get, map_insert, map_len, map_new, map_remove,
};
use dashmap::DashMap;
use std::sync::Arc;
use vstd::prelude::*;

verus! {

/// Bytes that a set of keys stands for.
pub open spec fn bytes_of(keys: Set<(i64, u64, usize)>) -> int
    decreases keys.len(),
{
    if keys.finite() && keys.len() > 0 {
        let k = keys.choose();
        k.2 + bytes_of(keys.remove(k))
    } else {
        0
    }
}

/// Each key counts once, whatever the order.
pub proof fn lemma_bytes_remove(keys: Set<(i64, u64, usize)>, k: (i64, u64, usize))
    requires
        keys.finite(),
        keys.contains(k),
    ensures
        bytes_of(keys) == k.2 + bytes_of(keys.remove(k)),
    decreases keys.len(),
{
    let c = keys.choose();
    if c != k {
        lemma_bytes_remove(keys.remove(c), k);
        lemma_bytes_remove(keys.remove(k), c);
        assert(keys.remove(c).remove(k) =~= keys.remove(k).remove(c));
    }
}

/// A new key adds its bytes.
pub proof fn lemma_bytes_insert(keys: Set<(i64, u64, usize)>, k: (i64, u64, usize))
    requires
        keys.finite(),
        !keys.contains(k),
    ensures
        bytes_of(keys.insert(k)) == k.2 + bytes_of(keys),
{
    lemma_bytes_remove(keys.insert(k), k);
    assert(keys.insert(k).remove(k) =~= keys);
}

/// Fewer keys stand for no more bytes.
pub proof fn lemma_bytes_subset(part: Set<(i64, u64, usize)>, keys: Set<(i64, u64, usize)>)
    requires
        keys.finite(),
        part.subset_of(keys),
    ensures
        0 <= bytes_of(part) <= bytes_of(keys),
    decreases keys.len(),
{
    vstd::set_lib::lemma_set_subset_finite(keys, part);
    if part.len() == 0 {
        if keys.len() > 0 {
            let k = keys.choose();
            assert(part =~= Set::empty());
            lemma_bytes_subset(part, keys.remove(k));
        }
    } else {
        let k = part.choose();
        lemma_bytes_remove(part, k);
        lemma_bytes_remove(keys, k);
        lemma_bytes_subset(part.remove(k), keys.remove(k));
    }
}

/// What a [`PageCacheTable`] holds, as plain values.
#[verifier::ext_equal]
pub struct TableState {
    pub entries: Map<(i64, u64, usize), PageCacheEntry>,
    /// Bytes that may be cached.
    pub max_size: usize,
    /// Bytes that count as cached. A key that is inserted again counts again.
    pub size: usize,
    pub hits: u64,
    pub misses: u64,
    pub evictions: u64,
}

impl TableState {
    /// What holds of a table at all times: what it keeps is counted, and the count stays
    /// within the limit.
    pub open spec fn wf(self) -> bool {
        &&& self.entries.dom().finite()
        &&& bytes_of(self.entries.dom()) <= self.size
        &&& self.size <= self.max_size
    }

    /// The table after a lookup at `now`, and what was found.
    pub open spec fn lookup(self, key: (i64, u64, usize), now: u64) -> (
        TableState,
        Option<PageCacheEntry>,
    ) {
        if self.entries.dom().contains(key) {
            let entry = self.entries[key].touched(now);
            (
                TableState {
                    entries: self.entries.insert(key, entry),
                    hits: counter::next_u64(self.hits),
                    ..self
                },
                Some(entry),
            )
        } else {
            (TableState { misses: counter::next_u64(self.misses), ..self }, None)
        }
    }

    /// The table with a new entry.
    pub open spec fn with(self, key: (i64, u64, usize), entry: PageCacheEntry) -> TableState {
        TableState {
            entries: self.entries.insert(key, entry),
            size: (self.size + key.2) as usize,
            ..self
        }
    }

    /// The table without some of its entries.
    pub open spec fn evict(self, gone: Set<(i64, u64, usize)>) -> TableState {
        TableState {
            entries: self.entries.remove_keys(gone),
            size: (self.size - bytes_of(gone)) as usize,
            evictions: counter::plus_u64(self.evictions, gone.len() as u64),
            ..self
        }
    }

    /// To free `required` bytes, exactly the entries `gone` leave: the least recently accessed
    /// ones, no more than are needed, and all of them where that is not enough.
    pub open spec fn evicts(self, gone: Set<(i64, u64, usize)>, required: int) -> bool {
        &&& gone.subset_of(self.entries.dom())
        &&& forall|k: (i64, u64, usize), j: (i64, u64, usize)|
            #![trigger gone.contains(k), self.entries.dom().contains(j)]
            gone.contains(k) && self.entries.dom().contains(j) && !gone.contains(j)
                ==> self.entries[k].last_access <= self.entries[j].last_access
        &&& gone.len() > 0 ==> exists|last: (i64, u64, usize)| #[trigger]
            self.last_out(gone, last, required)
        &&& bytes_of(gone) >= required || gone == self.entries.dom()
    }

    /// `last` is the most recently accessed of the entries that leave, and without it they do
    /// not free enough.
    pub open spec fn last_out(
        self,
        gone: Set<(i64, u64, usize)>,
        last: (i64, u64, usize),
        required: int,
    ) -> bool {
        &&& gone.contains(last)
        &&& bytes_of(gone.remove(last)) < required
        &&& forall|k: (i64, u64, usize)| #[trigger]
            gone.contains(k) ==> self.entries[k].last_access <= self.entries[last].last_access
    }

    /// What an insertion does: where there is no room, entries leave first; the new entry goes
    /// in unless those that left did not free enough.
    pub open spec fn inserts(
        self,
        key: (i64, u64, usize),
        entry: PageCacheEntry,
        after: TableState,
        inserted: bool,
    ) -> bool {
        if self.size + key.2 <= self.max_size {
            inserted && after == self.with(key, entry)
        } else {
            exists|gone: Set<(i64, u64, usize)>| #[trigger]
                self.evicts(gone, key.2 as int) && inserted == (bytes_of(gone) >= key.2) && after
                    == if inserted {
                    self.evict(gone).with(key, entry)
                } else {
                    self.evict(gone)
                }
        }
    }

    /// The table after every entry was removed.
    pub open spec fn cleared(self) -> TableState {
        TableState { entries: page_cache_map::no_entries(), size: 0, ..self }
    }

    /// The table after a key was removed.
    pub open spec fn without(self, key: (i64, u64, usize)) -> TableState {
        TableState {
            entries: self.entries.remove(key),
            size: (self.size - key.2) as usize,
            ..self
        }
    }
}

proof fn lemma_listed(
    list: Seq<((i64, u64, usize), u64)>,
    k: (i64, u64, usize),
    time: u64,
) -> (m: int)
    requires
        list.contains((k, time)),
    ensures
        0 <= m < list.len(),
        list[m].0 == k,
{
    choose|m: int| 0 <= m < list.len() && list[m] == (k, time)
}

/// What leaves and what stays make up what was there.
pub proof fn lemma_bytes_split(keys: Set<(i64, u64, usize)>, gone: Set<(i64, u64, usize)>)
    requires
        keys.finite(),
        gone.subset_of(keys),
    ensures
        bytes_of(keys) == bytes_of(gone) + bytes_of(keys.difference(gone)),
    decreases gone.len(),
{
    vstd::set_lib::lemma_set_subset_finite(keys, gone);
    if gone.len() == 0 {
        assert(gone =~= Set::empty());
        assert(keys.difference(gone) =~= keys);
    } else {
        let k = gone.choose();
        lemma_bytes_split(keys.remove(k), gone.remove(k));
        lemma_bytes_remove(keys, k);
        lemma_bytes_remove(gone, k);
        assert(keys.remove(k).difference(gone.remove(k)) =~= keys.difference(gone));
    }
}

pub proof fn lemma_evict_keeps_wf(t: TableState, gone: Set<(i64, u64, usize)>)
    requires
        t.wf(),
        gone.subset_of(t.entries.dom()),
    ensures
        t.evict(gone).wf(),
        t.evict(gone).size == t.size - bytes_of(gone),
{
    lemma_bytes_split(t.entries.dom(), gone);
    lemma_bytes_subset(gone, t.entries.dom());
    lemma_bytes_subset(t.entries.dom().difference(gone), t.entries.dom());
    assert(t.evict(gone).entries.dom() =~= t.entries.dom().difference(gone));
}

pub proof fn lemma_with_keeps_wf(t: TableState, key: (i64, u64, usize), entry: PageCacheEntry)
    requires
        t.wf(),
        t.size + key.2 <= t.max_size,
    ensures
        t.with(key, entry).wf(),
{
    let keys = t.entries.dom();
    assert(t.with(key, entry).entries.dom() =~= keys.insert(key));
    if keys.contains(key) {
        assert(keys.insert(key) =~= keys);
    } else {
        lemma_bytes_insert(keys, key);
    }
}

/// Statistics of a page cache table.
#[derive(Debug, Clone, Copy, PartialEq, Eq, Structural)]
pub struct PageCacheStats {
    pub entries: usize,
    pub size_bytes: usize,
    pub max_size_bytes: usize,
    pub hits: u64,
    pub misses: u64,
    pub evictions: u64,
}

/// Page cache table with a limit on the bytes it keeps.
pub struct PageCacheTable {
    cache: DashMap<(i64, u64, usize), PageCacheEntry>,
    max_size_bytes: usize,
    current_size_bytes: usize,
    hits: u64,
    misses: u64,
    evictions: u64,
}

impl View for PageCacheTable {
    type V = TableState;

    closed spec fn view(&self) -> TableState {
        TableState {
            entries: page_cache_map::entries(self.cache),
            max_size: self.max_size_bytes,
            size: self.current_size_bytes,
            hits: self.hits,
            misses: self.misses,
            evictions: self.evictions,
        }
    }
}

impl PageCacheTable {
    /// A table that keeps up to `max_size_mb` MB.
    pub fn new(max_size_mb: usize) -> (r: Self)
        requires
            max_size_mb * 1024 * 1024 <= usize::MAX,
        ensures
            r@.wf(),
            r@ == (TableState {
                entries: page_cache_map::no_entries(),
                max_size: (max_size_mb * 1024 * 1024) as usize,
                size: 0,
                hits: 0,
                misses: 0,
                evictions: 0,
            }),
    {
        PageCacheTable {
            cache: map_new(),
            max_size_bytes: max_size_mb * 1024 * 1024,
            current_size_bytes: 0,
            hits: 0,
            misses: 0,
            evictions: 0,
        }
    }

    /// Looks a registration up, as of `now`.
    pub fn get_at(&mut self, key: &PageCacheKey, now: u64) -> (r: Option<PageCacheEntry>)
        requires
            old(self)@.wf(),
        ensures
            final(self)@.wf(),
            (final(self)@, r) == old(self)@.lookup(key@, now),
    {
        let id = (key.block_id, key.offset, key.len);
        match map_get(&self.cache, &id) {
            Some(found) => {
                let mut entry = found;
                entry.touch_at(now);
                let _ = map_insert(&mut self.cache, id, entry.share());
                self.hits = count_u64(self.hits);
                assert(self@.entries.dom() =~= old(self)@.entries.dom());
                Some(entry)
            },
            None => {
                self.misses = count_u64(self.misses);
                None
            },
        }
    }

    /// Looks a registration up.
    pub fn get(&mut self, key: &PageCacheKey) -> (r: Option<PageCacheEntry>)
        requires
            old(self)@.wf(),
        ensures
            final(self)@.wf(),
            exists|now: u64|
                clock::was_read(now) && (final(self)@, r) == #[trigger] old(self)@.lookup(
                    key@,
                    now,
                ),
    {
        let now = read_clock();
        self.get_at(key, now)
    }

    /// Evicts entries, least recently accessed first, to free `required_bytes`.
    fn evict_lru(&mut self, required_bytes: usize) -> (r: bool)
        requires
            old(self)@.wf(),
        ensures
            final(self)@.wf(),
            exists|gone: Set<(i64, u64, usize)>| #[trigger]
                old(self)@.evicts(gone, required_bytes as int) && final(self)@ == old(self)@.evict(
                    gone,
                ) && r == (bytes_of(gone) >= required_bytes),
    {
        let ghost before = self@;
        let found = map_accesses(&self.cache);
        let candidates = sort_by_access(&found);
        proof {
            assert(found@.no_duplicates());
            access_order::lemma_reordered(found@, candidates@);
            assert forall|i: int| 0 <= i < candidates@.len() implies before.entries.dom().contains(
                (#[trigger] candidates@[i]).0,
            ) && candidates@[i].1 == before.entries[candidates@[i].0].last_access by {
                assert(found@.contains(candidates@[i]));
            }
            assert forall|i: int, j: int| 0 <= i < j < candidates@.len() implies (
            #[trigger] candidates@[i]).0 != (#[trigger] candidates@[j]).0 by {
                assert(candidates@[i] != candidates@[j]);
            }
        }
        let mut freed_bytes: usize = 0;
        let mut i: usize = 0;
        let ghost mut gone: Set<(i64, u64, usize)> = Set::empty();
        proof {
            assert(before.entries.remove_keys(gone) =~= before.entries);
            assert(before.evict(gone) =~= before);
        }
        while i < candidates.len() && freed_bytes < required_bytes
            invariant
                before.wf(),
                i <= candidates@.len(),
                access_order::oldest_first(candidates@),
                forall|n: int|
                    0 <= n < candidates@.len() ==> before.entries.dom().contains(
                        (#[trigger] candidates@[n]).0,
                    ) && candidates@[n].1 == before.entries[candidates@[n].0].last_access,
                forall|n: int, m: int|
                    0 <= n < m < candidates@.len() ==> (#[trigger] candidates@[n]).0 != (
                    #[trigger] candidates@[m]).0,
                gone.finite(),
                gone.len() == i,
                gone.subset_of(before.entries.dom()),
                forall|n: int| 0 <= n < i ==> gone.contains((#[trigger] candidates@[n]).0),
                forall|k: (i64, u64, usize)| #[trigger]
                    gone.contains(k) ==> exists|n: int| 0 <= n < i && candidates@[n].0 == k,
                i > 0 ==> bytes_of(gone.remove(candidates@[i - 1].0)) < required_bytes,
                freed_bytes == bytes_of(gone),
                self@ == before.evict(gone),
            decreases candidates@.len() - i,
        {
            let id = candidates[i].0;
            proof {
                if gone.contains(id) {
                    let n = choose|n: int| 0 <= n < i && candidates@[n].0 == id;
                    assert(candidates@[n].0 != candidates@[i as int].0);
                }
                lemma_bytes_insert(gone, id);
                lemma_bytes_subset(gone.insert(id), before.entries.dom());
                lemma_bytes_subset(gone, before.entries.dom());
                assert(gone.insert(id).remove(id) =~= gone);
                assert(before.entries.remove_keys(gone).remove(id)
                    =~= before.entries.remove_keys(gone.insert(id)));
            }
            if let Some(_) = map_remove(&mut self.cache, &id) {
                let entry_size: usize = id.2;
                freed_bytes = freed_bytes + entry_size;
                self.current_size_bytes = self.current_size_bytes - entry_size;
                self.evictions = count_u64(self.evictions);
            }
            proof {
                gone = gone.insert(id);
            }
            i = i + 1;
        }
        proof {
            lemma_bytes_subset(gone, before.entries.dom());
            assert(before.evicts(gone, required_bytes as int)) by {
                assert forall|k: (i64, u64, usize), j: (i64, u64, usize)|
                    #![trigger gone.contains(k), before.entries.dom().contains(j)]
                    gone.contains(k) && before.entries.dom().contains(j) && !gone.contains(
                        j,
                    ) implies before.entries[k].last_access <= before.entries[j].last_access by {
                    let n = choose|n: int| 0 <= n < i && candidates@[n].0 == k;
                    let m = lemma_listed(candidates@, j, before.entries[j].last_access);
                    assert(candidates@[n].1 <= candidates@[m].1);
                }
                if gone.len() > 0 {
                    let last = candidates@[i - 1].0;
                    assert forall|k: (i64, u64, usize)| #[trigger] gone.contains(
                        k,
                    ) implies before.entries[k].last_access <= before.entries[last].last_access by {
                        let n = choose|n: int| 0 <= n < i && candidates@[n].0 == k;
                        assert(candidates@[n].1 <= candidates@[i - 1].1);
                    }
                    assert(before.last_out(gone, last, required_bytes as int));
                }
                if bytes_of(gone) < required_bytes {
                    assert forall|k: (i64, u64, usize)| before.entries.dom().contains(
                        k,
                    ) implies gone.contains(k) by {
                        let m = lemma_listed(candidates@, k, before.entries[k].last_access);
                        assert(gone.contains(candidates@[m].0));
                    }
                    assert(gone =~= before.entries.dom());
                }
            }
            lemma_evict_keeps_wf(before, gone);
        }
        freed_bytes >= required_bytes
    }

    /// Inserts a registration, as of `now`. Returns false where no room could be made.
    pub fn insert_at(
        &mut self,
        key: PageCacheKey,
        registration: Arc<PageCacheRdmaRegistration>,
        now: u64,
    ) -> (r: bool)
        requires
            old(self)@.wf(),
            old(self)@.size + key.len <= usize::MAX,
        ensures
            final(self)@.wf(),
            old(self)@.inserts(
                key@,
                PageCacheEntry::fresh(registration, now),
                final(self)@,
                r,
            ),
    {
        let ghost before = self@;
        let entry_size: usize = key.len;
        let entry = PageCacheEntry::new_at(registration, now);
        if self.current_size_bytes + entry_size > self.max_size_bytes {
            let freed = self.evict_lru(entry_size);
            proof {
                let gone = choose|gone: Set<(i64, u64, usize)>| #[trigger]
                    before.evicts(gone, key.len as int) && self@ == before.evict(gone) && freed
                        == (bytes_of(gone) >= key.len);
                lemma_bytes_subset(gone, before.entries.dom());
                if !freed {
                    assert(before.inserts(key@, entry, self@, freed));
                } else {
                    assert(before.inserts(key@, entry, self@.with(key@, entry), freed));
                }
            }
            if !freed {
                return false;
            }
        }
        proof {
            lemma_with_keeps_wf(self@, key@, entry);
        }
        let _ = map_insert(&mut self.cache, (key.block_id, key.offset, key.len), entry);
        self.current_size_bytes = self.current_size_bytes + entry_size;
        true
    }

    /// Inserts a registration. Returns false where no room could be made.
    pub fn insert(
        &mut self,
        key: PageCacheKey,
        registration: Arc<PageCacheRdmaRegistration>,
    ) -> (r: bool)
        requires
            old(self)@.wf(),
            old(self)@.size + key.len <= usize::MAX,
        ensures
            final(self)@.wf(),
            exists|now: u64|
                clock::was_read(now) && old(self)@.inserts(
                    key@,
                    #[trigger] PageCacheEntry::fresh(registration, now),
                    final(self)@,
                    r,
                ),
    {
        let now = read_clock();
        self.insert_at(key, registration, now)
    }

    /// Removes an entry. Returns false where there was none.
    pub fn remove(&mut self, key: &PageCacheKey) -> (r: bool)
        requires
            old(self)@.wf(),
        ensures
            final(self)@.wf(),
            r == old(self)@.entries.dom().contains(key@),
            final(self)@ == if r {
                old(self)@.without(key@)
            } else {
                old(self)@
            },
    {
        let ghost before = self@;
        let id = (key.block_id, key.offset, key.len);
        let removed = map_remove(&mut self.cache, &id);
        if let Some(_) = removed {
            proof {
                lemma_bytes_remove(before.entries.dom(), id);
                lemma_bytes_subset(before.entries.dom().remove(id), before.entries.dom());
                assert(self@.entries.dom() =~= before.entries.dom().remove(id));
            }
            self.current_size_bytes = self.current_size_bytes - key.len;
            true
        } else {
            assert(self@.entries =~= before.entries);
            false
        }
    }

    /// Removes every entry.
    pub fn clear(&mut self)
        requires
            old(self)@.wf(),
        ensures
            final(self)@.wf(),
            final(self)@ == old(self)@.cleared(),
    {
        map_clear(&mut self.cache);
        self.current_size_bytes = 0;
    }

    /// Statistics of the table.
    pub fn stats(&self) -> (r: PageCacheStats)
        ensures
            r.entries == self@.entries.dom().len(),
            r.size_bytes == self@.size,
            r.max_size_bytes == self@.max_size,
            r.hits == self@.hits,
            r.misses == self@.misses,
            r.evictions == self@.evictions,
    {
        PageCacheStats {
            entries: map_len(&self.cache),
            size_bytes: self.current_size_bytes,
            max_size_bytes: self.max_size_bytes,
            hits: self.hits,
            misses: self.misses,
            evictions: self.evictions,
        }
    }
}

} // verus!
