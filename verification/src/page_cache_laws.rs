//! What the operations of the page cache table promise together.

use crate::clock;
use crate::page_cache::PageCacheRdmaRegistration;
use crate::page_cache_entry::{PageCacheEntry, PageCacheKey};
use crate::page_cache_map;
use crate::page_cache_table;
use crate::page_cache_table::{PageCacheStats, PageCacheTable, TableState};
use std::sync::Arc;
use vstd::prelude::*;

verus! {

/// What was inserted is found, with its registration, at the next lookup.
pub proof fn law_lookup_finds_what_was_inserted(
    t: TableState,
    key: (i64, u64, usize),
    entry: PageCacheEntry,
    after: TableState,
    now: u64,
)
    requires
        t.wf(),
        t.inserts(key, entry, after, true),
    ensures
        after.lookup(key, now).1 == Some(entry.touched(now)),
        after.lookup(key, now).0.hits == crate::counter::next_u64(after.hits),
{
}

/// An insertion succeeds exactly when there is room, or when what is cached is at least as
/// large as what is to go in.
pub proof fn law_insertion_succeeds(
    t: TableState,
    key: (i64, u64, usize),
    entry: PageCacheEntry,
    after: TableState,
    inserted: bool,
)
    requires
        t.wf(),
        t.inserts(key, entry, after, inserted),
    ensures
        inserted <==> t.size + key.2 <= t.max_size || page_cache_table::bytes_of(t.entries.dom())
            >= key.2,
{
    if t.size + key.2 > t.max_size {
        let gone = evicted(t, key, entry, after, inserted);
        page_cache_table::lemma_bytes_subset(gone, t.entries.dom());
    }
}

/// Whatever is inserted, what is cached stays within the limit, and so does its count.
pub proof fn law_limit_is_kept(
    t: TableState,
    key: (i64, u64, usize),
    entry: PageCacheEntry,
    after: TableState,
    inserted: bool,
)
    requires
        t.wf(),
        t.inserts(key, entry, after, inserted),
    ensures
        after.wf(),
        after.max_size == t.max_size,
        page_cache_table::bytes_of(after.entries.dom()) <= t.max_size,
{
    if t.size + key.2 > t.max_size {
        let gone = evicted(t, key, entry, after, inserted);
        page_cache_table::lemma_evict_keeps_wf(t, gone);
        if inserted {
            page_cache_table::lemma_with_keeps_wf(t.evict(gone), key, entry);
        }
    } else {
        page_cache_table::lemma_with_keeps_wf(t, key, entry);
    }
}

/// What is larger than the limit is refused, and leaves nothing cached.
pub proof fn law_oversized_is_refused(
    t: TableState,
    key: (i64, u64, usize),
    entry: PageCacheEntry,
    after: TableState,
    inserted: bool,
)
    requires
        t.wf(),
        key.2 > t.max_size,
        t.inserts(key, entry, after, inserted),
    ensures
        !inserted,
        after.entries == page_cache_map::no_entries(),
{
    let gone = evicted(t, key, entry, after, inserted);
    page_cache_table::lemma_bytes_subset(gone, t.entries.dom());
    assert(t.entries.remove_keys(t.entries.dom()) =~= page_cache_map::no_entries());
}

/// An insertion changes no other entry: each of them is evicted or stays as it was. None is
/// evicted where there is room.
pub proof fn law_other_entries_stay(
    t: TableState,
    key: (i64, u64, usize),
    entry: PageCacheEntry,
    after: TableState,
    inserted: bool,
    other: (i64, u64, usize),
)
    requires
        t.wf(),
        t.inserts(key, entry, after, inserted),
        other != key,
    ensures
        after.entries.dom().contains(other) ==> t.entries.dom().contains(other)
            && after.entries[other] == t.entries[other],
        t.size + key.2 <= t.max_size && t.entries.dom().contains(other)
            ==> after.entries.dom().contains(other),
{
}

/// Eviction is by age: where an entry is evicted, so is every other that was accessed before
/// it, unless it is the one that is inserted anew.
pub proof fn law_older_entries_leave_first(
    t: TableState,
    key: (i64, u64, usize),
    entry: PageCacheEntry,
    after: TableState,
    inserted: bool,
    evicted_key: (i64, u64, usize),
    older: (i64, u64, usize),
)
    requires
        t.wf(),
        t.inserts(key, entry, after, inserted),
        t.entries.dom().contains(evicted_key),
        t.entries.dom().contains(older),
        !after.entries.dom().contains(evicted_key),
        t.entries[older].last_access < t.entries[evicted_key].last_access,
        older != key,
    ensures
        !after.entries.dom().contains(older),
{
    let gone = evicted(t, key, entry, after, inserted);
    assert(gone.contains(evicted_key));
    if !gone.contains(older) {
        assert(t.entries.dom().contains(older));
    }
}

/// While no key is inserted twice, the count is exactly what is cached.
pub proof fn law_count_is_exact(
    t: TableState,
    key: (i64, u64, usize),
    entry: PageCacheEntry,
    after: TableState,
    inserted: bool,
)
    requires
        t.wf(),
        t.size == page_cache_table::bytes_of(t.entries.dom()),
        !t.entries.dom().contains(key),
        t.inserts(key, entry, after, inserted),
    ensures
        after.size == page_cache_table::bytes_of(after.entries.dom()),
{
    let keys = t.entries.dom();
    if t.size + key.2 > t.max_size {
        let gone = evicted(t, key, entry, after, inserted);
        page_cache_table::lemma_evict_keeps_wf(t, gone);
        page_cache_table::lemma_bytes_split(keys, gone);
        let kept = t.evict(gone).entries.dom();
        assert(kept =~= keys.difference(gone));
        if inserted {
            page_cache_table::lemma_bytes_insert(kept, key);
            assert(after.entries.dom() =~= kept.insert(key));
        }
    } else {
        page_cache_table::lemma_bytes_insert(keys, key);
        assert(after.entries.dom() =~= keys.insert(key));
    }
}

/// Lookups, removals and clearing keep the count exact.
pub proof fn law_count_stays_exact(t: TableState, key: (i64, u64, usize), now: u64)
    requires
        t.wf(),
        t.size == page_cache_table::bytes_of(t.entries.dom()),
    ensures
        ({
            let looked_up = t.lookup(key, now).0;
            &&& looked_up.size == page_cache_table::bytes_of(looked_up.entries.dom())
            &&& t.entries.dom().contains(key) ==> t.without(key).size
                == page_cache_table::bytes_of(t.without(key).entries.dom())
            &&& t.cleared().size == page_cache_table::bytes_of(t.cleared().entries.dom())
        }),
{
    let keys = t.entries.dom();
    if keys.contains(key) {
        assert(t.lookup(key, now).0.entries.dom() =~= keys);
        page_cache_table::lemma_bytes_remove(keys, key);
        page_cache_table::lemma_bytes_subset(keys.remove(key), keys);
        assert(t.without(key).entries.dom() =~= keys.remove(key));
    }
    assert(t.cleared().entries.dom() =~= Set::empty());
}

/// A removed key is missed at the next lookup, and the others are found as before.
pub proof fn law_removed_is_missed(
    t: TableState,
    key: (i64, u64, usize),
    other: (i64, u64, usize),
    now: u64,
)
    requires
        t.wf(),
        t.entries.dom().contains(key),
        other != key,
    ensures
        t.without(key).lookup(key, now).1 is None,
        t.without(key).lookup(other, now).1 == t.lookup(other, now).1,
{
}

/// Removing what was inserted into a table with room restores it.
pub proof fn law_remove_undoes_insert(
    t: TableState,
    key: (i64, u64, usize),
    entry: PageCacheEntry,
    after: TableState,
)
    requires
        t.wf(),
        !t.entries.dom().contains(key),
        t.size + key.2 <= t.max_size,
        t.inserts(key, entry, after, true),
    ensures
        after.without(key) == t,
{
    assert(after.without(key).entries =~= t.entries);
}

/// The keys that an insertion without room evicts.
proof fn evicted(
    t: TableState,
    key: (i64, u64, usize),
    entry: PageCacheEntry,
    after: TableState,
    inserted: bool,
) -> (gone: Set<(i64, u64, usize)>)
    requires
        t.inserts(key, entry, after, inserted),
        t.size + key.2 > t.max_size,
    ensures
        t.evicts(gone, key.2 as int),
        inserted == (page_cache_table::bytes_of(gone) >= key.2),
        after == if inserted {
            t.evict(gone).with(key, entry)
        } else {
            t.evict(gone)
        },
{
    choose|gone: Set<(i64, u64, usize)>| #[trigger]
        t.evicts(gone, key.2 as int) && inserted == (page_cache_table::bytes_of(gone) >= key.2)
            && after == if inserted {
            t.evict(gone).with(key, entry)
        } else {
            t.evict(gone)
        }
}

/// Keys stand for the same entry exactly when block, offset and length agree.
pub proof fn law_keys_differ_in_any_part(a: PageCacheKey, b: PageCacheKey)
    ensures
        a@ == b@ <==> a.block_id == b.block_id && a.offset == b.offset && a.len == b.len,
        a@.2 == a.len,
{
}

/// A key is made of the parts that were given.
pub proof fn law_key_has_its_parts(block_id: i64, offset: u64, len: usize, r: PageCacheKey)
    requires
        call_ensures(PageCacheKey::new, (block_id, offset, len), r),
    ensures
        r.block_id == block_id,
        r.offset == offset,
        r.len == len,
{
}

/// An access is at its time and counts one more; the registration stays. A new entry was
/// accessed once, when it was made.
pub proof fn law_access_is_recorded(
    entry: &mut PageCacheEntry,
    now: u64,
    registration: Arc<PageCacheRdmaRegistration>,
    made: PageCacheEntry,
)
    requires
        call_ensures(PageCacheEntry::touch_at, (entry, now), ()),
        call_ensures(PageCacheEntry::new_at, (registration, now), made),
    ensures
        final(entry).last_access == now,
        old(entry).access_count < usize::MAX ==> final(entry).access_count == old(
            entry).access_count + 1,
        final(entry).registration == old(entry).registration,
        made.registration == registration,
        made.last_access == now,
        made.access_count == 1,
{
}

/// An access by the clock is at the time that it was read as. It counts one more as well, and
/// leaves the registration.
pub proof fn law_clocked_access_is_recorded(
    entry: &mut PageCacheEntry,
    registration: Arc<PageCacheRdmaRegistration>,
    made: PageCacheEntry,
)
    requires
        call_ensures(PageCacheEntry::touch, (entry,), ()),
        call_ensures(PageCacheEntry::new, (registration,), made),
    ensures
        old(entry).access_count < usize::MAX ==> final(entry).access_count == old(
            entry).access_count + 1,
        final(entry).registration == old(entry).registration,
        made.registration == registration,
        made.access_count == 1,
        clock::was_read(final(entry).last_access),
        clock::was_read(made.last_access),
{
}

/// What an entry tells of itself, and another holder of it.
pub proof fn law_entry_tells_its_accesses(
    entry: PageCacheEntry,
    last: u64,
    count: usize,
    other: PageCacheEntry,
)
    requires
        call_ensures(PageCacheEntry::last_access, (&entry,), last),
        call_ensures(PageCacheEntry::access_count, (&entry,), count),
        call_ensures(PageCacheEntry::share, (&entry,), other),
    ensures
        last == entry.last_access,
        count == entry.access_count,
        other == entry,
{
}

/// A lookup finds exactly what is cached. The entry that it finds, with its registration, is the
/// one that the table keeps, and was accessed at the time of the lookup and once more than
/// before. The lookup is counted as a hit; nothing else changes.
pub proof fn law_hit_refreshes_entry(
    t: &mut PageCacheTable,
    key: PageCacheKey,
    now: u64,
    r: Option<PageCacheEntry>,
)
    requires
        call_ensures(PageCacheTable::get_at, (t, &key, now), r),
    ensures
        r is Some <==> old(t)@.entries.dom().contains((key.block_id, key.offset, key.len)),
        r matches Some(entry) ==> {
            let k = (key.block_id, key.offset, key.len);
            let kept = final(t)@.entries[k];
            &&& final(t)@.entries.dom().contains(k)
            &&& kept == entry
            &&& entry.last_access == now
            &&& entry.registration == old(t)@.entries[k].registration
            &&& old(t)@.entries[k].access_count < usize::MAX ==> entry.access_count == old(
                t)@.entries[k].access_count + 1
            &&& old(t)@.hits < u64::MAX ==> final(t)@.hits == old(t)@.hits + 1
            &&& final(t)@.misses == old(t)@.misses
        },
        r is None ==> {
            &&& final(t)@.entries == old(t)@.entries
            &&& final(t)@.hits == old(t)@.hits
            &&& old(t)@.misses < u64::MAX ==> final(t)@.misses == old(t)@.misses + 1
        },
        final(t)@.entries.dom() == old(t)@.entries.dom(),
        forall|other: (i64, u64, usize)|
            other != (key.block_id, key.offset, key.len) && old(t)@.entries.dom().contains(other)
                ==> #[trigger] final(t)@.entries[other] == old(t)@.entries[other],
        final(t)@.size == old(t)@.size,
        final(t)@.max_size == old(t)@.max_size,
        final(t)@.evictions == old(t)@.evictions,
{
    assert(final(t)@.entries.dom() =~= old(t)@.entries.dom());
}

/// The same relation between the table before and after any lookup, stated of the states.
pub proof fn law_lookup_refreshes_entry(t: TableState, key: (i64, u64, usize), now: u64)
    ensures
        t.lookup(key, now).1 is Some <==> t.entries.dom().contains(key),
        t.entries.dom().contains(key) ==> {
            let (after, found) = t.lookup(key, now);
            &&& after.entries.dom().contains(key)
            &&& after.entries[key].last_access == now
            &&& found == Some(after.entries[key])
            &&& after.entries[key].registration == t.entries[key].registration
            &&& t.entries[key].access_count < usize::MAX ==> after.entries[key].access_count
                == t.entries[key].access_count + 1
        },
{
}

/// A lookup by the clock finds the same, refreshes it the same way at the time that the clock was
/// read as, and changes nothing else.
pub proof fn law_clocked_hit_refreshes_entry(
    t: &mut PageCacheTable,
    key: PageCacheKey,
    r: Option<PageCacheEntry>,
)
    requires
        call_ensures(PageCacheTable::get, (t, &key), r),
    ensures
        r is Some <==> old(t)@.entries.dom().contains((key.block_id, key.offset, key.len)),
        r matches Some(entry) ==> {
            let k = (key.block_id, key.offset, key.len);
            &&& final(t)@.entries.dom().contains(k)
            &&& final(t)@.entries[k] == entry
            &&& clock::was_read(entry.last_access)
            &&& entry.registration == old(t)@.entries[k].registration
            &&& old(t)@.entries[k].access_count < usize::MAX ==> entry.access_count == old(
                t)@.entries[k].access_count + 1
            &&& old(t)@.hits < u64::MAX ==> final(t)@.hits == old(t)@.hits + 1
            &&& final(t)@.misses == old(t)@.misses
        },
        r is None ==> {
            &&& final(t)@.entries == old(t)@.entries
            &&& final(t)@.hits == old(t)@.hits
            &&& old(t)@.misses < u64::MAX ==> final(t)@.misses == old(t)@.misses + 1
        },
        forall|other: (i64, u64, usize)|
            other != (key.block_id, key.offset, key.len) && old(t)@.entries.dom().contains(other)
                ==> #[trigger] final(t)@.entries[other] == old(t)@.entries[other],
        final(t)@.size == old(t)@.size,
        final(t)@.max_size == old(t)@.max_size,
        final(t)@.evictions == old(t)@.evictions,
{
    let now = choose|now: u64|
        clock::was_read(now) && (final(t)@, r) == #[trigger] old(t)@.lookup(key@, now);
    assert((final(t)@, r) == old(t)@.lookup(key@, now));
}

/// An entry that was looked up after another was last accessed is not evicted before that other:
/// if the next insertion evicts it, the other one is gone as well, unless it is the one that is
/// inserted.
pub proof fn law_looked_up_entry_outlives_older(
    t: &mut PageCacheTable,
    used: PageCacheKey,
    now: u64,
    found: Option<PageCacheEntry>,
    u: &mut PageCacheTable,
    key: PageCacheKey,
    registration: Arc<PageCacheRdmaRegistration>,
    later: u64,
    inserted: bool,
    other: (i64, u64, usize),
)
    requires
        call_ensures(PageCacheTable::get_at, (t, &used, now), found),
        *final(t) == *old(u),
        call_ensures(PageCacheTable::insert_at, (u, key, registration, later), inserted),
        old(u)@.wf(),
        found is Some,
        other != (used.block_id, used.offset, used.len),
        other != (key.block_id, key.offset, key.len),
        old(t)@.entries.dom().contains(other),
        old(t)@.entries[other].last_access < now,
        !final(u)@.entries.dom().contains((used.block_id, used.offset, used.len)),
    ensures
        !final(u)@.entries.dom().contains(other),
{
    law_older_entries_leave_first(
        old(u)@,
        key@,
        PageCacheEntry::fresh(registration, later),
        final(u)@,
        inserted,
        used@,
        other,
    );
}

/// What was inserted is found under a key with the same block, offset and length, with the
/// registration that was inserted. A lookup under any other key finds what it would have found
/// before, or nothing where that was evicted.
pub proof fn law_inserted_is_found_by_its_parts(
    t: &mut PageCacheTable,
    key: PageCacheKey,
    registration: Arc<PageCacheRdmaRegistration>,
    now: u64,
    inserted: bool,
    u: &mut PageCacheTable,
    asked: PageCacheKey,
    later: u64,
    found: Option<PageCacheEntry>,
)
    requires
        old(t)@.wf(),
        call_ensures(PageCacheTable::insert_at, (t, key, registration, now), inserted),
        *final(t) == *old(u),
        call_ensures(PageCacheTable::get_at, (u, &asked, later), found),
    ensures
        inserted && asked.block_id == key.block_id && asked.offset == key.offset && asked.len
            == key.len ==> (found matches Some(entry) && entry.registration == registration
            && entry.last_access == later && entry.access_count == 2),
        asked.block_id != key.block_id || asked.offset != key.offset || asked.len != key.len ==> (
        found matches Some(entry) ==> old(t)@.entries.dom().contains(
            (asked.block_id, asked.offset, asked.len),
        ) && entry.registration == old(t)@.entries[(
            asked.block_id,
            asked.offset,
            asked.len,
        )].registration),
{
    if key@ != asked@ {
        law_other_entries_stay(
            old(t)@,
            key@,
            PageCacheEntry::fresh(registration, now),
            final(t)@,
            inserted,
            asked@,
        );
    }
}

/// An insertion succeeds exactly when there is room for the length of the key, or when the
/// entries that are cached are together at least as long. Where there is room nothing leaves;
/// the bytes of the key are counted. One that fails leaves nothing cached.
pub proof fn law_insertion_makes_room(
    t: &mut PageCacheTable,
    key: PageCacheKey,
    registration: Arc<PageCacheRdmaRegistration>,
    now: u64,
    inserted: bool,
)
    requires
        old(t)@.wf(),
        call_ensures(PageCacheTable::insert_at, (t, key, registration, now), inserted),
    ensures
        inserted <==> old(t)@.size + key.len <= old(t)@.max_size || page_cache_table::bytes_of(
            old(t)@.entries.dom(),
        ) >= key.len,
        final(t)@.entries.dom().contains((key.block_id, key.offset, key.len)) || !inserted,
        inserted ==> {
            let entry = final(t)@.entries[(key.block_id, key.offset, key.len)];
            entry.registration == registration && entry.last_access == now && entry.access_count
                == 1
        },
        old(t)@.size + key.len <= old(t)@.max_size ==> {
            &&& final(t)@.size == old(t)@.size + key.len
            &&& final(t)@.evictions == old(t)@.evictions
            &&& forall|other: (i64, u64, usize)| #[trigger]
                old(t)@.entries.dom().contains(other) ==> final(t)@.entries.dom().contains(other)
        },
        !inserted ==> forall|k: (i64, u64, usize)| !(#[trigger] final(t)@.entries.dom().contains(k)),
        final(t)@.wf(),
        final(t)@.size <= final(t)@.max_size,
        final(t)@.max_size == old(t)@.max_size,
        final(t)@.hits == old(t)@.hits,
        final(t)@.misses == old(t)@.misses,
{
    let entry = PageCacheEntry::fresh(registration, now);
    law_insertion_succeeds(old(t)@, key@, entry, final(t)@, inserted);
    law_limit_is_kept(old(t)@, key@, entry, final(t)@, inserted);
    if !inserted {
        let gone = evicted(old(t)@, key@, entry, final(t)@, inserted);
        assert(gone == old(t)@.entries.dom());
    }
}

/// No more is evicted than has to be: of what an insertion of a new key evicts, all but one of
/// the most recently accessed would not have made enough room. Each entry that leaves is counted
/// as an eviction, and its bytes are counted off.
pub proof fn law_no_more_evicted_than_needed(
    t: &mut PageCacheTable,
    key: PageCacheKey,
    registration: Arc<PageCacheRdmaRegistration>,
    now: u64,
    inserted: bool,
)
    requires
        old(t)@.wf(),
        call_ensures(PageCacheTable::insert_at, (t, key, registration, now), inserted),
        !old(t)@.entries.dom().contains((key.block_id, key.offset, key.len)),
    ensures
        ({
            let gone = old(t)@.entries.dom().difference(final(t)@.entries.dom());
            &&& gone.len() > 0 ==> exists|last: (i64, u64, usize)|
                #![trigger gone.contains(last)]
                gone.contains(last) && page_cache_table::bytes_of(gone.remove(last)) < key.len && (
                forall|k: (i64, u64, usize)| #[trigger]
                    gone.contains(k) ==> old(t)@.entries[k].last_access
                        <= old(t)@.entries[last].last_access)
            &&& old(t)@.evictions + gone.len() <= u64::MAX ==> final(t)@.evictions == old(
                t)@.evictions + gone.len()
            &&& final(t)@.size == old(t)@.size - page_cache_table::bytes_of(gone) + if inserted {
                key.len as int
            } else {
                0
            }
        }),
{
    let entry = PageCacheEntry::fresh(registration, now);
    let all = old(t)@.entries.dom();
    let gone = all.difference(final(t)@.entries.dom());
    if old(t)@.size + key.len > old(t)@.max_size {
        let left = evicted(old(t)@, key@, entry, final(t)@, inserted);
        assert(gone =~= left);
        page_cache_table::lemma_evict_keeps_wf(old(t)@, gone);
        page_cache_table::lemma_bytes_subset(gone, all);
        if gone.len() > 0 {
            let last = choose|last: (i64, u64, usize)| #[trigger]
                old(t)@.last_out(left, last, key.len as int);
            assert(gone.contains(last));
        }
    } else {
        assert(gone =~= Set::empty());
    }
}

/// An insertion by the clock is one at the time that the clock was read as.
pub proof fn law_clocked_insertion_makes_room(
    t: &mut PageCacheTable,
    key: PageCacheKey,
    registration: Arc<PageCacheRdmaRegistration>,
    inserted: bool,
)
    requires
        old(t)@.wf(),
        call_ensures(PageCacheTable::insert, (t, key, registration), inserted),
    ensures
        inserted <==> old(t)@.size + key.len <= old(t)@.max_size || page_cache_table::bytes_of(
            old(t)@.entries.dom(),
        ) >= key.len,
        inserted ==> {
            let k = (key.block_id, key.offset, key.len);
            &&& final(t)@.entries.dom().contains(k)
            &&& final(t)@.entries[k].registration == registration
            &&& final(t)@.entries[k].access_count == 1
            &&& clock::was_read(final(t)@.entries[k].last_access)
        },
        final(t)@.wf(),
        final(t)@.max_size == old(t)@.max_size,
{
    let now = choose|now: u64|
        clock::was_read(now) && old(t)@.inserts(
            key@,
            #[trigger] PageCacheEntry::fresh(registration, now),
            final(t)@,
            inserted,
        );
    let entry = PageCacheEntry::fresh(registration, now);
    law_insertion_succeeds(old(t)@, key@, entry, final(t)@, inserted);
    law_limit_is_kept(old(t)@, key@, entry, final(t)@, inserted);
}

/// A removal takes out exactly the entry under the key, where there is one, and counts its bytes
/// off; it is no eviction.
pub proof fn law_removal_takes_out_its_key(t: &mut PageCacheTable, key: PageCacheKey, r: bool)
    requires
        old(t)@.wf(),
        call_ensures(PageCacheTable::remove, (t, &key), r),
    ensures
        r <==> old(t)@.entries.dom().contains((key.block_id, key.offset, key.len)),
        !final(t)@.entries.dom().contains((key.block_id, key.offset, key.len)),
        forall|other: (i64, u64, usize)|
            other != (key.block_id, key.offset, key.len) ==> (#[trigger] final(
                t)@.entries.dom().contains(other) <==> old(t)@.entries.dom().contains(other)),
        forall|other: (i64, u64, usize)|
            other != (key.block_id, key.offset, key.len) && old(t)@.entries.dom().contains(other)
                ==> #[trigger] final(t)@.entries[other] == old(t)@.entries[other],
        final(t)@.size == old(t)@.size - if r {
            key.len as int
        } else {
            0
        },
        final(t)@.max_size == old(t)@.max_size,
        final(t)@.hits == old(t)@.hits,
        final(t)@.misses == old(t)@.misses,
        final(t)@.evictions == old(t)@.evictions,
{
    if r {
        page_cache_table::lemma_bytes_remove(old(t)@.entries.dom(), key@);
        page_cache_table::lemma_bytes_subset(
            old(t)@.entries.dom().remove(key@),
            old(t)@.entries.dom(),
        );
    }
}

/// Clearing leaves nothing cached and nothing counted as cached; the limit and the counts of
/// hits, misses and evictions stay.
pub proof fn law_clearing_leaves_nothing(t: &mut PageCacheTable)
    requires
        call_ensures(PageCacheTable::clear, (t,), ()),
    ensures
        forall|k: (i64, u64, usize)| !(#[trigger] final(t)@.entries.dom().contains(k)),
        final(t)@.size == 0,
        final(t)@.max_size == old(t)@.max_size,
        final(t)@.hits == old(t)@.hits,
        final(t)@.misses == old(t)@.misses,
        final(t)@.evictions == old(t)@.evictions,
{
}

/// A new table has nothing cached and counted nothing, and takes whatever is no larger than its
/// limit in megabytes, and nothing that is larger.
pub proof fn law_new_table_takes_its_limit(
    max_size_mb: usize,
    made: PageCacheTable,
    t: &mut PageCacheTable,
    key: PageCacheKey,
    registration: Arc<PageCacheRdmaRegistration>,
    now: u64,
    inserted: bool,
    stats: PageCacheStats,
)
    requires
        max_size_mb * 1024 * 1024 <= usize::MAX,
        call_ensures(PageCacheTable::new, (max_size_mb,), made),
        call_ensures(PageCacheTable::stats, (&made,), stats),
        *old(t) == made,
        call_ensures(PageCacheTable::insert_at, (t, key, registration, now), inserted),
    ensures
        inserted <==> key.len <= max_size_mb * 1024 * 1024,
        stats.entries == 0,
        stats.size_bytes == 0,
        stats.max_size_bytes == max_size_mb * 1024 * 1024,
        stats.hits == 0,
        stats.misses == 0,
        stats.evictions == 0,
        forall|k: (i64, u64, usize)| !(#[trigger] made@.entries.dom().contains(k)),
{
    let entry = PageCacheEntry::fresh(registration, now);
    assert(made@.entries.dom() =~= Set::empty());
    law_insertion_succeeds(old(t)@, key@, entry, final(t)@, inserted);
}

/// The statistics are the table's own numbers.
pub proof fn law_statistics_are_the_tables(t: PageCacheTable, r: PageCacheStats)
    requires
        call_ensures(PageCacheTable::stats, (&t,), r),
    ensures
        r.entries == t@.entries.dom().len(),
        r.size_bytes == t@.size,
        r.max_size_bytes == t@.max_size,
        r.hits == t@.hits,
        r.misses == t@.misses,
        r.evictions == t@.evictions,
{
}

/// A table takes every operation at any time, as long as the count of its bytes does not run over,
/// and stays one that does.
pub proof fn law_table_takes_any_operation(
    t: &mut PageCacheTable,
    key: PageCacheKey,
    registration: Arc<PageCacheRdmaRegistration>,
    now: u64,
)
    requires
        old(t)@.entries.dom().finite(),
        page_cache_table::bytes_of(old(t)@.entries.dom()) <= old(t)@.size <= old(t)@.max_size,
        old(t)@.size + key.len <= usize::MAX,
    ensures
        call_requires(PageCacheTable::get_at, (t, &key, now)),
        call_requires(PageCacheTable::get, (t, &key)),
        call_requires(PageCacheTable::insert_at, (t, key, registration, now)),
        call_requires(PageCacheTable::insert, (t, key, registration)),
        call_requires(PageCacheTable::remove, (t, &key)),
        call_requires(PageCacheTable::clear, (t,)),
{
}

} // verus!
