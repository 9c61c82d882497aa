//! The concurrent hash map of the `dashmap` crate, as the page cache table uses it.
//!
//! Each function here has the map to itself: it borrows it mutably where it changes it, and
//! holds no reference into it afterwards.

use crate::page_cache_entry::PageCacheEntry;
use dashmap::DashMap;
use vstd::prelude::*;

verus! {

/// The map type of the `dashmap` crate.
#[verifier::external_type_specification]
#[verifier::external_body]
#[verifier::reject_recursive_types(K)]
#[verifier::reject_recursive_types(V)]
#[verifier::reject_recursive_types(S)]
pub struct ExDashMap<K, V, S>(dashmap::DashMap<K, V, S>);

/// The entries of a map.
pub uninterp spec fn entries(m: DashMap<(i64, u64, usize), PageCacheEntry>) -> Map<
    (i64, u64, usize),
    PageCacheEntry,
>;

/// What a map without entries holds.
pub open spec fn no_entries() -> Map<(i64, u64, usize), PageCacheEntry> {
    Map::empty()
}

/// `DashMap::new`: a map without entries.
#[verifier::external_body]
pub(crate) fn map_new() -> (r: DashMap<(i64, u64, usize), PageCacheEntry>)
    ensures
        entries(r) == no_entries(),
{
    DashMap::new()
}

/// `DashMap::get`: the entry under the key, if there is one. The reference that the map hands
/// out is turned into an entry of its own.
#[verifier::external_body]
pub(crate) fn map_get(
    m: &DashMap<(i64, u64, usize), PageCacheEntry>,
    key: &(i64, u64, usize),
) -> (r: Option<PageCacheEntry>)
    ensures
        r == if entries(*m).dom().contains(*key) {
            Some(entries(*m)[*key])
        } else {
            None
        },
{
    m.get(key).map(|entry| entry.share())
}

/// `DashMap::insert`: puts the entry under the key and returns the one that it replaced, if
/// there was one.
#[verifier::external_body]
pub(crate) fn map_insert(
    m: &mut DashMap<(i64, u64, usize), PageCacheEntry>,
    key: (i64, u64, usize),
    entry: PageCacheEntry,
) -> (r: Option<PageCacheEntry>)
    ensures
        entries(*final(m)) == entries(*old(m)).insert(key, entry),
        r == if entries(*old(m)).dom().contains(key) {
            Some(entries(*old(m))[key])
        } else {
            None
        },
{
    m.insert(key, entry)
}

/// `DashMap::remove`: takes the entry under the key out of the map and returns it, if there
/// is one. Of the key and value that the map returns, the value is passed on.
#[verifier::external_body]
pub(crate) fn map_remove(
    m: &mut DashMap<(i64, u64, usize), PageCacheEntry>,
    key: &(i64, u64, usize),
) -> (r: Option<PageCacheEntry>)
    ensures
        entries(*final(m)) == entries(*old(m)).remove(*key),
        r == if entries(*old(m)).dom().contains(*key) {
            Some(entries(*old(m))[*key])
        } else {
            None
        },
{
    m.remove(key).map(|pair| pair.1)
}

/// `DashMap::clear`: takes every entry out of the map.
#[verifier::external_body]
pub(crate) fn map_clear(m: &mut DashMap<(i64, u64, usize), PageCacheEntry>)
    ensures
        entries(*final(m)) == no_entries(),
{
    m.clear()
}

/// `DashMap::len`: the number of entries.
#[verifier::external_body]
pub(crate) fn map_len(m: &DashMap<(i64, u64, usize), PageCacheEntry>) -> (r: usize)
    ensures
        r == entries(*m).dom().len(),
{
    m.len()
}

/// `DashMap::iter`: visits each entry once; for each, its key and when it was last accessed.
///
/// The order of the visits depends on a hasher that each process seeds, so it stays unsaid.
#[verifier::external_body]
pub(crate) fn map_accesses(m: &DashMap<(i64, u64, usize), PageCacheEntry>) -> (r: Vec<
    ((i64, u64, usize), u64),
>)
    ensures
        forall|i: int|
            0 <= i < r@.len() ==> entries(*m).dom().contains((#[trigger] r@[i]).0) && r@[i].1
                == entries(*m)[r@[i].0].last_access,
        forall|i: int, j: int| 0 <= i < j < r@.len() ==> (#[trigger] r@[i]).0 != (#[trigger] r@[j]).0,
        forall|k: (i64, u64, usize)| #[trigger]
            entries(*m).dom().contains(k) ==> r@.contains((k, entries(*m)[k].last_access)),
{
    m.iter().map(|entry| (*entry.key(), entry.last_access())).collect()
}

} // verus!
