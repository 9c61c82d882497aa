//! The page cache table.

use curvine_rdma::clock::{current_timestamp, timestamp_of};
use curvine_rdma::access_order::sort_by_access;
use curvine_rdma::page_cache::PageCacheRdmaRegistration;
use curvine_rdma::page_cache_entry::{PageCacheEntry, PageCacheKey};
use curvine_rdma::page_cache_table::PageCacheTable;
use curvine_rdma::types::{MemoryRegionDescriptor, MemoryRegionHandle};
use std::sync::Arc;

const MB: usize = 1024 * 1024;

fn registered(id: u64, data: Vec<u8>) -> Arc<PageCacheRdmaRegistration> {
    let answer = Ok((MemoryRegionHandle { id }, MemoryRegionDescriptor::new(id, vec![])));
    Arc::new(PageCacheRdmaRegistration::register(data, answer).unwrap())
}

#[test]
fn test_page_cache_registration_lifecycle() {
    let data = vec![0u8; 4096];
    let owned = PageCacheRdmaRegistration::own_data(&data);
    let answer = Ok((MemoryRegionHandle { id: 3 }, MemoryRegionDescriptor::new(17, vec![])));
    let registration = PageCacheRdmaRegistration::register(owned, answer).unwrap();
    assert_eq!(registration.len(), 4096);
    assert_eq!(registration.offset(), 0);
    assert_eq!(registration.handle(), MemoryRegionHandle { id: 3 });
    assert_eq!(registration.descriptor().ptr, 17);
    assert_eq!(registration.as_ptr(), registration.data().as_ptr() as u64);
}

#[test]
fn registration_keeps_a_copy() {
    let mut data = vec![1u8, 2, 3];
    let owned = PageCacheRdmaRegistration::own_data(&data);
    data[0] = 9;
    let registration = registered(1, owned);
    assert_eq!(registration.data(), &[1u8, 2, 3]);
}

#[test]
fn refused_registration() {
    let refused = PageCacheRdmaRegistration::register(vec![1], Err("no memory".to_string()));
    assert_eq!(
        refused.err(),
        Some("Failed to register page cache for RDMA: no memory".to_string())
    );
}

#[test]
fn test_page_cache_key() {
    let key1 = PageCacheKey::new(123, 0, 1024);
    let key2 = PageCacheKey::new(123, 0, 1024);
    let key3 = PageCacheKey::new(123, 1024, 1024);

    assert_eq!(key1, key2);
    assert_ne!(key1, key3);
}

#[test]
fn entry_counts_accesses() {
    let mut entry = PageCacheEntry::new_at(registered(1, vec![1]), 5);
    assert_eq!((entry.last_access(), entry.access_count()), (5, 1));
    entry.touch_at(9);
    assert_eq!((entry.last_access(), entry.access_count()), (9, 2));
    let shared = entry.share();
    assert!(Arc::ptr_eq(&shared.registration, &entry.registration));
    assert_eq!(shared.access_count(), 2);
    entry.touch();
    assert_eq!(entry.access_count(), 3);
    assert!(entry.last_access() > 1_600_000_000_000);
    assert_eq!(PageCacheEntry::new(registered(2, vec![])).access_count(), 1);
}

#[test]
fn clock_in_milliseconds() {
    assert_eq!(timestamp_of(Some((12, 345))), 12345);
    assert_eq!(timestamp_of(Some((0, 0))), 0);
    assert_eq!(timestamp_of(None), 0);
    // 2^64 milliseconds are 18446744073709551 s and 616 ms.
    assert_eq!(timestamp_of(Some((18446744073709551, 615))), u64::MAX);
    assert_eq!(timestamp_of(Some((18446744073709551, 617))), 1);
    let first = current_timestamp();
    let second = current_timestamp();
    assert!(first > 1_600_000_000_000);
    assert!(second >= first);
}

#[test]
fn lookup_finds_what_was_inserted() {
    let mut table = PageCacheTable::new(1);
    let key = PageCacheKey::new(1, 0, 100);
    let registration = registered(7, vec![3; 100]);
    assert!(table.get_at(&key, 1).is_none());
    assert!(table.insert_at(key, registration.clone(), 2));
    let found = table.get_at(&key, 5).unwrap();
    assert!(Arc::ptr_eq(&found.registration, &registration));
    assert_eq!((found.last_access(), found.access_count()), (5, 2));
    let again = table.get_at(&key, 6).unwrap();
    assert_eq!((again.last_access(), again.access_count()), (6, 3));
    let stats = table.stats();
    assert_eq!(stats.entries, 1);
    assert_eq!(stats.size_bytes, 100);
    assert_eq!(stats.max_size_bytes, MB);
    assert_eq!((stats.hits, stats.misses, stats.evictions), (2, 1, 0));
}

#[test]
fn insert_and_get_by_the_clock() {
    let mut table = PageCacheTable::new(1);
    let key = PageCacheKey::new(4, 8, 16);
    assert!(table.insert(key, registered(1, vec![])));
    let found = table.get(&key).unwrap();
    assert_eq!(found.access_count(), 2);
    assert!(found.last_access() > 1_600_000_000_000);
    assert!(table.get(&PageCacheKey::new(4, 8, 17)).is_none());
}

#[test]
fn least_recently_used_leaves_first() {
    let mut table = PageCacheTable::new(1);
    let keys: Vec<PageCacheKey> =
        (0..4).map(|i| PageCacheKey::new(i, 0, MB / 4)).collect();
    for (i, key) in keys.iter().enumerate() {
        assert!(table.insert_at(*key, registered(i as u64, vec![]), 10 + i as u64));
    }
    // The oldest is used again, so the second one is now the oldest.
    assert!(table.get_at(&keys[0], 20).is_some());
    let new = PageCacheKey::new(9, 0, MB / 4 + 1);
    assert!(table.insert_at(new, registered(9, vec![]), 21));
    // A quarter is one byte short, so two had to leave.
    assert!(table.get_at(&keys[1], 30).is_none());
    assert!(table.get_at(&keys[2], 30).is_none());
    assert!(table.get_at(&keys[0], 30).is_some());
    assert!(table.get_at(&keys[3], 30).is_some());
    assert!(table.get_at(&new, 30).is_some());
    let stats = table.stats();
    assert_eq!(stats.evictions, 2);
    assert_eq!(stats.entries, 3);
    assert_eq!(stats.size_bytes, MB / 4 * 3 + 1);
}

#[test]
fn oversized_is_refused_and_empties_the_table() {
    let mut table = PageCacheTable::new(1);
    for i in 0..3 {
        assert!(table.insert_at(PageCacheKey::new(i, 0, 1000), registered(0, vec![]), i as u64));
    }
    assert!(!table.insert_at(PageCacheKey::new(9, 0, MB + 1), registered(1, vec![]), 9));
    let stats = table.stats();
    assert_eq!((stats.entries, stats.size_bytes, stats.evictions), (0, 0, 3));
}

#[test]
fn insertion_fails_when_too_little_can_leave() {
    // A key that is inserted twice counts twice, but can leave only once.
    let mut table = PageCacheTable::new(1);
    let key = PageCacheKey::new(1, 0, MB / 2);
    assert!(table.insert_at(key, registered(1, vec![]), 1));
    assert!(table.insert_at(key, registered(2, vec![]), 2));
    let stats = table.stats();
    assert_eq!((stats.entries, stats.size_bytes), (1, MB));
    assert!(!table.insert_at(PageCacheKey::new(2, 0, MB / 2 + 1), registered(3, vec![]), 3));
    let stats = table.stats();
    assert_eq!((stats.entries, stats.size_bytes, stats.evictions), (0, MB / 2, 1));
}

#[test]
fn remove_and_clear() {
    let mut table = PageCacheTable::new(1);
    let a = PageCacheKey::new(1, 0, 10);
    let b = PageCacheKey::new(2, 0, 20);
    assert!(table.insert_at(a, registered(1, vec![]), 1));
    assert!(table.insert_at(b, registered(2, vec![]), 2));
    assert!(table.remove(&a));
    assert!(!table.remove(&a));
    assert!(table.get_at(&a, 3).is_none());
    assert!(table.get_at(&b, 3).is_some());
    assert_eq!(table.stats().size_bytes, 20);
    assert!(table.get_at(&b, 4).is_some());
    assert_eq!(table.stats().size_bytes, 20);
    table.clear();
    let stats = table.stats();
    assert_eq!((stats.entries, stats.size_bytes), (0, 0));
    assert_eq!((stats.hits, stats.misses), (2, 1));
    assert!(table.get_at(&b, 4).is_none());
}

#[test]
fn candidates_in_order_of_access() {
    let list = vec![((1, 0, 1), 5u64), ((2, 0, 1), 3), ((3, 0, 1), 5), ((4, 0, 1), 1)];
    let sorted = sort_by_access(&list);
    let ids: Vec<i64> = sorted.iter().map(|c| c.0 .0).collect();
    assert_eq!(ids, vec![4, 2, 1, 3]);
    assert!(sort_by_access(&vec![]).is_empty());
}
