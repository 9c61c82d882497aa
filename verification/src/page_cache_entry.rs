//! Keys and entries of the page cache table.

use crate::clock;
use crate::clock::read_clock;
use crate::counter;
use crate::counter::count_usize;
use crate::page_cache::PageCacheRdmaRegistration;
use crate::shared_handle::arc_clone;
use std::sync::Arc;
use vstd::prelude::*;

verus! {

/// Key of a cached stretch of a block.
#[derive(Debug, Clone, Copy, PartialEq, Eq, Hash, Structural)]
pub struct PageCacheKey {
    pub block_id: i64,
    pub offset: u64,
    pub len: usize,
}

impl View for PageCacheKey {
    type V = (i64, u64, usize);

    open spec fn view(&self) -> (i64, u64, usize) {
        (self.block_id, self.offset, self.len)
    }
}

impl PageCacheKey {
    pub fn new(block_id: i64, offset: u64, len: usize) -> (r: Self)
        ensures
            r == (PageCacheKey { block_id, offset, len }),
    {
        PageCacheKey { block_id, offset, len }
    }
}

/// A cached registration with what the eviction order and the statistics need.
#[derive(Debug)]
pub struct PageCacheEntry {
    /// The registration, which lives as long as any holder.
    pub registration: Arc<PageCacheRdmaRegistration>,
    pub last_access: u64,
    pub access_count: usize,
}

impl PageCacheEntry {
    /// The entry after an access at `now`.
    pub open spec fn touched(self, now: u64) -> PageCacheEntry {
        PageCacheEntry {
            registration: self.registration,
            last_access: now,
            access_count: counter::next_usize(self.access_count),
        }
    }

    /// An entry that was made, and so accessed once, at `now`.
    pub open spec fn fresh(
        registration: Arc<PageCacheRdmaRegistration>,
        now: u64,
    ) -> PageCacheEntry {
        PageCacheEntry { registration, last_access: now, access_count: 1 }
    }

    /// An entry that was made, and so accessed once, at `now`.
    pub fn new_at(registration: Arc<PageCacheRdmaRegistration>, now: u64) -> (r: Self)
        ensures
            r == PageCacheEntry::fresh(registration, now),
    {
        PageCacheEntry { registration, last_access: now, access_count: 1 }
    }

    /// An entry that is made, and so accessed once, now.
    pub fn new(registration: Arc<PageCacheRdmaRegistration>) -> (r: Self)
        ensures
            r == PageCacheEntry::fresh(registration, r.last_access),
            clock::was_read(r.last_access),
    {
        PageCacheEntry::new_at(registration, read_clock())
    }

    /// Records an access at `now`.
    pub fn touch_at(&mut self, now: u64)
        ensures
            *final(self) == old(self).touched(now),
    {
        self.last_access = now;
        self.access_count = count_usize(self.access_count);
    }

    /// Records an access.
    pub fn touch(&mut self)
        ensures
            *final(self) == old(self).touched(final(self).last_access),
            clock::was_read(final(self).last_access),
    {
        self.touch_at(read_clock());
    }

    /// When the entry was last accessed, in milliseconds.
    pub fn last_access(&self) -> (r: u64)
        ensures
            r == self.last_access,
    {
        self.last_access
    }

    /// How often the entry was accessed.
    pub fn access_count(&self) -> (r: usize)
        ensures
            r == self.access_count,
    {
        self.access_count
    }

    /// Another holder of the same registration, with the counts as they stand.
    pub fn share(&self) -> (r: Self)
        ensures
            r == *self,
    {
        PageCacheEntry {
            registration: arc_clone(&self.registration),
            last_access: self.last_access,
            access_count: self.access_count,
        }
    }
}

} // verus!
