//! What the memory pool promises across calls.
//!
//! A pool's history is summed up by the extents that are handed out and not yet given back.

use crate::free_list;
use crate::free_list::{align_size, free_bytes, insert_free_block, take_first_fit, FreeBlock};
use crate::memory_pool::{PoolExhausted, PoolState, RdmaAllocation, RdmaMemoryPool};
use crate::types::{MemoryRegionDescriptor, MemoryRegionHandle};
use vstd::prelude::*;

verus! {

/// `live` are the extents handed out and not yet given back: they lie in the part of the pool
/// that was handed out before, and no byte lies in two of them, in two free blocks or in one of
/// each. Together they hold no more bytes than that part.
pub open spec fn consistent(pool: PoolState, live: Seq<FreeBlock>) -> bool {
    &&& pool.wf()
    &&& free_list::within(pool.free, pool.current_offset as int)
    &&& free_list::within(live, pool.current_offset as int)
    &&& free_list::within(live, pool.total())
    &&& forall|i: int, j: int|
        0 <= i < live.len() && 0 <= j < pool.free.len() ==> (#[trigger] live[i]).apart_from(
            #[trigger] pool.free[j],
        )
    &&& free_list::disjoint(live)
    &&& free_list::disjoint(pool.free)
    &&& free_list::total_size(pool.free) + free_list::total_size(live) <= pool.current_offset
}

/// The free blocks are in order with a gap between any two, and nothing is empty. This lasts as
/// long as nobody asks for zero bytes.
pub open spec fn tidy(pool: PoolState, live: Seq<FreeBlock>) -> bool {
    &&& free_list::separated(pool.free)
    &&& free_list::solid(pool.free)
    &&& free_list::solid(live)
}

/// Every byte that was ever handed out is either in use or free.
pub open spec fn accounted(pool: PoolState, live: Seq<FreeBlock>) -> bool {
    pool.current_offset == free_list::total_size(pool.free) + free_list::total_size(live)
}

/// The extent of an allocation of `size` bytes at `offset`.
pub open spec fn extent(offset: usize, size: usize) -> FreeBlock {
    FreeBlock { offset, size: free_list::round_up(size as int) as usize }
}

/// A new allocation shares no byte with any other live allocation nor with free memory, lies
/// inside the pool, and leaves every byte accounted for. One of at least a byte keeps the free
/// list tidy.
pub proof fn law_allocation_is_exclusive(pool: PoolState, live: Seq<FreeBlock>, size: usize)
    requires
        consistent(pool, live),
        pool.countable(size),
        pool.allocate(size).1 is Some,
    ensures
        ({
            let (after, offset) = pool.allocate(size);
            let b = extent(offset.unwrap(), size);
            &&& b.end() <= pool.total()
            &&& b.size >= size
            &&& forall|i: int| 0 <= i < live.len() ==> (#[trigger] live[i]).apart_from(b)
            &&& consistent(after, live.push(b))
            &&& accounted(pool, live) ==> accounted(after, live.push(b))
            &&& size > 0 && tidy(pool, live) ==> tidy(after, live.push(b))
        }),
{
    let n = free_list::round_up(size as int);
    let i = free_list::fit_index(pool.free, n);
    let (after, offset) = pool.allocate(size);
    let b = extent(offset.unwrap(), size);
    let all = live.push(b);
    free_list::lemma_fit_index(pool.free, n);
    assert(all.drop_last() =~= live);
    assert(free_list::total_size(all) == free_list::total_size(live) + b.size);
    if i < pool.free.len() {
        let f = pool.free[i];
        assert(f.end() <= pool.total() && f.end() <= pool.current_offset);
        free_list::lemma_carve_within(pool.free, i, n, pool.total());
        free_list::lemma_carve_within(pool.free, i, n, pool.current_offset as int);
        free_list::lemma_carve_disjoint(pool.free, i, n);
        if tidy(pool, live) {
            free_list::lemma_carve_separated(pool.free, i, n);
        }
        free_list::lemma_carve_total_size(pool.free, i, n);
        assert forall|k: int| 0 <= k < live.len() implies (#[trigger] live[k]).apart_from(b) by {
            assert(live[k].apart_from(pool.free[i]));
        }
        assert forall|k: int, j: int|
            0 <= k < all.len() && 0 <= j < after.free.len() implies (
        #[trigger] all[k]).apart_from(#[trigger] after.free[j]) by {
            let j0 = if f.size == n && j >= i { j + 1 } else { j };
            if k < live.len() {
                assert(live[k].apart_from(pool.free[j0]));
            } else {
                assert(b.apart_from(after.free[j]));
            }
        }
    } else {
        assert(b.offset == pool.current_offset);
        assert forall|k: int| 0 <= k < live.len() implies (#[trigger] live[k]).apart_from(b) by {
            assert(live[k].end() <= pool.current_offset);
        }
        assert forall|k: int, j: int|
            0 <= k < all.len() && 0 <= j < after.free.len() implies (
        #[trigger] all[k]).apart_from(#[trigger] after.free[j]) by {
            if k < live.len() {
                assert(live[k].apart_from(pool.free[j]));
            } else {
                assert(pool.free[j].end() <= pool.current_offset);
            }
        }
        assert forall|j: int| 0 <= j < after.free.len() implies (#[trigger] after.free[j]).end()
            <= after.current_offset by {
            assert(pool.free[j].end() <= pool.current_offset);
        }
    }
    assert forall|k: int| 0 <= k < all.len() implies (#[trigger] all[k]).end()
        <= after.current_offset by {
        if k < live.len() {
            assert(live[k].end() <= pool.current_offset);
        }
    }
    assert forall|k: int| 0 <= k < all.len() implies (#[trigger] all[k]).end()
        <= after.total() by {
        if k < live.len() {
            assert(live[k].end() <= pool.total());
        }
    }
    assert forall|k: int, j: int| 0 <= k < j < all.len() implies (
    #[trigger] all[k]).apart_from(#[trigger] all[j]) by {
        if j < live.len() {
            assert(live[k].apart_from(live[j]));
        } else {
            assert(live[k].apart_from(b));
        }
    }
    if size > 0 && tidy(pool, live) {
        assert forall|k: int| 0 <= k < all.len() implies (#[trigger] all[k]).size > 0 by {
            if k < live.len() {
                assert(live[k].size > 0);
            }
        }
    }
}

/// A request that does not fit takes nothing away from the live allocations.
pub proof fn law_refused_request_keeps_live(pool: PoolState, live: Seq<FreeBlock>, size: usize)
    requires
        consistent(pool, live),
        pool.countable(size),
        pool.allocate(size).1 is None,
    ensures
        consistent(pool.allocate(size).0, live),
        pool.allocate(size).0.free == pool.free,
        pool.allocate(size).0.memory == pool.memory,
{
    let after = pool.allocate(size).0;
    let n = free_list::round_up(size as int);
    assert(pool.current_offset <= after.current_offset);
    assert forall|j: int| 0 <= j < after.free.len() implies (#[trigger] after.free[j]).end()
        <= after.current_offset by {
        assert(pool.free[j].end() <= pool.current_offset);
    }
    assert forall|k: int| 0 <= k < live.len() implies (#[trigger] live[k]).end()
        <= after.current_offset by {
        assert(live[k].end() <= pool.current_offset);
    }
}

/// A request is refused exactly when no free block is large enough and the rest of the pool
/// is too small.
pub proof fn law_refused_exactly_when_full(pool: PoolState, size: usize)
    requires
        pool.wf(),
        pool.countable(size),
    ensures
        pool.allocate(size).1 is None <==> {
            &&& forall|i: int|
                0 <= i < pool.free.len() ==> (#[trigger] pool.free[i]).size
                    < free_list::round_up(size as int)
            &&& pool.current_offset + free_list::round_up(size as int) > pool.total()
        },
{
    free_list::lemma_fit_index(pool.free, free_list::round_up(size as int));
}

/// Giving a live allocation back makes exactly its bytes free, and leaves the other live
/// allocations untouched, every byte accounted for and the free list tidy if it was.
pub proof fn law_deallocation_frees_its_bytes(pool: PoolState, live: Seq<FreeBlock>, k: int)
    requires
        consistent(pool, live),
        0 <= k < live.len(),
    ensures
        ({
            let after = pool.deallocate(live[k]);
            &&& consistent(after, live.remove(k))
            &&& forall|p: int|
                #![trigger free_list::covered(after.free, p)]
                free_list::covered(after.free, p) <==> free_list::covered(pool.free, p)
                    || live[k].covers(p)
            &&& free_list::total_size(after.free) == free_list::total_size(pool.free)
                + live[k].size
            &&& accounted(pool, live) ==> accounted(after, live.remove(k))
            &&& tidy(pool, live) ==> tidy(after, live.remove(k))
        }),
{
    let b = live[k];
    let after = pool.deallocate(b);
    let rest = live.remove(k);
    assert(b.end() <= pool.total() && b.end() <= pool.current_offset);
    free_list::lemma_place_within(pool.free, b, pool.total());
    free_list::lemma_place_within(pool.free, b, pool.current_offset as int);
    assert forall|j: int| 0 <= j < pool.free.len() implies b.apart_from(
        #[trigger] pool.free[j],
    ) by {
        assert(live[k].apart_from(pool.free[j]));
    }
    free_list::lemma_place_disjoint(pool.free, b);
    free_list::lemma_place_total_size(pool.free, b);
    if tidy(pool, live) {
        assert(live[k].size > 0);
        free_list::lemma_place_separated(pool.free, b);
        assert forall|i: int| 0 <= i < rest.len() implies (#[trigger] rest[i]).size > 0 by {
            let i0 = if i < k { i } else { i + 1 };
            assert(live[i0].size > 0);
        }
    }
    assert forall|p: int|
        #![trigger free_list::covered(after.free, p)]
        free_list::covered(after.free, p) <==> free_list::covered(pool.free, p) || b.covers(p) by {
        free_list::lemma_place_covers(pool.free, b, p);
    }
    assert forall|i: int| 0 <= i < rest.len() implies forall|j: int|
        0 <= j < after.free.len() ==> (#[trigger] rest[i]).apart_from(
            #[trigger] after.free[j],
        ) by {
        let i0 = if i < k { i } else { i + 1 };
        assert(rest[i] == live[i0]);
        if i0 < k {
            assert(live[i0].apart_from(live[k]));
        } else {
            assert(live[k].apart_from(live[i0]));
        }
        assert forall|j: int| 0 <= j < pool.free.len() implies rest[i].apart_from(
            #[trigger] pool.free[j],
        ) by {
            assert(live[i0].apart_from(pool.free[j]));
        }
        free_list::lemma_place_keeps_apart(pool.free, b, rest[i]);
    }
    assert forall|i: int, j: int| 0 <= i < j < rest.len() implies (
    #[trigger] rest[i]).apart_from(#[trigger] rest[j]) by {
        let i0 = if i < k { i } else { i + 1 };
        let j0 = if j < k { j } else { j + 1 };
        assert(live[i0].apart_from(live[j0]));
    }
    assert forall|i: int| 0 <= i < rest.len() implies (#[trigger] rest[i]).end()
        <= pool.current_offset && rest[i].end() <= pool.total() by {
        let i0 = if i < k { i } else { i + 1 };
        assert(live[i0].end() <= pool.current_offset);
        assert(live[i0].end() <= pool.total());
    }
    assert(free_list::total_size(rest) == free_list::total_size(live) - b.size) by {
        let head = live.take(k);
        let tail = live.skip(k + 1);
        assert(live =~= head + seq![b] + tail);
        assert(rest =~= head + tail);
        free_list::lemma_total_size_add(head, seq![b]);
        free_list::lemma_total_size_add(head + seq![b], tail);
        free_list::lemma_total_size_add(head, tail);
        assert(seq![b].drop_last() =~= Seq::<FreeBlock>::empty());
        assert(free_list::total_size(seq![b]) == free_list::total_size(seq![b].drop_last())
            + b.size);
    }
}

/// Memory that was given back is used again: a request that fits into the block is served
/// without growing into unallocated space.
pub proof fn law_freed_memory_is_reused(pool: PoolState, b: FreeBlock, size: usize)
    requires
        pool.wf(),
        b.end() <= pool.total(),
        free_list::round_up(size as int) <= b.size,
    ensures
        pool.deallocate(b).allocate(size).1 is Some,
        pool.deallocate(b).allocate(size).0.current_offset == pool.current_offset,
{
    let after = pool.deallocate(b);
    let n = free_list::round_up(size as int);
    let k = free_list::lemma_place_keeps_size(pool.free, b);
    free_list::lemma_fit_index(after.free, n);
    assert(after.free[k].size >= b.size);
    if free_list::fit_index(after.free, n) >= after.free.len() {
        assert(after.free[k].size < n);
    }
}

/// Bytes in use are the bytes of the live allocations; together with the available bytes they
/// make up the pool, as long as it has not been asked for more than it has.
pub proof fn law_bytes_in_use(pool: PoolState, live: Seq<FreeBlock>)
    requires
        consistent(pool, live),
        accounted(pool, live),
    ensures
        pool.used_bytes() == free_list::total_size(live),
        pool.current_offset <= pool.total() ==> pool.used_bytes() + pool.available_bytes()
            == pool.total(),
{
    free_list::lemma_total_size_nonnegative(live);
}

/// The statistics of a pool can be told: the bytes they sum up do not run over.
pub proof fn law_statistics_do_not_run_over(pool: PoolState, live: Seq<FreeBlock>)
    requires
        consistent(pool, live),
    ensures
        free_list::total_size(pool.free) <= usize::MAX,
        0 <= pool.available_bytes() <= usize::MAX,
{
    free_list::lemma_total_size_nonnegative(live);
    free_list::lemma_total_size_nonnegative(pool.free);
}

/// When everything was given back, the free list is a single block that spans all memory ever
/// handed out. This is of a pool that was never asked for zero bytes.
pub proof fn law_all_freed_is_one_block(pool: PoolState)
    requires
        consistent(pool, Seq::<FreeBlock>::empty()),
        accounted(pool, Seq::<FreeBlock>::empty()),
        tidy(pool, Seq::<FreeBlock>::empty()),
        pool.current_offset > 0,
    ensures
        pool.free == seq![FreeBlock { offset: 0, size: pool.current_offset }],
{
    free_list::lemma_total_size_bound(pool.free);
    if pool.free.len() > 0 {
        assert(pool.free.last().end() <= pool.current_offset);
    }
    assert(pool.free.len() == 1);
    assert(pool.free[0].end() <= pool.current_offset);
    assert(pool.free =~= seq![FreeBlock { offset: 0, size: pool.current_offset }]) by {
        assert(pool.free[0].offset == 0);
        assert(free_list::total_size(pool.free) == free_list::total_size(pool.free.drop_last())
            + pool.free[0].size);
        assert(pool.free.drop_last() =~= Seq::<FreeBlock>::empty());
    }
}

/// A pool that was just made holds nothing and owes nothing.
pub proof fn law_new_pool_is_consistent(pool: PoolState)
    requires
        pool.wf(),
        pool.current_offset == 0,
        pool.free == Seq::<FreeBlock>::empty(),
    ensures
        consistent(pool, Seq::<FreeBlock>::empty()),
        accounted(pool, Seq::<FreeBlock>::empty()),
        tidy(pool, Seq::<FreeBlock>::empty()),
        pool.used_bytes() == 0,
        pool.available_bytes() == pool.total(),
{
}

/// Giving back what was just allocated undoes the allocation: of the memory handed out before,
/// the same bytes are free, and the same number of bytes is in use.
pub proof fn law_deallocate_undoes_allocate(pool: PoolState, live: Seq<FreeBlock>, size: usize)
    requires
        consistent(pool, live),
        pool.countable(size),
        pool.allocate(size).1 is Some,
    ensures
        ({
            let (grown, offset) = pool.allocate(size);
            let after = grown.deallocate(extent(offset.unwrap(), size));
            &&& consistent(after, live)
            &&& forall|p: int|
                0 <= p < pool.current_offset ==> (#[trigger] free_list::covered(after.free, p)
                    <==> free_list::covered(pool.free, p))
            &&& accounted(pool, live) ==> after.used_bytes() == pool.used_bytes()
        }),
{
    let (grown, offset) = pool.allocate(size);
    let b = extent(offset.unwrap(), size);
    let after = grown.deallocate(b);
    let all = live.push(b);
    law_allocation_is_exclusive(pool, live, size);
    assert(all[live.len() as int] == b);
    law_deallocation_frees_its_bytes(grown, all, live.len() as int);
    assert(all.remove(live.len() as int) =~= live);
    let n = free_list::round_up(size as int);
    let i = free_list::fit_index(pool.free, n);
    free_list::lemma_fit_index(pool.free, n);
    assert forall|p: int| 0 <= p < pool.current_offset implies (
    #[trigger] free_list::covered(after.free, p) <==> free_list::covered(pool.free, p)) by {
        if i < pool.free.len() {
            lemma_carve_covers(pool.free, i, n, p);
        }
    }
    if accounted(pool, live) {
        law_bytes_in_use(pool, live);
        law_bytes_in_use(after, live);
    }
}

/// Writing to one allocation leaves the bytes of every other live allocation as they were.
pub proof fn law_write_is_private(
    memory: Seq<u8>,
    a: crate::memory_pool::AllocationView,
    b: crate::memory_pool::AllocationView,
    data: Seq<u8>,
)
    requires
        a.size + 63 <= usize::MAX,
        b.size + 63 <= usize::MAX,
        a.extent().end() <= memory.len() <= usize::MAX,
        b.extent().end() <= memory.len(),
        a.extent().apart_from(b.extent()),
        data.len() == a.size,
    ensures
        ({
            let written = memory.take(a.offset as int) + data + memory.skip(a.offset + a.size);
            &&& written.len() == memory.len()
            &&& written.subrange(a.offset as int, a.offset + a.size) == data
            &&& written.subrange(b.offset as int, b.offset + b.size) == memory.subrange(
                b.offset as int,
                b.offset + b.size,
            )
        }),
{
    let written = memory.take(a.offset as int) + data + memory.skip(a.offset + a.size);
    assert(written.subrange(a.offset as int, a.offset + a.size) =~= data);
    assert(written.subrange(b.offset as int, b.offset + b.size) =~= memory.subrange(
        b.offset as int,
        b.offset + b.size,
    ));
}

/// A byte of the list is either still in it after the cut or among the bytes cut off.
proof fn lemma_carve_covers(s: Seq<FreeBlock>, i: int, n: int, p: int)
    requires
        free_list::within(s, usize::MAX as int),
        0 <= i < s.len(),
        0 <= n <= s[i].size,
    ensures
        free_list::covered(s, p) <==> free_list::covered(free_list::carve(s, i, n), p) || s[i].offset
            <= p < s[i].offset + n,
{
    let r = free_list::carve(s, i, n);
    assert(s[i].end() <= usize::MAX);
    if free_list::covered(s, p) {
        let k = choose|k: int| 0 <= k < s.len() && (#[trigger] s[k]).covers(p);
        if s[i].size == n {
            if k < i {
                assert(r[k].covers(p));
            } else if k > i {
                assert(r[k - 1].covers(p));
            }
        } else if k != i || p >= s[i].offset + n {
            assert(r[k].covers(p));
        }
    }
    if free_list::covered(r, p) {
        let k = choose|k: int| 0 <= k < r.len() && (#[trigger] r[k]).covers(p);
        let k0 = if s[i].size == n && k >= i { k + 1 } else { k };
        assert(s[k0].covers(p));
    }
    if s[i].offset <= p < s[i].offset + n {
        assert(s[i].covers(p));
    }
}

/// Everything that was handed out or given back starts and ends at a multiple of 64, and so does
/// the space that was never handed out.
pub open spec fn aligned(pool: PoolState, live: Seq<FreeBlock>) -> bool {
    &&& pool.current_offset as int % 64 == 0
    &&& free_list::aligned(pool.free)
    &&& free_list::aligned(live)
}

/// As many allocations are live as were made and not given back.
pub open spec fn counted(pool: PoolState, live: Seq<FreeBlock>) -> bool {
    pool.alloc_count - pool.dealloc_count == live.len()
}

/// Every allocation starts at a multiple of 64: requests, granted or refused, keep everything
/// aligned, and so does giving back.
pub proof fn law_offsets_are_aligned(pool: PoolState, live: Seq<FreeBlock>, size: usize, k: int)
    requires
        consistent(pool, live),
        aligned(pool, live),
        pool.countable(size),
    ensures
        ({
            let (after, offset) = pool.allocate(size);
            match offset {
                Some(o) => o as int % 64 == 0 && aligned(after, live.push(extent(o, size))),
                None => aligned(after, live),
            }
        }),
        0 <= k < live.len() ==> aligned(pool.deallocate(live[k]), live.remove(k)),
{
    let n = free_list::round_up(size as int);
    let i = free_list::fit_index(pool.free, n);
    free_list::lemma_fit_index(pool.free, n);
    assert(n % 64 == 0);
    if i < pool.free.len() {
        assert(pool.free[i].offset as int % 64 == 0);
        free_list::lemma_carve_keeps_aligned(pool.free, i, n);
    }
    if 0 <= k < live.len() {
        lemma_give_back_keeps_aligned(pool, live, k);
    }
}

/// What can happen to a pool.
pub enum PoolEvent {
    /// A request for so many bytes.
    Allocate(usize),
    /// The live allocation with this index is given back.
    GiveBack(int),
}

/// The pool and its live allocations after an event.
pub open spec fn step(pool: PoolState, live: Seq<FreeBlock>, event: PoolEvent) -> (
    PoolState,
    Seq<FreeBlock>,
) {
    match event {
        PoolEvent::Allocate(size) => match pool.allocate(size).1 {
            Some(offset) => (pool.allocate(size).0, live.push(extent(offset, size))),
            None => (pool.allocate(size).0, live),
        },
        PoolEvent::GiveBack(k) => (pool.deallocate(live[k]), live.remove(k)),
    }
}

/// The event can happen: the request and its count do not run over, or the allocation is live.
pub open spec fn possible(pool: PoolState, live: Seq<FreeBlock>, event: PoolEvent) -> bool {
    match event {
        PoolEvent::Allocate(size) => pool.countable(size) && pool.alloc_count < usize::MAX,
        PoolEvent::GiveBack(k) => 0 <= k < live.len(),
    }
}

/// The pool and its live allocations after a history of events.
pub open spec fn run(pool: PoolState, events: Seq<PoolEvent>) -> (PoolState, Seq<FreeBlock>)
    decreases events.len(),
{
    if events.len() == 0 {
        (pool, Seq::empty())
    } else {
        let (before, live) = run(pool, events.drop_last());
        step(before, live, events.last())
    }
}

/// Each event of a history can happen after those before it.
pub open spec fn possible_history(pool: PoolState, events: Seq<PoolEvent>) -> bool
    decreases events.len(),
{
    events.len() > 0 ==> {
        let (before, live) = run(pool, events.drop_last());
        possible_history(pool, events.drop_last()) && possible(before, live, events.last())
    }
}

/// No request of a history was refused.
pub open spec fn all_granted(pool: PoolState, events: Seq<PoolEvent>) -> bool
    decreases events.len(),
{
    events.len() > 0 ==> {
        let before = run(pool, events.drop_last()).0;
        all_granted(pool, events.drop_last()) && (events.last() matches PoolEvent::Allocate(size)
            ==> before.allocate(size).1 is Some)
    }
}

/// No request of a history was for zero bytes.
pub open spec fn no_empty_request(events: Seq<PoolEvent>) -> bool {
    forall|i: int| 0 <= i < events.len() ==> #[trigger] events[i] != PoolEvent::Allocate(0)
}

/// Whatever happens to a new pool: live allocations are apart from each other and from free
/// memory, all of them aligned, and the statistics tell how many there are. As long as no request
/// was refused they also tell how many bytes those occupy, and as long as none was for zero bytes
/// the free list is tidy: once everything was given back it is a single block.
pub proof fn law_statistics_over_any_history(pool: PoolState, events: Seq<PoolEvent>)
    requires
        pool.wf(),
        pool.current_offset == 0,
        pool.free == Seq::<FreeBlock>::empty(),
        pool.alloc_count == 0,
        pool.dealloc_count == 0,
        possible_history(pool, events),
    ensures
        ({
            let (after, live) = run(pool, events);
            &&& consistent(after, live)
            &&& aligned(after, live)
            &&& counted(after, live)
            &&& all_granted(pool, events) ==> {
                &&& after.current_offset - free_list::total_size(after.free)
                    == free_list::total_size(live)
                &&& after.used_bytes() == free_list::total_size(live)
            }
            &&& no_empty_request(events) ==> tidy(after, live)
            &&& all_granted(pool, events) && no_empty_request(events) && live.len() == 0
                && after.current_offset > 0 ==> after.free == seq![
                FreeBlock { offset: 0, size: after.current_offset },
            ]
        }),
    decreases events.len(),
{
    let (after, live) = run(pool, events);
    if events.len() == 0 {
        law_new_pool_is_consistent(pool);
    } else {
        law_statistics_over_any_history(pool, events.drop_last());
        if no_empty_request(events) {
            assert forall|i: int| 0 <= i < events.drop_last().len() implies #[trigger] events.drop_last()[i]
                != PoolEvent::Allocate(0) by {
                assert(events[i] != PoolEvent::Allocate(0));
            }
            assert(events[events.len() - 1] != PoolEvent::Allocate(0));
        }
        let (before, held) = run(pool, events.drop_last());
        match events.last() {
            PoolEvent::Allocate(size) => {
                law_offsets_are_aligned(before, held, size, -1);
                if before.allocate(size).1 is Some {
                    law_allocation_is_exclusive(before, held, size);
                } else {
                    law_refused_request_keeps_live(before, held, size);
                }
            },
            PoolEvent::GiveBack(k) => {
                law_deallocation_frees_its_bytes(before, held, k);
                lemma_give_back_keeps_aligned(before, held, k);
            },
        }
        if all_granted(pool, events) {
            law_bytes_in_use(after, live);
            if no_empty_request(events) && live.len() == 0 && after.current_offset > 0 {
                assert(live =~= Seq::<FreeBlock>::empty());
                law_all_freed_is_one_block(after);
            }
        }
    }
}

proof fn lemma_give_back_keeps_aligned(pool: PoolState, live: Seq<FreeBlock>, k: int)
    requires
        consistent(pool, live),
        aligned(pool, live),
        0 <= k < live.len(),
    ensures
        aligned(pool.deallocate(live[k]), live.remove(k)),
{
    assert(live[k].offset as int % 64 == 0 && live[k].end() <= pool.total());
    free_list::lemma_place_aligned(pool.free, live[k]);
    let rest = live.remove(k);
    assert forall|a: int| 0 <= a < rest.len() implies (#[trigger] rest[a]).offset as int % 64 == 0
        && rest[a].size as int % 64 == 0 by {
        let b = if a < k { a } else { a + 1 };
        assert(live[b].offset as int % 64 == 0);
    }
}

/// Sizes are rounded up to the next multiple of 64, and no further.
pub proof fn law_sizes_are_rounded_to_64(size: usize, r: usize)
    requires
        call_ensures(align_size, (size,), r),
        size + 63 <= usize::MAX,
    ensures
        r as int % 64 == 0,
        size <= r < size + 64,
        free_list::round_up(size as int) == r,
{
}

/// A pool over a registered buffer holds the bytes of the buffer under the handle and the
/// descriptor that were given. Nothing of it is handed out yet.
pub proof fn law_new_pool_is_over_its_buffer(
    buffer: Vec<u8>,
    descriptor: MemoryRegionDescriptor,
    handle: MemoryRegionHandle,
    r: RdmaMemoryPool,
    stats: (usize, usize, usize, usize, usize),
    available: usize,
)
    requires
        call_ensures(RdmaMemoryPool::new, (buffer, descriptor, handle), r),
        call_ensures(RdmaMemoryPool::stats, (&r,), stats),
        call_ensures(RdmaMemoryPool::available_bytes, (&r,), available),
        buffer@.len() <= isize::MAX,
    ensures
        r@.memory == buffer@,
        r@.handle == handle,
        r@.descriptor == descriptor@,
        stats == (0usize, 0usize, 0usize, 0usize, 0usize),
        available == buffer@.len(),
        consistent(r@, Seq::<FreeBlock>::empty()),
{
}

/// The same of a pool without a peer, whose bytes are all zero.
pub proof fn law_mock_pool_is_zeroed(
    size: usize,
    r: RdmaMemoryPool,
    stats: (usize, usize, usize, usize, usize),
    available: usize,
)
    requires
        call_ensures(RdmaMemoryPool::new_mock, (size,), r),
        call_ensures(RdmaMemoryPool::stats, (&r,), stats),
        call_ensures(RdmaMemoryPool::available_bytes, (&r,), available),
        size <= isize::MAX,
    ensures
        r@.memory.len() == size,
        forall|i: int| 0 <= i < size ==> #[trigger] r@.memory[i] == 0,
        r@.descriptor.ptr == r@.base,
        stats == (0usize, 0usize, 0usize, 0usize, 0usize),
        available == size,
        consistent(r@, Seq::<FreeBlock>::empty()),
{
}

/// A request is granted exactly where a recycled block is large enough for it, rounded up to a
/// multiple of 64, or the part of the pool that was never handed out is. What is granted has the
/// size that was asked for and lies in the pool, at its address and under its handle; it comes
/// from the first recycled block that is large enough, and only without one from the part that
/// was never handed out.
pub proof fn law_request_is_granted_where_it_fits(
    pool: &mut RdmaMemoryPool,
    size: usize,
    r: Result<RdmaAllocation, PoolExhausted>,
    first: int,
)
    requires
        call_ensures(RdmaMemoryPool::allocate, (pool, size), r),
        old(pool)@.wf(),
        old(pool)@.countable(size),
        0 <= first <= old(pool)@.free.len(),
        forall|i: int|
            0 <= i < first ==> (#[trigger] old(pool)@.free[i]).size < (size + 63) / 64 * 64,
        first < old(pool)@.free.len() ==> old(pool)@.free[first].size >= (size + 63) / 64 * 64,
    ensures
        ({
            let n = (size + 63) / 64 * 64;
            let before = old(pool)@;
            let after = final(pool)@;
            let recycled = first < before.free.len();
            &&& r is Ok <==> recycled || before.current_offset + n <= before.memory.len()
            &&& r matches Ok(a) ==> {
                &&& a@.size == size
                &&& a@.offset == if recycled {
                    before.free[first].offset
                } else {
                    before.current_offset
                }
                &&& a@.ptr == before.base + a@.offset
                &&& a@.handle == before.handle
                &&& a@.offset + n <= before.memory.len()
                &&& before.alloc_count < usize::MAX ==> after.alloc_count == before.alloc_count + 1
            }
            &&& r matches Err(e) ==> {
                &&& e.total == before.memory.len()
                &&& e.requested == n
                &&& e.current_offset == before.current_offset
                &&& after.alloc_count == before.alloc_count
            }
            &&& after.current_offset == if recycled {
                before.current_offset as int
            } else {
                before.current_offset + n
            }
            &&& !recycled ==> after.free == before.free
            &&& recycled ==> free_list::total_size(after.free) == free_list::total_size(
                before.free,
            ) - n
            &&& after.memory == before.memory
            &&& after.base == before.base
            &&& after.handle == before.handle
            &&& after.descriptor == before.descriptor
            &&& after.dealloc_count == before.dealloc_count
        }),
{
    let n = (size + 63) / 64 * 64;
    let before = old(pool)@;
    free_list::lemma_fit_index(before.free, n);
    let i = free_list::fit_index(before.free, n);
    if i < first {
        assert(before.free[i].size < n);
    }
    if first < i {
        assert(before.free[first].size < n);
    }
    if first < before.free.len() {
        free_list::lemma_carve_total_size(before.free, first, n);
        assert(before.free[first].end() <= before.total());
    }
}

/// What is granted shares no byte with anything that is live, nor with free memory, and is live
/// from then on.
pub proof fn law_granted_memory_is_exclusive(
    pool: &mut RdmaMemoryPool,
    live: Seq<FreeBlock>,
    size: usize,
    r: Result<RdmaAllocation, PoolExhausted>,
    p: int,
)
    requires
        call_ensures(RdmaMemoryPool::allocate, (pool, size), r),
        consistent(old(pool)@, live),
        old(pool)@.countable(size),
    ensures
        r matches Ok(a) ==> {
            let b = FreeBlock { offset: a@.offset, size: ((size + 63) / 64 * 64) as usize };
            &&& consistent(final(pool)@, live.push(b))
            &&& a@.offset <= p < a@.offset + size ==> {
                &&& forall|i: int| 0 <= i < live.len() ==> !(#[trigger] live[i]).covers(p)
                &&& !free_list::covered(final(pool)@.free, p)
            }
            &&& old(pool)@.current_offset as int % 64 == 0 && free_list::aligned(old(pool)@.free)
                ==> a@.offset as int % 64 == 0
        },
        r is Err ==> consistent(final(pool)@, live) && final(pool)@.free == old(pool)@.free,
{
    if let Ok(a) = r {
        let b = extent(a@.offset, size);
        law_allocation_is_exclusive(old(pool)@, live, size);
        let all = live.push(b);
        if a@.offset <= p < a@.offset + size {
            assert(b.covers(p));
            assert forall|i: int| 0 <= i < live.len() implies !(#[trigger] live[i]).covers(p) by {
                assert(live[i].apart_from(b));
            }
            if free_list::covered(final(pool)@.free, p) {
                let j = choose|j: int|
                    0 <= j < final(pool)@.free.len() && (#[trigger] final(pool)@.free[j]).covers(p);
                assert(all[live.len() as int].apart_from(final(pool)@.free[j]));
            }
        }
        free_list::lemma_fit_index(old(pool)@.free, free_list::round_up(size as int));
    } else {
        law_refused_request_keeps_live(old(pool)@, live, size);
    }
}

/// Giving an allocation back makes its bytes free, rounded up to a multiple of 64, and no others;
/// nothing else of the pool changes, and one deallocation more is counted.
pub proof fn law_given_back_bytes_are_free(
    pool: &mut RdmaMemoryPool,
    allocation: RdmaAllocation,
    p: int,
)
    requires
        call_ensures(RdmaMemoryPool::deallocate, (pool, allocation), ()),
        old(pool)@.wf(),
        allocation@.belongs_to(old(pool)@),
    ensures
        ({
            let n = (allocation@.size + 63) / 64 * 64;
            let before = old(pool)@;
            let after = final(pool)@;
            &&& free_list::covered(after.free, p) <==> free_list::covered(before.free, p)
                || allocation@.offset <= p < allocation@.offset + n
            &&& free_list::total_size(after.free) == free_list::total_size(before.free) + n
            &&& before.dealloc_count < usize::MAX ==> after.dealloc_count == before.dealloc_count
                + 1
            &&& after.alloc_count == before.alloc_count
            &&& after.current_offset == before.current_offset
            &&& after.memory == before.memory
            &&& after.base == before.base
            &&& after.handle == before.handle
            &&& after.descriptor == before.descriptor
        }),
{
    let b = allocation@.extent();
    free_list::lemma_place_total_size(old(pool)@.free, b);
    free_list::lemma_place_covers(old(pool)@.free, b, p);
}

/// Memory that was given back serves the next request that is no larger, without growing into
/// the part that was never handed out.
pub proof fn law_given_back_memory_serves_again(
    pool: &mut RdmaMemoryPool,
    allocation: RdmaAllocation,
    next: &mut RdmaMemoryPool,
    size: usize,
    r: Result<RdmaAllocation, PoolExhausted>,
)
    requires
        call_ensures(RdmaMemoryPool::deallocate, (pool, allocation), ()),
        old(pool)@.wf(),
        allocation@.belongs_to(old(pool)@),
        *final(pool) == *old(next),
        call_ensures(RdmaMemoryPool::allocate, (next, size), r),
        size <= allocation@.size,
    ensures
        r is Ok,
        final(next)@.current_offset == old(pool)@.current_offset,
{
    law_freed_memory_is_reused(old(pool)@, allocation@.extent(), size);
}

/// The bytes in use, told by the pool, are those of the live allocations, and with the bytes that
/// are available they make up the pool, as long as it was not asked for more than it has.
pub proof fn law_told_bytes_add_up(
    pool: RdmaMemoryPool,
    live: Seq<FreeBlock>,
    used: usize,
    available: usize,
    stats: (usize, usize, usize, usize, usize),
)
    requires
        call_ensures(RdmaMemoryPool::used_bytes, (&pool,), used),
        call_ensures(RdmaMemoryPool::available_bytes, (&pool,), available),
        call_ensures(RdmaMemoryPool::stats, (&pool,), stats),
        consistent(pool@, live),
        accounted(pool@, live),
        counted(pool@, live),
    ensures
        used == free_list::total_size(live),
        pool@.current_offset <= pool@.memory.len() ==> used + available == pool@.memory.len(),
        stats.0 == used + stats.4,
        stats.1 - stats.2 == live.len(),
        stats.3 == pool@.free.len(),
{
    law_bytes_in_use(pool@, live);
}

/// The bytes of a list of blocks are those of its front and its back, and of one block its size.
pub proof fn law_free_bytes_add_up(
    front: Vec<FreeBlock>,
    back: Vec<FreeBlock>,
    list: Vec<FreeBlock>,
    one: Vec<FreeBlock>,
    a: usize,
    b: usize,
    sum: usize,
    single: usize,
)
    requires
        call_ensures(free_bytes, (&front,), a),
        call_ensures(free_bytes, (&back,), b),
        call_ensures(free_bytes, (&list,), sum),
        call_ensures(free_bytes, (&one,), single),
        list@ == front@ + back@,
        one@.len() == 1,
    ensures
        sum == a + b,
        single == one@[0].size,
{
    free_list::lemma_total_size_add(front@, back@);
    assert(one@.drop_last() =~= Seq::<FreeBlock>::empty());
    assert(free_list::total_size(one@) == free_list::total_size(one@.drop_last()) + one@[0].size);
}

/// Putting a block into a list with gaps between its blocks, which it shares no byte with, leaves
/// a list with gaps: blocks that touch are one. Its bytes are those that were there and those of
/// the block.
pub proof fn law_touching_blocks_become_one(list: &mut Vec<FreeBlock>, block: FreeBlock, p: int)
    requires
        call_ensures(insert_free_block, (list, block), ()),
        free_list::within(old(list)@, usize::MAX as int),
        block.end() <= usize::MAX,
        block.size > 0,
        forall|i: int| 0 <= i < old(list)@.len() ==> (#[trigger] old(list)@[i]).size > 0,
        forall|i: int, j: int|
            0 <= i < j < old(list)@.len() ==> (#[trigger] old(list)@[i]).offset + old(
                list)@[i].size < (#[trigger] old(list)@[j]).offset,
        forall|i: int|
            0 <= i < old(list)@.len() ==> block.end() <= (#[trigger] old(list)@[i]).offset || old(
                list)@[i].end() <= block.offset,
    ensures
        forall|i: int, j: int|
            0 <= i < j < final(list)@.len() ==> (#[trigger] final(list)@[i]).offset + final(
                list)@[i].size < (#[trigger] final(list)@[j]).offset,
        free_list::covered(final(list)@, p) <==> free_list::covered(old(list)@, p) || block.offset
            <= p < block.offset + block.size,
        free_list::total_size(final(list)@) == free_list::total_size(old(list)@) + block.size,
{
    assert forall|i: int| 0 <= i < old(list)@.len() implies block.apart_from(
        #[trigger] old(list)@[i],
    ) by {
        assert(block.end() <= old(list)@[i].offset || old(list)@[i].end() <= block.offset);
    }
    assert(free_list::separated(old(list)@)) by {
        assert forall|i: int, j: int| 0 <= i < j < old(list)@.len() implies (
        #[trigger] old(list)@[i]).end() < (#[trigger] old(list)@[j]).offset by {
            assert(old(list)@[i].offset + old(list)@[i].size < old(list)@[j].offset);
        }
    }
    free_list::lemma_place_separated(old(list)@, block);
    free_list::lemma_place_total_size(old(list)@, block);
    free_list::lemma_place_covers(old(list)@, block, p);
    assert forall|i: int, j: int| 0 <= i < j < final(list)@.len() implies (
    #[trigger] final(list)@[i]).offset + final(list)@[i].size < (
    #[trigger] final(list)@[j]).offset by {
        assert(final(list)@[i].end() < final(list)@[j].offset);
    }
}

/// Whatever the list and the block, no byte is lost or won: each is in the list afterwards exactly
/// where it was before or is in the block, and the sizes add up. Blocks that share bytes are
/// counted apart.
pub proof fn law_no_byte_is_lost(list: &mut Vec<FreeBlock>, block: FreeBlock, p: int)
    requires
        call_ensures(insert_free_block, (list, block), ()),
        free_list::within(old(list)@, usize::MAX as int),
        block.end() <= usize::MAX,
    ensures
        free_list::covered(final(list)@, p) <==> free_list::covered(old(list)@, p) || block.offset
            <= p < block.offset + block.size,
        free_list::total_size(final(list)@) == free_list::total_size(old(list)@) + block.size,
{
    free_list::lemma_place_total_size(old(list)@, block);
    free_list::lemma_place_covers(old(list)@, block, p);
}

/// Bytes are taken from the front of the first block that has enough, and the other blocks stay
/// as they are; with none, nothing is taken. A block that is used up leaves the list.
pub proof fn law_first_fit_is_cut(
    list: &mut Vec<FreeBlock>,
    size: usize,
    r: Option<usize>,
    first: int,
)
    requires
        call_ensures(take_first_fit, (list, size), r),
        free_list::within(old(list)@, usize::MAX as int),
        0 <= first <= old(list)@.len(),
        forall|i: int| 0 <= i < first ==> (#[trigger] old(list)@[i]).size < size,
        first < old(list)@.len() ==> old(list)@[first].size >= size,
    ensures
        ({
            let before = old(list)@;
            let after = final(list)@;
            &&& first == before.len() ==> r is None && after == before
            &&& first < before.len() ==> {
                &&& r == Some(before[first].offset)
                &&& before[first].size == size ==> after == before.remove(first)
                &&& before[first].size > size ==> {
                    &&& after.len() == before.len()
                    &&& after[first].offset == before[first].offset + size
                    &&& after[first].size == before[first].size - size
                    &&& forall|i: int|
                        0 <= i < before.len() && i != first ==> #[trigger] after[i] == before[i]
                }
            }
        }),
{
    let before = old(list)@;
    free_list::lemma_fit_index(before, size as int);
    let i = free_list::fit_index(before, size as int);
    if i < first {
        assert(before[i].size < size);
    }
    if first < i {
        assert(before[first].size < size);
    }
    if first < before.len() {
        assert(before[first].end() <= usize::MAX);
    }
}

/// What is written to an allocation is what is read from it, and what is read from an allocation
/// that shares no byte with it is what was there before. Nothing but the bytes changes.
pub proof fn law_written_bytes_are_read(
    a: RdmaAllocation,
    b: RdmaAllocation,
    before: RdmaMemoryPool,
    pool: &mut RdmaMemoryPool,
    written: &mut [u8],
    read: &[u8],
    other: &[u8],
    unchanged: &[u8],
)
    requires
        *old(pool) == before,
        call_ensures(RdmaAllocation::as_mut_slice, (&a, pool), written),
        call_ensures(RdmaAllocation::as_slice, (&a, &*final(pool)), read),
        call_ensures(RdmaAllocation::as_slice, (&b, &before), other),
        call_ensures(RdmaAllocation::as_slice, (&b, &*final(pool)), unchanged),
        a@.belongs_to(before@),
        b@.belongs_to(before@),
        final(written)@.len() == a@.size,
        a@.offset + a@.size <= b@.offset || b@.offset + b@.size <= a@.offset,
    ensures
        old(written)@ == before@.memory.subrange(a@.offset as int, a@.offset + a@.size),
        read@ == final(written)@,
        unchanged@ == other@,
        final(pool)@.memory.len() == before@.memory.len(),
        final(pool)@ == (PoolState { memory: final(pool)@.memory, ..before@ }),
{
    assert(read@ =~= final(written)@);
    assert(unchanged@ =~= other@);
}

/// An allocation tells its own values, and the pool its descriptor.
pub proof fn law_allocation_tells_its_place(
    a: RdmaAllocation,
    pool: RdmaMemoryPool,
    ptr: u64,
    size: usize,
    offset: usize,
    handle: MemoryRegionHandle,
    descriptor: MemoryRegionDescriptor,
)
    requires
        call_ensures(RdmaAllocation::ptr, (&a,), ptr),
        call_ensures(RdmaAllocation::size, (&a,), size),
        call_ensures(RdmaAllocation::offset, (&a,), offset),
        call_ensures(RdmaAllocation::handle, (&a,), handle),
        call_ensures(RdmaMemoryPool::descriptor, (&pool,), &descriptor),
    ensures
        ptr == a@.ptr,
        size == a@.size,
        offset == a@.offset,
        handle == a@.handle,
        descriptor@ == pool@.descriptor,
{
}

/// A reset forgets how far the pool has grown, and nothing else.
pub proof fn law_reset_forgets_growth_only(pool: &mut RdmaMemoryPool)
    requires
        call_ensures(RdmaMemoryPool::reset, (pool,), ()),
    ensures
        final(pool)@.current_offset == 0,
        final(pool)@.free == old(pool)@.free,
        final(pool)@.memory == old(pool)@.memory,
        final(pool)@.base == old(pool)@.base,
        final(pool)@.descriptor == old(pool)@.descriptor,
        final(pool)@.handle == old(pool)@.handle,
        final(pool)@.alloc_count == old(pool)@.alloc_count,
        final(pool)@.dealloc_count == old(pool)@.dealloc_count,
{
}

/// A pool can be asked for any size, as long as its rounding and the count of what was asked for
/// do not run over, and takes back whatever it granted; it can be read and told of at any time.
pub proof fn law_pool_can_always_be_asked(
    pool: &mut RdmaMemoryPool,
    size: usize,
    live: Seq<FreeBlock>,
    a: RdmaAllocation,
)
    requires
        consistent(old(pool)@, live),
        old(pool)@.current_offset + size + 63 <= usize::MAX,
        a@.ptr == old(pool)@.base + a@.offset,
        a@.handle == old(pool)@.handle,
        a@.size + 63 <= usize::MAX,
        a@.offset + (a@.size + 63) / 64 * 64 <= old(pool)@.memory.len(),
    ensures
        call_requires(RdmaMemoryPool::allocate, (pool, size)),
        call_requires(RdmaMemoryPool::deallocate, (pool, a)),
        call_requires(RdmaAllocation::as_slice, (&a, &*old(pool))),
        call_requires(RdmaAllocation::as_mut_slice, (&a, pool)),
        call_requires(RdmaMemoryPool::stats, (&*old(pool),)),
        call_requires(RdmaMemoryPool::used_bytes, (&*old(pool),)),
        call_requires(RdmaMemoryPool::available_bytes, (&*old(pool),)),
        call_requires(RdmaMemoryPool::reset, (pool,)),
{
    law_statistics_do_not_run_over(old(pool)@, live);
}

/// What a pool tells of itself, whatever happened to it: bytes in use are those it has grown by
/// less the free ones, and no fewer than none; available are those it has not grown into and the
/// free ones.
pub proof fn law_pool_tells_its_numbers(
    pool: RdmaMemoryPool,
    used: usize,
    available: usize,
    stats: (usize, usize, usize, usize, usize),
)
    requires
        call_ensures(RdmaMemoryPool::used_bytes, (&pool,), used),
        call_ensures(RdmaMemoryPool::available_bytes, (&pool,), available),
        call_ensures(RdmaMemoryPool::stats, (&pool,), stats),
    ensures
        stats.0 == pool@.current_offset,
        stats.1 == pool@.alloc_count,
        stats.2 == pool@.dealloc_count,
        stats.3 == pool@.free.len(),
        stats.4 == free_list::total_size(pool@.free),
        stats.0 >= stats.4 ==> used == stats.0 - stats.4,
        stats.0 < stats.4 ==> used == 0,
        pool@.memory.len() >= stats.0 ==> available == pool@.memory.len() - stats.0 + stats.4,
        pool@.memory.len() < stats.0 ==> available == stats.4,
{
}

} // verus!
