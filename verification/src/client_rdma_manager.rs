//! Client side of RDMA: receive buffers.

use crate::free_list;
use crate::memory_pool;
use crate::memory_pool::{RdmaAllocation, RdmaMemoryPool};
use crate::shared_handle::{arc_clone, arc_into_inner};
use crate::text::join;
use crate::types;
use crate::types::{clone_pairs, MemoryRegionDescriptor, MemoryRegionHandle};
use std::sync::Arc;
use vstd::prelude::*;

verus! {

/// Manager of a client's RDMA memory.
#[derive(Debug)]
pub struct ClientRdmaManager {
    memory_pool: RdmaMemoryPool,
}

impl View for ClientRdmaManager {
    type V = memory_pool::PoolState;

    closed spec fn view(&self) -> memory_pool::PoolState {
        self.memory_pool@
    }
}

impl ClientRdmaManager {
    /// The number of domains that the engine came up with, or why it did not.
    pub fn engine_created(answer: Result<usize, String>) -> (r: Result<usize, String>)
        ensures
            match answer {
                Ok(n) => r == Ok::<usize, String>(n),
                Err(e) => r is Err && r->Err_0@ == "Failed to create client TransferEngine: "@ + e@,
            },
    {
        match answer {
            Ok(n) => Ok(n),
            Err(e) => Err(join("Failed to create client TransferEngine: ", e.as_str())),
        }
    }

    /// A manager over the buffer that was offered to the engine, given the engine's answer.
    pub fn new(
        buffer: Vec<u8>,
        answer: Result<(MemoryRegionHandle, MemoryRegionDescriptor), String>,
    ) -> (r: Result<Self, String>)
        requires
            buffer@.len() <= isize::MAX,
        ensures
            match answer {
                Ok(region) => {
                    &&& r is Ok
                    &&& r->Ok_0@.wf()
                    &&& r->Ok_0@.base > 0
                    &&& r->Ok_0@.memory == buffer@
                    &&& r->Ok_0@.current_offset == 0
                    &&& r->Ok_0@.free == Seq::<free_list::FreeBlock>::empty()
                    &&& r->Ok_0@.descriptor == region.1@
                    &&& r->Ok_0@.handle == region.0
                    &&& r->Ok_0@.alloc_count == 0
                    &&& r->Ok_0@.dealloc_count == 0
                },
                Err(e) => r is Err && r->Err_0@ == "Failed to register client RDMA memory: "@ + e@,
            },
    {
        match answer {
            Ok((handle, descriptor)) => Ok(
                ClientRdmaManager { memory_pool: RdmaMemoryPool::new(buffer, descriptor, handle) },
            ),
            Err(e) => Err(join("Failed to register client RDMA memory: ", e.as_str())),
        }
    }

    /// The client's memory pool.
    pub fn memory_pool(&self) -> (r: &RdmaMemoryPool)
        ensures
            r@ == self@,
    {
        &self.memory_pool
    }

    /// The client's memory pool, to allocate from.
    pub fn memory_pool_mut(&mut self) -> (r: &mut RdmaMemoryPool)
        ensures
            r@ == old(self)@,
            final(self)@ == final(r)@,
    {
        &mut self.memory_pool
    }

    /// RDMA is available: it is wherever there is a manager.
    pub fn is_available(&self) -> (r: bool)
        ensures
            r,
    {
        true
    }

    /// Usage statistics of the memory pool.
    pub fn pool_stats(&self) -> (r: (usize, usize, usize, usize, usize))
        requires
            free_list::total_size(self@.free) <= usize::MAX,
        ensures
            r.0 == self@.current_offset,
            r.1 == self@.alloc_count,
            r.2 == self@.dealloc_count,
            r.3 == self@.free.len(),
            r.4 == free_list::total_size(self@.free),
    {
        self.memory_pool.stats()
    }
}

/// The pool after a handle to an allocation of the given extent was given up: it gets the memory
/// back where the handle was the last one held.
pub open spec fn hold_given_up(
    pool: memory_pool::PoolState,
    extent: free_list::FreeBlock,
    was_last: bool,
) -> memory_pool::PoolState {
    if was_last {
        pool.deallocate(extent)
    } else {
        pool
    }
}

/// Gives up a hold on an allocation, given the allocation where the hold was the last one: the
/// pool then gets the memory back.
pub fn give_up(last: Option<RdmaAllocation>, pool: &mut RdmaMemoryPool) -> (r: bool)
    requires
        old(pool)@.wf(),
        last matches Some(a) ==> a@.belongs_to(old(pool)@),
    ensures
        final(pool)@.wf(),
        r == last is Some,
        final(pool)@ == match last {
            Some(a) => hold_given_up(old(pool)@, a@.extent(), true),
            None => old(pool)@,
        },
{
    match last {
        Some(allocation) => {
            pool.deallocate(allocation);
            true
        },
        None => false,
    }
}

/// Who holds the allocation of a buffer.
#[derive(Debug)]
enum Hold {
    /// The buffer alone.
    Sole(RdmaAllocation),
    /// The buffer, and others that a handle was given to.
    Shared(Arc<RdmaAllocation>),
}

impl Hold {
    spec fn held(self) -> memory_pool::AllocationView {
        match self {
            Hold::Sole(a) => a@,
            Hold::Shared(a) => (*a)@,
        }
    }

    fn allocation(&self) -> (r: &RdmaAllocation)
        ensures
            r@ == self.held(),
    {
        match self {
            Hold::Sole(a) => a,
            Hold::Shared(a) => a,
        }
    }
}

/// Receive buffer of a read.
#[derive(Debug)]
pub struct RdmaBuffer {
    hold: Hold,
}

impl View for RdmaBuffer {
    type V = memory_pool::AllocationView;

    closed spec fn view(&self) -> memory_pool::AllocationView {
        self.hold.held()
    }
}

impl RdmaBuffer {
    /// No handle to the allocation was given to others.
    pub closed spec fn is_sole(self) -> bool {
        self.hold is Sole
    }

    /// Allocates a buffer of `size` bytes.
    pub fn allocate(pool: &mut RdmaMemoryPool, size: usize) -> (r: Result<Self, String>)
        requires
            old(pool)@.wf(),
            old(pool)@.countable(size),
        ensures
            final(pool)@.wf(),
            final(pool)@ == old(pool)@.allocate(size).0,
            match r {
                Ok(b) => {
                    &&& old(pool)@.allocate(size).1 == Some(b@.offset)
                    &&& b@.size == size
                    &&& b@.belongs_to(final(pool)@)
                    &&& b.is_sole()
                },
                Err(e) => {
                    &&& old(pool)@.allocate(size).1 is None
                    &&& e@ == "Failed to allocate RDMA buffer: "@ + (memory_pool::PoolExhausted {
                        total: old(pool)@.total() as usize,
                        requested: free_list::round_up(size as int) as usize,
                        current_offset: old(pool)@.current_offset,
                    }).text()
                },
            },
    {
        match pool.allocate(size) {
            Ok(allocation) => Ok(RdmaBuffer { hold: Hold::Sole(allocation) }),
            Err(e) => Err(join("Failed to allocate RDMA buffer: ", e.to_string().as_str())),
        }
    }

    /// The buffer as a remote peer addresses it: its own address, under the keys of the pool.
    pub fn descriptor(&self, pool: &RdmaMemoryPool) -> (r: MemoryRegionDescriptor)
        ensures
            r@ == (types::DescriptorView {
                ptr: self@.ptr,
                addr_rkey_list: pool@.descriptor.addr_rkey_list,
            }),
    {
        MemoryRegionDescriptor {
            ptr: self.hold.allocation().ptr(),
            addr_rkey_list: clone_pairs(&pool.descriptor().addr_rkey_list),
        }
    }

    /// What the buffer holds.
    pub fn as_slice<'a>(&self, pool: &'a RdmaMemoryPool) -> (r: &'a [u8])
        requires
            pool@.wf(),
            self@.belongs_to(pool@),
        ensures
            r@ == pool@.memory.subrange(self@.offset as int, self@.offset + self@.size),
    {
        self.hold.allocation().as_slice(pool)
    }

    /// Size of the buffer.
    pub fn size(&self) -> (r: usize)
        ensures
            r == self@.size,
    {
        self.hold.allocation().size()
    }

    /// Another handle to the allocation, which keeps it from going back to the pool.
    pub fn clone_allocation(&mut self) -> (r: Arc<RdmaAllocation>)
        ensures
            (*r)@ == old(self)@,
            final(self)@ == old(self)@,
            !final(self).is_sole(),
    {
        let mut hold = Hold::Sole(RdmaAllocation::nothing());
        std::mem::swap(&mut hold, &mut self.hold);
        let shared = match hold {
            Hold::Sole(a) => Arc::new(a),
            Hold::Shared(a) => a,
        };
        let handle = arc_clone(&shared);
        self.hold = Hold::Shared(shared);
        handle
    }

    /// Gives the buffer up. The pool gets the memory back unless another handle keeps it, and so
    /// always where no handle was given to others. Returns whether it did.
    ///
    /// Whether a handle that was given to others is still held depends on those others, which
    /// stays unsaid.
    pub fn release(self, pool: &mut RdmaMemoryPool) -> (r: bool)
        requires
            old(pool)@.wf(),
            self@.belongs_to(old(pool)@),
        ensures
            final(pool)@.wf(),
            self.is_sole() ==> r,
            final(pool)@ == hold_given_up(old(pool)@, self@.extent(), r),
    {
        let last = match self.hold {
            Hold::Sole(a) => Some(a),
            Hold::Shared(a) => arc_into_inner(a),
        };
        give_up(last, pool)
    }
}

/// The pool after the handles to an allocation of the given extent were given up one after the
/// other, where `last` says of each whether it was the last one held.
pub open spec fn given_up(
    pool: memory_pool::PoolState,
    extent: free_list::FreeBlock,
    last: Seq<bool>,
) -> memory_pool::PoolState
    decreases last.len(),
{
    if last.len() == 0 {
        pool
    } else {
        hold_given_up(given_up(pool, extent, last.drop_last()), extent, last.last())
    }
}

/// Memory stays allocated as long as any handle to it is held, and goes back once, with the last
/// one: after all but the last of `n` handles the pool is as it was, and after the last it has
/// counted one deallocation more.
pub proof fn law_memory_goes_back_with_last_handle(
    pool: memory_pool::PoolState,
    extent: free_list::FreeBlock,
    n: nat,
    k: nat,
)
    requires
        0 < n,
        k < n,
    ensures
        ({
            let last = Seq::new(n, |i: int| i == n - 1);
            &&& given_up(pool, extent, last.take(k as int)) == pool
            &&& given_up(pool, extent, last) == pool.deallocate(extent)
            &&& given_up(pool, extent, last).dealloc_count == crate::counter::next_usize(
                pool.dealloc_count,
            )
        }),
{
    let last = Seq::new(n, |i: int| i == n - 1);
    lemma_kept(pool, extent, last.take(k as int));
    lemma_kept(pool, extent, last.drop_last());
}

proof fn lemma_kept(
    pool: memory_pool::PoolState,
    extent: free_list::FreeBlock,
    last: Seq<bool>,
)
    requires
        forall|i: int| 0 <= i < last.len() ==> !(#[trigger] last[i]),
    ensures
        given_up(pool, extent, last) == pool,
    decreases last.len(),
{
    if last.len() > 0 {
        lemma_kept(pool, extent, last.drop_last());
    }
}

/// A manager is made exactly where the memory was registered: over the buffer that was offered,
/// with the handle and the descriptor that the engine gave. An engine that failed is told with its
/// reason.
pub proof fn law_manager_is_over_registered_memory(
    buffer: Vec<u8>,
    answer: Result<(MemoryRegionHandle, MemoryRegionDescriptor), String>,
    r: Result<ClientRdmaManager, String>,
    created: Result<usize, String>,
    domains: Result<usize, String>,
)
    requires
        call_ensures(ClientRdmaManager::new, (buffer, answer), r),
        call_ensures(ClientRdmaManager::engine_created, (created,), domains),
        buffer@.len() <= isize::MAX,
    ensures
        r is Ok <==> answer is Ok,
        r matches Ok(m) ==> {
            &&& m@.memory == buffer@
            &&& m@.handle == answer->Ok_0.0
            &&& m@.descriptor == answer->Ok_0.1@
            &&& m@.current_offset == 0 && m@.free.len() == 0
            &&& m@.alloc_count == 0 && m@.dealloc_count == 0
        },
        r matches Err(e) ==> e@.len() >= answer->Err_0@.len() && e@.skip(
            e@.len() - answer->Err_0@.len(),
        ) == answer->Err_0@,
        domains is Ok <==> created is Ok,
        domains matches Ok(n) ==> n == created->Ok_0,
        domains matches Err(e) ==> e@.len() >= created->Err_0@.len() && e@.skip(
            e@.len() - created->Err_0@.len(),
        ) == created->Err_0@,
{
    if let Err(e) = answer {
        assert(("Failed to register client RDMA memory: "@ + e@).skip(
            "Failed to register client RDMA memory: "@.len() as int,
        ) =~= e@);
    }
    if let Err(e) = created {
        assert(("Failed to create client TransferEngine: "@ + e@).skip(
            "Failed to create client TransferEngine: "@.len() as int,
        ) =~= e@);
    }
}

/// A manager is always available, shows its pool, and tells the pool's statistics.
pub proof fn law_manager_shows_its_pool(
    m: ClientRdmaManager,
    available: bool,
    pool: RdmaMemoryPool,
    stats: (usize, usize, usize, usize, usize),
    own: (usize, usize, usize, usize, usize),
)
    requires
        call_ensures(ClientRdmaManager::is_available, (&m,), available),
        call_ensures(ClientRdmaManager::memory_pool, (&m,), &pool),
        call_ensures(ClientRdmaManager::pool_stats, (&m,), stats),
        call_ensures(RdmaMemoryPool::stats, (&pool,), own),
    ensures
        available,
        pool@ == m@,
        stats == own,
{
}

/// A buffer is had exactly where the pool has room for it, with the size that was asked for, and
/// nobody else holds it.
pub proof fn law_buffer_is_had_where_it_fits(
    pool: &mut RdmaMemoryPool,
    size: usize,
    r: Result<RdmaBuffer, String>,
)
    requires
        call_ensures(RdmaBuffer::allocate, (pool, size), r),
        old(pool)@.wf(),
        old(pool)@.countable(size),
    ensures
        ({
            let n = (size + 63) / 64 * 64;
            &&& r is Ok <==> old(pool)@.current_offset + n <= old(pool)@.memory.len() || exists|
                i: int,
            |
                0 <= i < old(pool)@.free.len() && (#[trigger] old(pool)@.free[i]).size >= n
            &&& r matches Ok(b) ==> {
                &&& b@.size == size
                &&& b@.ptr == old(pool)@.base + b@.offset
                &&& b@.offset + n <= old(pool)@.memory.len()
                &&& b.is_sole()
            }
            &&& final(pool)@.memory == old(pool)@.memory
        }),
{
    crate::pool_laws::law_refused_exactly_when_full(old(pool)@, size);
}

/// A peer is told the address of the buffer, and the pool's keys for each of its domains; what
/// the buffer holds are the bytes of the pool at its place.
pub proof fn law_buffer_is_addressed_by_itself(
    b: RdmaBuffer,
    pool: RdmaMemoryPool,
    descriptor: MemoryRegionDescriptor,
    bytes: &[u8],
    size: usize,
)
    requires
        call_ensures(RdmaBuffer::descriptor, (&b, &pool), descriptor),
        call_ensures(RdmaBuffer::as_slice, (&b, &pool), bytes),
        call_ensures(RdmaBuffer::size, (&b,), size),
        b@.belongs_to(pool@),
    ensures
        descriptor.ptr == b@.ptr,
        descriptor@.addr_rkey_list == pool@.descriptor.addr_rkey_list,
        size == b@.size,
        bytes@.len() == size,
        forall|i: int| 0 <= i < size ==> #[trigger] bytes@[i] == pool@.memory[b@.offset + i],
{
    assert(descriptor@.ptr == descriptor.ptr);
}

/// Giving a handle away leaves the buffer as it is, but for others holding it too.
pub proof fn law_handle_is_of_the_same_memory(b: &mut RdmaBuffer, r: Arc<RdmaAllocation>)
    requires
        call_ensures(RdmaBuffer::clone_allocation, (b,), r),
    ensures
        (*r)@ == old(b)@,
        final(b)@ == old(b)@,
        !final(b).is_sole(),
{
}

/// A buffer that nobody else holds goes back to the pool when it is released; where it does, its
/// bytes are free again and one deallocation more is counted, and where it does not the pool stays
/// as it was.
pub proof fn law_released_buffer_is_free(
    b: RdmaBuffer,
    pool: &mut RdmaMemoryPool,
    r: bool,
    last: Option<RdmaAllocation>,
    other: &mut RdmaMemoryPool,
    q: bool,
)
    requires
        call_ensures(RdmaBuffer::release, (b, pool), r),
        b@.belongs_to(old(pool)@),
        old(pool)@.wf(),
        old(pool)@.dealloc_count < usize::MAX,
        call_ensures(give_up, (last, other), q),
        last matches Some(a) ==> a@.belongs_to(old(other)@),
        old(other)@.wf(),
        old(other)@.dealloc_count < usize::MAX,
    ensures
        b.is_sole() ==> r,
        !r ==> final(pool)@ == old(pool)@,
        r ==> {
            &&& final(pool)@.dealloc_count == old(pool)@.dealloc_count + 1
            &&& free_list::total_size(final(pool)@.free) == free_list::total_size(old(pool)@.free)
                + (b@.size + 63) / 64 * 64
        },
        q <==> last is Some,
        last is None ==> final(other)@ == old(other)@,
        last matches Some(a) ==> {
            &&& final(other)@.dealloc_count == old(other)@.dealloc_count + 1
            &&& free_list::total_size(final(other)@.free) == free_list::total_size(
                old(other)@.free,
            ) + (a@.size + 63) / 64 * 64
        },
{
    free_list::lemma_place_total_size(old(pool)@.free, b@.extent());
    if let Some(a) = last {
        free_list::lemma_place_total_size(old(other)@.free, a@.extent());
    }
}

/// The pool that a manager hands out to allocate from is its own.
pub proof fn law_managed_pool_is_the_managers(
    m: &mut ClientRdmaManager,
    pool: &mut RdmaMemoryPool,
)
    requires
        call_ensures(ClientRdmaManager::memory_pool_mut, (m,), pool),
    ensures
        old(pool)@ == old(m)@,
        final(m)@ == final(pool)@,
{
}

} // verus!
