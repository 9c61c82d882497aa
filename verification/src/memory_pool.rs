//! RDMA memory pool with a free list allocator.
//!
//! The pool hands out stretches of one registered buffer. Memory that was given back is
//! recycled, first fit; only when no recycled block is large enough does the pool grow into
//! the part of the buffer that was never handed out.

use crate::counter;
use crate::counter::count_usize;
use crate::free_list;
use crate::free_list::{align_size, free_bytes, insert_free_block, take_first_fit, FreeBlock};
use crate::text;
use crate::text::push_decimal;
use crate::types::{AddressRkeyPair, MemoryRegionDescriptor, MemoryRegionHandle};
use vstd::prelude::*;
use vstd::string::*;

verus! {

/// The pool has no room for a request.
#[derive(Debug, Clone, Copy, PartialEq, Eq, Structural)]
pub struct PoolExhausted {
    /// Size of the pool.
    pub total: usize,
    /// Bytes asked for, rounded up.
    pub requested: usize,
    /// Where unallocated space started.
    pub current_offset: usize,
}

impl PoolExhausted {
    pub open spec fn text(self) -> Seq<char> {
        "RDMA memory pool exhausted (total: "@ + text::decimal(self.total as nat)
            + ", requested: "@ + text::decimal(self.requested as nat)
            + ", current_offset: "@ + text::decimal(self.current_offset as nat) + ")"@
    }

    pub fn to_string(&self) -> (r: String)
        ensures
            r@ == self.text(),
    {
        let mut out = "RDMA memory pool exhausted (total: ".to_owned();
        push_decimal(&mut out, self.total as u64);
        out.append(", requested: ");
        push_decimal(&mut out, self.requested as u64);
        out.append(", current_offset: ");
        push_decimal(&mut out, self.current_offset as u64);
        out.append(")");
        out
    }
}

/// What an [`RdmaAllocation`] is, as plain values.
#[verifier::ext_equal]
pub struct AllocationView {
    pub ptr: u64,
    pub size: usize,
    pub offset: usize,
    pub handle: MemoryRegionHandle,
}

impl AllocationView {
    /// The stretch of the pool that the allocation occupies.
    pub open spec fn extent(self) -> FreeBlock {
        FreeBlock {
            offset: self.offset,
            size: free_list::round_up(self.size as int) as usize,
        }
    }

    /// The allocation names memory of this pool.
    pub open spec fn belongs_to(self, pool: PoolState) -> bool {
        &&& self.ptr == pool.base + self.offset
        &&& self.handle == pool.handle
        &&& self.size + 63 <= usize::MAX
        &&& self.offset + free_list::round_up(self.size as int) <= pool.total()
    }
}

/// A stretch of pool memory that its holder may use until it is given back.
#[derive(Debug)]
pub struct RdmaAllocation {
    ptr: u64,
    size: usize,
    offset: usize,
    handle: MemoryRegionHandle,
}

impl View for RdmaAllocation {
    type V = AllocationView;

    closed spec fn view(&self) -> AllocationView {
        AllocationView {
            ptr: self.ptr,
            size: self.size,
            offset: self.offset,
            handle: self.handle,
        }
    }
}

/// What an [`RdmaMemoryPool`] holds, as plain values.
#[verifier::ext_equal]
pub struct PoolState {
    /// Address of the first byte.
    pub base: u64,
    /// The bytes of the pool.
    pub memory: Seq<u8>,
    /// Where space that was never handed out starts.
    pub current_offset: usize,
    /// Blocks that were given back.
    pub free: Seq<FreeBlock>,
    pub descriptor: crate::types::DescriptorView,
    pub handle: MemoryRegionHandle,
    pub alloc_count: usize,
    pub dealloc_count: usize,
}

impl PoolState {
    /// Size of the pool.
    pub open spec fn total(self) -> int {
        self.memory.len() as int
    }

    /// What holds of a pool at all times.
    pub open spec fn wf(self) -> bool {
        &&& self.total() <= isize::MAX
        &&& self.base + self.total() <= usize::MAX
        &&& free_list::within(self.free, self.total())
    }

    /// The request can be answered without a count running over: a recycled block fits, or the
    /// unallocated part can be advanced by the request.
    pub open spec fn countable(self, size: usize) -> bool {
        let n = free_list::round_up(size as int);
        &&& size + 63 <= usize::MAX
        &&& free_list::fit_index(self.free, n) < self.free.len() || self.current_offset + n
            <= usize::MAX
    }

    /// The pool after a request for `size` bytes, and the offset that was handed out.
    ///
    /// A request that does not fit still advances the unallocated part.
    pub open spec fn allocate(self, size: usize) -> (PoolState, Option<usize>) {
        let n = free_list::round_up(size as int);
        let i = free_list::fit_index(self.free, n);
        if i < self.free.len() {
            (
                PoolState {
                    free: free_list::carve(self.free, i, n),
                    alloc_count: counter::next_usize(self.alloc_count),
                    ..self
                },
                Some(self.free[i].offset),
            )
        } else {
            let advanced = PoolState {
                current_offset: (self.current_offset + n) as usize,
                ..self
            };
            if self.current_offset + n <= self.total() {
                (
                    PoolState { alloc_count: counter::next_usize(self.alloc_count), ..advanced },
                    Some(self.current_offset),
                )
            } else {
                (advanced, None)
            }
        }
    }

    /// The pool after a block was given back.
    pub open spec fn deallocate(self, b: FreeBlock) -> PoolState {
        PoolState {
            free: free_list::place(self.free, b),
            dealloc_count: counter::next_usize(self.dealloc_count),
            ..self
        }
    }

    /// Bytes in use.
    pub open spec fn used_bytes(self) -> int {
        let free = free_list::total_size(self.free);
        if self.current_offset >= free {
            self.current_offset - free
        } else {
            0
        }
    }

    /// Bytes that can still be handed out.
    pub open spec fn available_bytes(self) -> int {
        let unallocated = if self.total() >= self.current_offset {
            self.total() - self.current_offset
        } else {
            0
        };
        unallocated + free_list::total_size(self.free)
    }
}

/// `Vec::as_ptr`: the address of the vector's buffer.
///
/// The address depends on the machine. It is not null, and the buffer does not reach past the
/// end of the address space; which address it is stays unsaid.
#[verifier::external_body]
pub(crate) fn buffer_address(buffer: &Vec<u8>) -> (r: u64)
    ensures
        0 < r,
        r + buffer@.len() <= usize::MAX,
{
    buffer.as_ptr() as u64
}

/// RDMA memory pool for zero-copy transfers.
#[derive(Debug)]
pub struct RdmaMemoryPool {
    base_ptr: u64,
    buffer: Vec<u8>,
    current_offset: usize,
    free_list: Vec<FreeBlock>,
    descriptor: MemoryRegionDescriptor,
    handle: MemoryRegionHandle,
    alloc_count: usize,
    dealloc_count: usize,
}

impl View for RdmaMemoryPool {
    type V = PoolState;

    closed spec fn view(&self) -> PoolState {
        PoolState {
            base: self.base_ptr,
            memory: self.buffer@,
            current_offset: self.current_offset,
            free: self.free_list@,
            descriptor: self.descriptor@,
            handle: self.handle,
            alloc_count: self.alloc_count,
            dealloc_count: self.dealloc_count,
        }
    }
}

impl RdmaAllocation {
    /// No memory: it stands in while an allocation is moved.
    pub(crate) fn nothing() -> (r: Self)
        ensures
            r@ == (AllocationView {
                ptr: 0,
                size: 0,
                offset: 0,
                handle: (MemoryRegionHandle { id: 0 }),
            }),
    {
        RdmaAllocation { ptr: 0, size: 0, offset: 0, handle: MemoryRegionHandle { id: 0 } }
    }

    /// Address of the first byte.
    pub fn ptr(&self) -> (r: u64)
        ensures
            r == self@.ptr,
    {
        self.ptr
    }

    /// Bytes asked for.
    pub fn size(&self) -> (r: usize)
        ensures
            r == self@.size,
    {
        self.size
    }

    /// Offset within the pool.
    pub fn offset(&self) -> (r: usize)
        ensures
            r == self@.offset,
    {
        self.offset
    }

    /// Handle of the pool's memory region.
    pub fn handle(&self) -> (r: MemoryRegionHandle)
        ensures
            r == self@.handle,
    {
        self.handle
    }

    /// The memory of the allocation.
    pub fn as_slice<'a>(&self, pool: &'a RdmaMemoryPool) -> (r: &'a [u8])
        requires
            pool@.wf(),
            self@.belongs_to(pool@),
        ensures
            r@ == pool@.memory.subrange(
                self@.offset as int,
                self@.offset + self@.size,
            ),
    {
        vstd::slice::slice_subrange(
            pool.buffer.as_slice(),
            self.offset,
            self.offset + self.size,
        )
    }

    /// The memory of the allocation, to be written.
    pub fn as_mut_slice<'a>(&self, pool: &'a mut RdmaMemoryPool) -> (r: &'a mut [u8])
        requires
            old(pool)@.wf(),
            self@.belongs_to(old(pool)@),
        ensures
            r@ == old(pool)@.memory.subrange(self@.offset as int, self@.offset + self@.size),
            final(pool)@ == (PoolState {
                memory: old(pool)@.memory.take(self@.offset as int) + final(r)@
                    + old(pool)@.memory.skip(self@.offset + self@.size),
                ..old(pool)@
            }),
    {
        let end: usize = self.offset + self.size;
        let (left, right) = pool.buffer.as_mut_slice().split_at_mut(end);
        let (before, mine) = left.split_at_mut(self.offset);
        mine
    }
}

impl RdmaMemoryPool {
    /// A pool over a registered buffer.
    pub fn new(
        buffer: Vec<u8>,
        descriptor: MemoryRegionDescriptor,
        handle: MemoryRegionHandle,
    ) -> (r: Self)
        requires
            buffer@.len() <= isize::MAX,
        ensures
            r@.wf(),
            r@.base > 0,
            r@.memory == buffer@,
            r@.current_offset == 0,
            r@.free == Seq::<FreeBlock>::empty(),
            r@.descriptor == descriptor@,
            r@.handle == handle,
            r@.alloc_count == 0,
            r@.dealloc_count == 0,
    {
        let base_ptr = buffer_address(&buffer);
        RdmaMemoryPool {
            base_ptr,
            buffer,
            current_offset: 0,
            free_list: Vec::new(),
            descriptor,
            handle,
            alloc_count: 0,
            dealloc_count: 0,
        }
    }

    /// A pool of `size` zero bytes that no remote peer can reach.
    pub fn new_mock(size: usize) -> (r: Self)
        requires
            size <= isize::MAX,
        ensures
            r@.wf(),
            r@.base > 0,
            r@.memory == Seq::new(size as nat, |i: int| 0u8),
            r@.current_offset == 0,
            r@.free == Seq::<FreeBlock>::empty(),
            r@.descriptor.ptr == r@.base,
            r@.descriptor.addr_rkey_list == Seq::<(Seq<u8>, u64)>::empty(),
            r@.handle == (MemoryRegionHandle { id: 0 }),
            r@.alloc_count == 0,
            r@.dealloc_count == 0,
    {
        let buffer: Vec<u8> = vec![0u8; size];
        assert(buffer@ =~= Seq::new(size as nat, |i: int| 0u8));
        let base_ptr = buffer_address(&buffer);
        let pairs: Vec<AddressRkeyPair> = Vec::new();
        assert(crate::types::pair_views(pairs@) =~= Seq::<(Seq<u8>, u64)>::empty());
        RdmaMemoryPool {
            base_ptr,
            buffer,
            current_offset: 0,
            free_list: Vec::new(),
            descriptor: MemoryRegionDescriptor::new(base_ptr, pairs),
            handle: MemoryRegionHandle { id: 0 },
            alloc_count: 0,
            dealloc_count: 0,
        }
    }

    /// Takes a recycled block of `aligned_size` bytes, if there is one.
    fn try_allocate_from_free_list(&mut self, aligned_size: usize) -> (r: Option<usize>)
        requires
            old(self)@.wf(),
        ensures
            ({
                let i = free_list::fit_index(old(self)@.free, aligned_size as int);
                if i < old(self)@.free.len() {
                    &&& r == Some(old(self)@.free[i].offset)
                    &&& final(self)@ == (PoolState {
                        free: free_list::carve(old(self)@.free, i, aligned_size as int),
                        ..old(self)@
                    })
                } else {
                    &&& r is None
                    &&& final(self)@ == old(self)@
                }
            }),
    {
        take_first_fit(&mut self.free_list, aligned_size)
    }

    /// Allocates `size` bytes.
    pub fn allocate(&mut self, size: usize) -> (r: Result<RdmaAllocation, PoolExhausted>)
        requires
            old(self)@.wf(),
            old(self)@.countable(size),
        ensures
            final(self)@.wf(),
            final(self)@ == old(self)@.allocate(size).0,
            match r {
                Ok(a) => {
                    &&& old(self)@.allocate(size).1 == Some(a@.offset)
                    &&& a@.size == size
                    &&& a@.belongs_to(final(self)@)
                },
                Err(e) => {
                    &&& old(self)@.allocate(size).1 is None
                    &&& e == (PoolExhausted {
                        total: old(self)@.total() as usize,
                        requested: free_list::round_up(size as int) as usize,
                        current_offset: old(self)@.current_offset,
                    })
                },
            },
    {
        let aligned_size = align_size(size);
        proof {
            let i = free_list::fit_index(self@.free, aligned_size as int);
            free_list::lemma_fit_index(self@.free, aligned_size as int);
            if i < self@.free.len() {
                free_list::lemma_carve_within(self@.free, i, aligned_size as int, self@.total());
                assert(self@.free[i].end() <= self@.total());
            }
        }
        if let Some(offset) = self.try_allocate_from_free_list(aligned_size) {
            self.alloc_count = count_usize(self.alloc_count);
            return Ok(
                RdmaAllocation {
                    ptr: self.base_ptr + offset as u64,
                    size,
                    offset,
                    handle: self.handle,
                },
            );
        }
        let offset = self.current_offset;
        self.current_offset = offset + aligned_size;
        if offset + aligned_size > self.buffer.len() {
            return Err(
                PoolExhausted {
                    total: self.buffer.len(),
                    requested: aligned_size,
                    current_offset: offset,
                },
            );
        }
        self.alloc_count = count_usize(self.alloc_count);
        Ok(
            RdmaAllocation {
                ptr: self.base_ptr + offset as u64,
                size,
                offset,
                handle: self.handle,
            },
        )
    }

    /// Gives an allocation back.
    pub fn deallocate(&mut self, allocation: RdmaAllocation)
        requires
            old(self)@.wf(),
            allocation@.belongs_to(old(self)@),
        ensures
            final(self)@.wf(),
            final(self)@ == old(self)@.deallocate(allocation@.extent()),
    {
        self.dealloc_count = count_usize(self.dealloc_count);
        let aligned_size = align_size(allocation.size);
        let block = FreeBlock { offset: allocation.offset, size: aligned_size };
        proof {
            free_list::lemma_place_within(self@.free, block, self@.total());
        }
        insert_free_block(&mut self.free_list, block);
    }

    /// Memory region descriptor of the pool.
    pub fn descriptor(&self) -> (r: &MemoryRegionDescriptor)
        ensures
            r@ == self@.descriptor,
    {
        &self.descriptor
    }

    /// Usage statistics: start of unallocated space, allocations, deallocations, number of
    /// free blocks and free bytes.
    pub fn stats(&self) -> (r: (usize, usize, usize, usize, usize))
        requires
            free_list::total_size(self@.free) <= usize::MAX,
        ensures
            r.0 == self@.current_offset,
            r.1 == self@.alloc_count,
            r.2 == self@.dealloc_count,
            r.3 == self@.free.len(),
            r.4 == free_list::total_size(self@.free),
    {
        let free_blocks = self.free_list.len();
        let free_total = free_bytes(&self.free_list);
        (self.current_offset, self.alloc_count, self.dealloc_count, free_blocks, free_total)
    }

    /// Bytes in use.
    pub fn used_bytes(&self) -> (r: usize)
        requires
            free_list::total_size(self@.free) <= usize::MAX,
        ensures
            r == self@.used_bytes(),
    {
        let (current_offset, _, _, _, free_total) = self.stats();
        current_offset.saturating_sub(free_total)
    }

    /// Bytes that can still be handed out.
    pub fn available_bytes(&self) -> (r: usize)
        requires
            self@.available_bytes() <= usize::MAX,
        ensures
            r == self@.available_bytes(),
    {
        let (current_offset, _, _, _, free_total) = self.stats();
        let unallocated = self.buffer.len().saturating_sub(current_offset);
        unallocated + free_total
    }

    /// Forgets how far the pool has grown. For tests: what is allocated or free stays so.
    pub fn reset(&mut self)
        requires
            old(self)@.wf(),
        ensures
            final(self)@.wf(),
            final(self)@ == (PoolState { current_offset: 0, ..old(self)@ }),
    {
        self.current_offset = 0;
    }
}

} // verus!
