//! Worker side of the transfer engine: what to ask it for, and what its answers amount to.

use crate::memory_pool;
use crate::memory_pool::RdmaMemoryPool;
use crate::free_list;
use crate::text::join;
use crate::types;
use crate::types::{
    clone_addresses, DomainAddress, MemoryRegionDescriptor, MemoryRegionHandle, RdmaCapability,
};
use vstd::prelude::*;

verus! {

/// How a transfer engine is to be set up.
#[derive(Debug, Clone, Copy, PartialEq, Eq, Structural)]
pub struct EngineRequest {
    pub num_domains: usize,
    pub pin_worker_cpu: u16,
    pub pin_uvm_cpu: u16,
    /// Size of the memory that is to be registered.
    pub pool_size_bytes: usize,
}

impl EngineRequest {
    /// The engine for a pool of `memory_pool_size_mb` MB. CPU numbers are cut to 16 bits.
    pub fn new(
        num_domains: usize,
        pin_worker_cpu: usize,
        pin_uvm_cpu: usize,
        memory_pool_size_mb: usize,
    ) -> (r: Self)
        requires
            memory_pool_size_mb * 1024 * 1024 <= usize::MAX,
        ensures
            r == (EngineRequest {
                num_domains,
                pin_worker_cpu: pin_worker_cpu as u16,
                pin_uvm_cpu: pin_uvm_cpu as u16,
                pool_size_bytes: (memory_pool_size_mb * 1024 * 1024) as usize,
            }),
    {
        EngineRequest {
            num_domains,
            pin_worker_cpu: #[verifier::truncate]
            (pin_worker_cpu as u16),
            pin_uvm_cpu: #[verifier::truncate]
            (pin_uvm_cpu as u16),
            pool_size_bytes: memory_pool_size_mb * 1024 * 1024,
        }
    }

    /// The zeroed memory that is to be registered.
    pub fn buffer(&self) -> (r: Vec<u8>)
        requires
            self.pool_size_bytes <= isize::MAX,
        ensures
            r@ == Seq::new(self.pool_size_bytes as nat, |i: int| 0u8),
    {
        let buffer: Vec<u8> = vec![0u8; self.pool_size_bytes];
        assert(buffer@ =~= Seq::new(self.pool_size_bytes as nat, |i: int| 0u8));
        buffer
    }
}

/// A write that the transfer engine is to perform, spread over its domains in turn.
#[derive(Debug)]
pub struct WriteRequest {
    pub src_handle: MemoryRegionHandle,
    pub src_offset: u64,
    pub length: u64,
    pub dst: MemoryRegionDescriptor,
    pub dst_offset: u64,
    /// Number of domains to spread over, at least one.
    pub num_shards: u8,
}

/// What a [`TransferEngineManager`] holds, as plain values.
#[verifier::ext_equal]
pub struct ManagerState {
    pub pool: memory_pool::PoolState,
    pub domain_addresses: Seq<Seq<u8>>,
    pub num_domains: usize,
    pub direct_polling: bool,
}

impl ManagerState {
    /// What a manager starts out with over a registered buffer.
    pub open spec fn starts(
        self,
        buffer: Seq<u8>,
        handle: MemoryRegionHandle,
        descriptor: types::DescriptorView,
        num_domains: usize,
        direct_polling: bool,
    ) -> bool {
        &&& self.pool.wf()
        &&& self.pool.base > 0
        &&& self.pool.memory == buffer
        &&& self.pool.current_offset == 0
        &&& self.pool.free == Seq::<free_list::FreeBlock>::empty()
        &&& self.pool.descriptor == descriptor
        &&& self.pool.handle == handle
        &&& self.pool.alloc_count == 0
        &&& self.pool.dealloc_count == 0
        &&& self.domain_addresses == descriptor.addr_rkey_list.map_values(
            |p: (Seq<u8>, u64)| p.0,
        )
        &&& self.num_domains == num_domains
        &&& self.direct_polling == direct_polling
    }
}

/// Manager of a worker's RDMA memory and of what it tells others about it.
#[derive(Debug)]
pub struct TransferEngineManager {
    memory_pool: RdmaMemoryPool,
    domain_addresses: Vec<DomainAddress>,
    num_domains: usize,
    direct_polling_enabled: bool,
}

impl View for TransferEngineManager {
    type V = ManagerState;

    closed spec fn view(&self) -> ManagerState {
        ManagerState {
            pool: self.memory_pool@,
            domain_addresses: types::address_views(self.domain_addresses@),
            num_domains: self.num_domains,
            direct_polling: self.direct_polling_enabled,
        }
    }
}

impl TransferEngineManager {
    /// The number of domains that the engine came up with, or why it did not.
    pub fn engine_created(answer: Result<usize, String>) -> (r: Result<usize, String>)
        ensures
            match answer {
                Ok(n) => r == Ok::<usize, String>(n),
                Err(e) => r is Err && r->Err_0@ == "Failed to create TransferEngine: "@ + e@,
            },
    {
        match answer {
            Ok(n) => Ok(n),
            Err(e) => Err(join("Failed to create TransferEngine: ", e.as_str())),
        }
    }

    fn over(
        num_domains: usize,
        buffer: Vec<u8>,
        answer: Result<(MemoryRegionHandle, MemoryRegionDescriptor), String>,
        direct_polling_enabled: bool,
    ) -> (r: Result<Self, String>)
        requires
            buffer@.len() <= isize::MAX,
        ensures
            match answer {
                Ok(region) => r is Ok && r->Ok_0@.starts(
                    buffer@,
                    region.0,
                    region.1@,
                    num_domains,
                    direct_polling_enabled,
                ),
                Err(e) => r is Err && r->Err_0@ == "Failed to register RDMA memory: "@ + e@,
            },
    {
        match answer {
            Ok((handle, descriptor)) => {
                let domain_addresses = descriptor.domain_addresses();
                let memory_pool = RdmaMemoryPool::new(buffer, descriptor, handle);
                Ok(
                    TransferEngineManager {
                        memory_pool,
                        domain_addresses,
                        num_domains,
                        direct_polling_enabled,
                    },
                )
            },
            Err(e) => Err(join("Failed to register RDMA memory: ", e.as_str())),
        }
    }

    /// A manager that polls for completions, over the buffer that was offered to an engine of
    /// `num_domains` domains, given the engine's answer.
    pub fn new_direct(
        num_domains: usize,
        buffer: Vec<u8>,
        answer: Result<(MemoryRegionHandle, MemoryRegionDescriptor), String>,
    ) -> (r: Result<Self, String>)
        requires
            buffer@.len() <= isize::MAX,
        ensures
            match answer {
                Ok(region) => r is Ok && r->Ok_0@.starts(
                    buffer@,
                    region.0,
                    region.1@,
                    num_domains,
                    true,
                ),
                Err(e) => r is Err && r->Err_0@ == "Failed to register RDMA memory: "@ + e@,
            },
    {
        Self::over(num_domains, buffer, answer, true)
    }

    /// A manager that is called back on completion, over the buffer that was offered to an
    /// engine of `num_domains` domains, given the engine's answer.
    pub fn new(
        num_domains: usize,
        buffer: Vec<u8>,
        answer: Result<(MemoryRegionHandle, MemoryRegionDescriptor), String>,
    ) -> (r: Result<Self, String>)
        requires
            buffer@.len() <= isize::MAX,
        ensures
            match answer {
                Ok(region) => r is Ok && r->Ok_0@.starts(
                    buffer@,
                    region.0,
                    region.1@,
                    num_domains,
                    false,
                ),
                Err(e) => r is Err && r->Err_0@ == "Failed to register RDMA memory: "@ + e@,
            },
    {
        Self::over(num_domains, buffer, answer, false)
    }

    /// The number of completions that polling the engine gave. Without direct polling there
    /// is nothing to poll.
    pub fn poll_completions(&self, polled: Result<usize, String>) -> (r: Result<usize, String>)
        ensures
            !self@.direct_polling ==> r == Ok::<usize, String>(0),
            self@.direct_polling ==> match polled {
                Ok(n) => r == Ok::<usize, String>(n),
                Err(e) => r is Err && r->Err_0@ == "RDMA poll failed: "@ + e@,
            },
    {
        if !self.direct_polling_enabled {
            return Ok(0);
        }
        match polled {
            Ok(n) => Ok(n),
            Err(e) => Err(join("RDMA poll failed: ", e.as_str())),
        }
    }

    pub fn is_direct_polling_enabled(&self) -> (r: bool)
        ensures
            r == self@.direct_polling,
    {
        self.direct_polling_enabled
    }

    /// What the worker advertises: RDMA is enabled, at an address for each domain.
    pub fn get_capability(&self) -> (r: RdmaCapability)
        ensures
            r@ == (types::CapabilityView {
                enabled: true,
                domain_addresses: self@.domain_addresses,
                num_domains: self@.domain_addresses.len() as usize,
            }),
    {
        let domain_addresses = clone_addresses(&self.domain_addresses);
        assert(types::address_views(domain_addresses@).len() == domain_addresses@.len());
        RdmaCapability::new(true, domain_addresses)
    }

    /// The worker's memory pool.
    pub fn memory_pool(&self) -> (r: &RdmaMemoryPool)
        ensures
            r@ == self@.pool,
    {
        &self.memory_pool
    }

    /// The worker's memory pool, to allocate from.
    pub fn memory_pool_mut(&mut self) -> (r: &mut RdmaMemoryPool)
        ensures
            r@ == old(self)@.pool,
            final(self)@ == (ManagerState { pool: final(r)@, ..old(self)@ }),
    {
        &mut self.memory_pool
    }

    /// The write of `length` bytes from a registered region to a remote one.
    pub fn write_request(
        &self,
        src_handle: MemoryRegionHandle,
        src_offset: u64,
        length: u64,
        dst_descriptor: MemoryRegionDescriptor,
        dst_offset: u64,
    ) -> (r: WriteRequest)
        requires
            self@.num_domains as u8 != 0,
        ensures
            r == (WriteRequest {
                src_handle,
                src_offset,
                length,
                dst: dst_descriptor,
                dst_offset,
                num_shards: self@.num_domains as u8,
            }),
            r.num_shards > 0,
    {
        WriteRequest {
            src_handle,
            src_offset,
            length,
            dst: dst_descriptor,
            dst_offset,
            num_shards: #[verifier::truncate]
            (self.num_domains as u8),
        }
    }

    /// What a submitted write came to.
    pub fn write_result(answer: Result<(), String>) -> (r: Result<(), String>)
        ensures
            match answer {
                Ok(_) => r is Ok,
                Err(e) => r is Err && r->Err_0@ == "RDMA transfer failed: "@ + e@,
            },
    {
        match answer {
            Ok(_) => Ok(()),
            Err(e) => Err(join("RDMA transfer failed: ", e.as_str())),
        }
    }

    /// Usage statistics of the memory pool.
    pub fn pool_stats(&self) -> (r: (usize, usize, usize, usize, usize))
        requires
            free_list::total_size(self@.pool.free) <= usize::MAX,
        ensures
            r.0 == self@.pool.current_offset,
            r.1 == self@.pool.alloc_count,
            r.2 == self@.pool.dealloc_count,
            r.3 == self@.pool.free.len(),
            r.4 == free_list::total_size(self@.pool.free),
    {
        self.memory_pool.stats()
    }
}

/// A worker that registered memory under at least one address can be reached: what it
/// advertises names as many domains as addresses and counts as enabled.
pub proof fn law_registered_worker_is_reachable(
    m: ManagerState,
    buffer: Seq<u8>,
    handle: MemoryRegionHandle,
    descriptor: types::DescriptorView,
    num_domains: usize,
    direct_polling: bool,
)
    requires
        m.starts(buffer, handle, descriptor, num_domains, direct_polling),
        descriptor.addr_rkey_list.len() > 0,
    ensures
        m.domain_addresses.len() == descriptor.addr_rkey_list.len(),
        m.domain_addresses.len() > 0,
        m.pool.used_bytes() == 0,
        m.pool.available_bytes() == buffer.len(),
{
    crate::pool_laws::law_new_pool_is_consistent(m.pool);
}

/// An engine is set up with the domains that were asked for and a pool of so many megabytes, all
/// of its bytes zero. CPU numbers that fit are passed on.
pub proof fn law_engine_is_set_up_as_asked(
    num_domains: usize,
    worker_cpu: usize,
    uvm_cpu: usize,
    megabytes: usize,
    r: EngineRequest,
    buffer: Vec<u8>,
)
    requires
        call_ensures(EngineRequest::new, (num_domains, worker_cpu, uvm_cpu, megabytes), r),
        call_ensures(EngineRequest::buffer, (&r,), buffer),
        megabytes * 1048576 <= isize::MAX,
    ensures
        r.num_domains == num_domains,
        worker_cpu <= u16::MAX ==> r.pin_worker_cpu == worker_cpu,
        uvm_cpu <= u16::MAX ==> r.pin_uvm_cpu == uvm_cpu,
        r.pool_size_bytes == megabytes * 1048576,
        buffer@.len() == megabytes * 1048576,
        forall|i: int| 0 <= i < buffer@.len() ==> #[trigger] buffer@[i] == 0,
{
}

/// A worker's manager is made exactly where the memory was registered, over the buffer that was
/// offered; it polls where it was made to. What it advertises is enabled, with one domain for each
/// address that the memory is registered under, in order.
pub proof fn law_worker_advertises_its_addresses(
    num_domains: usize,
    buffer: Vec<u8>,
    handle: MemoryRegionHandle,
    descriptor: MemoryRegionDescriptor,
    polling: TransferEngineManager,
    called: TransferEngineManager,
    capability: RdmaCapability,
    usable: bool,
    polls: bool,
    waits: bool,
)
    requires
        buffer@.len() <= isize::MAX,
        call_ensures(
            TransferEngineManager::new_direct,
            (num_domains, buffer, Ok((handle, descriptor))),
            Ok(polling),
        ),
        call_ensures(
            TransferEngineManager::new,
            (num_domains, buffer, Ok((handle, descriptor))),
            Ok(called),
        ),
        call_ensures(TransferEngineManager::get_capability, (&polling,), capability),
        call_ensures(RdmaCapability::is_enabled, (&capability,), usable),
        call_ensures(TransferEngineManager::is_direct_polling_enabled, (&polling,), polls),
        call_ensures(TransferEngineManager::is_direct_polling_enabled, (&called,), waits),
        descriptor.addr_rkey_list@.len() <= usize::MAX,
    ensures
        polls,
        !waits,
        polling@.pool.memory == buffer@ && called@.pool.memory == buffer@,
        polling@.pool.handle == handle && called@.pool.handle == handle,
        polling@.num_domains == num_domains && called@.num_domains == num_domains,
        capability.enabled,
        capability.num_domains == descriptor.addr_rkey_list@.len(),
        capability@.domain_addresses.len() == descriptor.addr_rkey_list@.len(),
        forall|i: int|
            0 <= i < descriptor.addr_rkey_list@.len() ==> #[trigger] capability@.domain_addresses[i]
                == descriptor.addr_rkey_list@[i].domain_address.address@,
        usable <==> descriptor.addr_rkey_list@.len() > 0,
{
    assert(descriptor@.addr_rkey_list.len() == descriptor.addr_rkey_list@.len());
    assert(capability@.num_domains == capability.num_domains);
    assert(capability@.domain_addresses.len() == capability.domain_addresses@.len());
    assert(capability@.enabled == capability.enabled);
    assert forall|i: int| 0 <= i < descriptor.addr_rkey_list@.len() implies
        #[trigger] capability@.domain_addresses[i]
        == descriptor.addr_rkey_list@[i].domain_address.address@ by {
        assert(descriptor@.addr_rkey_list[i] == descriptor.addr_rkey_list@[i]@);
    }
}

/// Memory that could not be registered makes no manager, polling or not, and neither does an
/// engine that did not come up; each is told with its reason.
pub proof fn law_failed_setup_is_told(
    num_domains: usize,
    buffer: Vec<u8>,
    reason: String,
    r: Result<TransferEngineManager, String>,
    q: Result<TransferEngineManager, String>,
    created: Result<usize, String>,
    domains: Result<usize, String>,
)
    requires
        buffer@.len() <= isize::MAX,
        call_ensures(TransferEngineManager::new_direct, (num_domains, buffer, Err(reason)), r),
        call_ensures(TransferEngineManager::new, (num_domains, buffer, Err(reason)), q),
        call_ensures(TransferEngineManager::engine_created, (created,), domains),
    ensures
        r matches Err(e) && e@.len() >= reason@.len() && e@.skip(e@.len() - reason@.len())
            == reason@,
        q matches Err(e) && e@.len() >= reason@.len() && e@.skip(e@.len() - reason@.len())
            == reason@,
        domains is Ok <==> created is Ok,
        domains matches Ok(n) ==> n == created->Ok_0,
        domains matches Err(e) ==> e@.len() >= created->Err_0@.len() && e@.skip(
            e@.len() - created->Err_0@.len(),
        ) == created->Err_0@,
{
    assert(("Failed to register RDMA memory: "@ + reason@).skip(
        "Failed to register RDMA memory: "@.len() as int,
    ) =~= reason@);
    if let Err(e) = created {
        assert(("Failed to create TransferEngine: "@ + e@).skip(
            "Failed to create TransferEngine: "@.len() as int,
        ) =~= e@);
    }
}

/// Polling gives what the engine gave, or fails as it did; a manager that does not poll has nothing
/// completed whatever the engine says. A write ends as the engine says.
pub proof fn law_engine_answers_are_passed_on(
    m: TransferEngineManager,
    polled: Result<usize, String>,
    r: Result<usize, String>,
    answer: Result<(), String>,
    q: Result<(), String>,
)
    requires
        call_ensures(TransferEngineManager::poll_completions, (&m, polled), r),
        call_ensures(TransferEngineManager::write_result, (answer,), q),
    ensures
        !m@.direct_polling ==> (r matches Ok(n) && n == 0),
        m@.direct_polling ==> (r is Ok <==> polled is Ok),
        m@.direct_polling && polled is Ok ==> (r matches Ok(n) && n == polled->Ok_0),
        m@.direct_polling && polled is Err ==> (r matches Err(e) && e@.len()
            >= polled->Err_0@.len() && e@.skip(e@.len() - polled->Err_0@.len())
            == polled->Err_0@),
        q is Ok <==> answer is Ok,
        q matches Err(e) ==> e@.len() >= answer->Err_0@.len() && e@.skip(
            e@.len() - answer->Err_0@.len(),
        ) == answer->Err_0@,
{
    if let Err(e) = polled {
        assert(("RDMA poll failed: "@ + e@).skip("RDMA poll failed: "@.len() as int) =~= e@);
    }
    if let Err(e) = answer {
        assert(("RDMA transfer failed: "@ + e@).skip("RDMA transfer failed: "@.len() as int)
            =~= e@);
    }
}

/// A write goes from and to where it is to, over as many domains as there are.
pub proof fn law_write_goes_where_it_is_to(
    m: TransferEngineManager,
    src_handle: MemoryRegionHandle,
    src_offset: u64,
    length: u64,
    dst: MemoryRegionDescriptor,
    dst_offset: u64,
    r: WriteRequest,
)
    requires
        call_ensures(
            TransferEngineManager::write_request,
            (&m, src_handle, src_offset, length, dst, dst_offset),
            r,
        ),
    ensures
        r.src_handle == src_handle,
        r.src_offset == src_offset,
        r.length == length,
        r.dst == dst,
        r.dst_offset == dst_offset,
        m@.num_domains <= u8::MAX ==> r.num_shards == m@.num_domains,
{
}

/// A worker's manager shows its pool, to read and to allocate from, and tells the pool's
/// statistics.
pub proof fn law_worker_manager_shows_its_pool(
    m: TransferEngineManager,
    pool: RdmaMemoryPool,
    stats: (usize, usize, usize, usize, usize),
    own: (usize, usize, usize, usize, usize),
    changed: &mut TransferEngineManager,
    inner: &mut RdmaMemoryPool,
)
    requires
        call_ensures(TransferEngineManager::memory_pool, (&m,), &pool),
        call_ensures(TransferEngineManager::pool_stats, (&m,), stats),
        call_ensures(RdmaMemoryPool::stats, (&pool,), own),
        call_ensures(TransferEngineManager::memory_pool_mut, (changed,), inner),
    ensures
        pool@ == m@.pool,
        stats == own,
        old(inner)@ == old(changed)@.pool,
        final(changed)@ == (ManagerState { pool: final(inner)@, ..old(changed)@ }),
{
}

} // verus!
