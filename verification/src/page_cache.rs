//! Page cache memory that is registered for RDMA.

use crate::memory_pool::buffer_address;
use crate::text::join;
use crate::types;
use crate::types::{MemoryRegionDescriptor, MemoryRegionHandle};
use vstd::prelude::*;

verus! {

/// What a [`PageCacheRdmaRegistration`] holds, as plain values.
pub struct RegistrationView {
    pub handle: MemoryRegionHandle,
    pub descriptor: types::DescriptorView,
    pub data: Seq<u8>,
}

/// A registered memory region and the data in it.
#[derive(Debug)]
pub struct PageCacheRdmaRegistration {
    handle: MemoryRegionHandle,
    descriptor: MemoryRegionDescriptor,
    data: Vec<u8>,
}

impl View for PageCacheRdmaRegistration {
    type V = RegistrationView;

    closed spec fn view(&self) -> RegistrationView {
        RegistrationView {
            handle: self.handle,
            descriptor: self.descriptor@,
            data: self.data@,
        }
    }
}

impl PageCacheRdmaRegistration {
    /// The copy of `data` whose memory is to be registered.
    pub fn own_data(data: &[u8]) -> (r: Vec<u8>)
        ensures
            r@ == data@,
    {
        vstd::slice::slice_to_vec(data)
    }

    /// Takes over the memory that was offered to the transfer engine, given the engine's
    /// answer.
    pub fn register(
        owned: Vec<u8>,
        answer: Result<(MemoryRegionHandle, MemoryRegionDescriptor), String>,
    ) -> (r: Result<Self, String>)
        ensures
            match answer {
                Ok(region) => r is Ok && r->Ok_0@ == (RegistrationView {
                    handle: region.0,
                    descriptor: region.1@,
                    data: owned@,
                }),
                Err(e) => r is Err && r->Err_0@ == "Failed to register page cache for RDMA: "@ + e@,
            },
    {
        match answer {
            Ok((handle, descriptor)) => Ok(
                PageCacheRdmaRegistration { handle, descriptor, data: owned },
            ),
            Err(e) => Err(join("Failed to register page cache for RDMA: ", e.as_str())),
        }
    }

    /// Handle of the memory region.
    pub fn handle(&self) -> (r: MemoryRegionHandle)
        ensures
            r == self@.handle,
    {
        self.handle
    }

    /// Where the data starts in the memory region.
    pub fn offset(&self) -> (r: u64)
        ensures
            r == 0,
    {
        0
    }

    /// Number of bytes that are registered.
    pub fn len(&self) -> (r: usize)
        ensures
            r == self@.data.len(),
    {
        self.data.len()
    }

    /// The memory region as a remote peer addresses it.
    pub fn descriptor(&self) -> (r: &MemoryRegionDescriptor)
        ensures
            r@ == self@.descriptor,
    {
        &self.descriptor
    }

    /// Address of the data. Which one it is depends on the machine.
    pub fn as_ptr(&self) -> (r: u64)
        ensures
            0 < r,
            r + self@.data.len() <= usize::MAX,
    {
        buffer_address(&self.data)
    }

    /// The registered bytes.
    pub fn data(&self) -> (r: &[u8])
        ensures
            r@ == self@.data,
    {
        self.data.as_slice()
    }
}

/// A registration is made exactly where the engine registered the memory: it keeps the bytes that
/// were offered, the handle and the descriptor, and starts at the front of its region. An engine
/// that failed is told with its reason.
pub proof fn law_registration_keeps_its_bytes(
    data: &[u8],
    owned: Vec<u8>,
    answer: Result<(MemoryRegionHandle, MemoryRegionDescriptor), String>,
    r: Result<PageCacheRdmaRegistration, String>,
)
    requires
        call_ensures(PageCacheRdmaRegistration::own_data, (data,), owned),
        call_ensures(PageCacheRdmaRegistration::register, (owned, answer), r),
    ensures
        r is Ok <==> answer is Ok,
        r matches Ok(p) ==> {
            &&& p@.data == data@
            &&& p@.handle == answer->Ok_0.0
            &&& p@.descriptor == answer->Ok_0.1@
        },
        r matches Err(e) ==> e@.len() >= answer->Err_0@.len() && e@.skip(
            e@.len() - answer->Err_0@.len(),
        ) == answer->Err_0@,
{
    if let Err(e) = answer {
        assert(("Failed to register page cache for RDMA: "@ + e@).skip(
            "Failed to register page cache for RDMA: "@.len() as int,
        ) =~= e@);
    }
}

/// A registration tells its own values.
pub proof fn law_registration_tells_its_values(
    p: PageCacheRdmaRegistration,
    handle: MemoryRegionHandle,
    offset: u64,
    len: usize,
    descriptor: MemoryRegionDescriptor,
    data: &[u8],
)
    requires
        call_ensures(PageCacheRdmaRegistration::handle, (&p,), handle),
        call_ensures(PageCacheRdmaRegistration::offset, (&p,), offset),
        call_ensures(PageCacheRdmaRegistration::len, (&p,), len),
        call_ensures(PageCacheRdmaRegistration::descriptor, (&p,), &descriptor),
        call_ensures(PageCacheRdmaRegistration::data, (&p,), data),
    ensures
        handle == p@.handle,
        offset == 0,
        descriptor@ == p@.descriptor,
        data@ == p@.data,
        len == data@.len(),
{
}

} // verus!
