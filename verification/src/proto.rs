//! Wire messages of the RDMA types.

use vstd::prelude::*;

verus! {

/// A [`crate::types::DomainAddress`] on the wire.
#[derive(Debug)]
pub struct RdmaDomainAddressProto {
    pub address: Vec<u8>,
}

/// A [`crate::types::RdmaCapability`] on the wire.
#[derive(Debug)]
pub struct RdmaCapabilityProto {
    pub enabled: bool,
    pub domain_addresses: Vec<RdmaDomainAddressProto>,
    pub num_domains: u32,
}

/// A [`crate::types::AddressRkeyPair`] on the wire, where the address may be missing.
#[derive(Debug)]
pub struct RdmaAddressRkeyPairProto {
    pub domain_address: Option<RdmaDomainAddressProto>,
    pub rkey: u64,
}

/// A [`crate::types::MemoryRegionDescriptor`] on the wire.
#[derive(Debug)]
pub struct RdmaMemoryRegionDescriptorProto {
    pub ptr: u64,
    pub addr_rkey_list: Vec<RdmaAddressRkeyPairProto>,
}

/// A [`crate::state::WorkerAddress`] on the wire.
#[derive(Debug)]
pub struct WorkerAddressProto {
    pub worker_id: u32,
    pub hostname: String,
    pub ip_addr: String,
    pub rpc_port: u32,
    pub web_port: u32,
    pub rdma_capability: Option<RdmaCapabilityProto>,
}

impl View for RdmaDomainAddressProto {
    type V = Seq<u8>;

    open spec fn view(&self) -> Seq<u8> {
        self.address@
    }
}

impl Clone for RdmaDomainAddressProto {
    fn clone(&self) -> (r: Self)
        ensures
            r@ == self@,
    {
        let address = self.address.clone();
        assert(address@ =~= self.address@);
        RdmaDomainAddressProto { address }
    }
}

/// The addresses of a list, as plain values.
pub open spec fn address_views(list: Seq<RdmaDomainAddressProto>) -> Seq<Seq<u8>> {
    list.map_values(|a: RdmaDomainAddressProto| a@)
}

/// What an [`RdmaCapabilityProto`] says, as plain values.
pub struct CapabilityProtoView {
    pub enabled: bool,
    pub domain_addresses: Seq<Seq<u8>>,
    pub num_domains: u32,
}

impl View for RdmaCapabilityProto {
    type V = CapabilityProtoView;

    open spec fn view(&self) -> CapabilityProtoView {
        CapabilityProtoView {
            enabled: self.enabled,
            domain_addresses: address_views(self.domain_addresses@),
            num_domains: self.num_domains,
        }
    }
}

impl Clone for RdmaCapabilityProto {
    fn clone(&self) -> (r: Self)
        ensures
            r@ == self@,
    {
        let mut domain_addresses: Vec<RdmaDomainAddressProto> = Vec::new();
        let mut i: usize = 0;
        while i < self.domain_addresses.len()
            invariant
                i <= self.domain_addresses@.len(),
                domain_addresses@.len() == i,
                forall|k: int|
                    0 <= k < i ==> (#[trigger] domain_addresses@[k])@
                        == self.domain_addresses@[k]@,
            decreases self.domain_addresses@.len() - i,
        {
            domain_addresses.push(self.domain_addresses[i].clone());
            i = i + 1;
        }
        assert(address_views(domain_addresses@) =~= address_views(self.domain_addresses@));
        RdmaCapabilityProto {
            enabled: self.enabled,
            domain_addresses,
            num_domains: self.num_domains,
        }
    }
}

impl View for RdmaAddressRkeyPairProto {
    type V = (Option<Seq<u8>>, u64);

    open spec fn view(&self) -> (Option<Seq<u8>>, u64) {
        (
            match self.domain_address {
                Some(a) => Some(a@),
                None => None,
            },
            self.rkey,
        )
    }
}

/// The pairs of a list, as plain values.
pub open spec fn pair_views(list: Seq<RdmaAddressRkeyPairProto>) -> Seq<(Option<Seq<u8>>, u64)> {
    list.map_values(|p: RdmaAddressRkeyPairProto| p@)
}

/// What an [`RdmaMemoryRegionDescriptorProto`] says, as plain values.
pub struct DescriptorProtoView {
    pub ptr: u64,
    pub addr_rkey_list: Seq<(Option<Seq<u8>>, u64)>,
}

impl View for RdmaMemoryRegionDescriptorProto {
    type V = DescriptorProtoView;

    open spec fn view(&self) -> DescriptorProtoView {
        DescriptorProtoView { ptr: self.ptr, addr_rkey_list: pair_views(self.addr_rkey_list@) }
    }
}

/// What a [`WorkerAddressProto`] says, as plain values.
pub struct WorkerAddressProtoView {
    pub worker_id: u32,
    pub hostname: Seq<char>,
    pub ip_addr: Seq<char>,
    pub rpc_port: u32,
    pub web_port: u32,
    pub rdma_capability: Option<CapabilityProtoView>,
}

impl View for WorkerAddressProto {
    type V = WorkerAddressProtoView;

    open spec fn view(&self) -> WorkerAddressProtoView {
        WorkerAddressProtoView {
            worker_id: self.worker_id,
            hostname: self.hostname@,
            ip_addr: self.ip_addr@,
            rpc_port: self.rpc_port,
            web_port: self.web_port,
            rdma_capability: match self.rdma_capability {
                Some(c) => Some(c@),
                None => None,
            },
        }
    }
}

} // verus!
