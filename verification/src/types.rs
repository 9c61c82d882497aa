//! Core RDMA type definitions.

use crate::shared_bytes;
use crate::shared_bytes::{bytes_as_slice, bytes_from_vec};
use crate::text;
use crate::text::push_decimal;
use bytes::Bytes;
use vstd::prelude::*;
use vstd::string::*;

verus! {

/// RDMA domain address, which names a network endpoint.
#[derive(Debug, PartialEq, Eq)]
pub struct DomainAddress {
    /// Raw address bytes.
    pub address: Vec<u8>,
}

impl View for DomainAddress {
    type V = Seq<u8>;

    open spec fn view(&self) -> Seq<u8> {
        self.address@
    }
}

impl Clone for DomainAddress {
    fn clone(&self) -> (r: Self)
        ensures
            r@ == self@,
    {
        let address = self.address.clone();
        assert(address@ =~= self.address@);
        DomainAddress { address }
    }
}

impl Default for DomainAddress {
    fn default() -> (r: Self)
        ensures
            r@ == Seq::<u8>::empty(),
    {
        DomainAddress { address: Vec::new() }
    }
}

impl DomainAddress {
    /// The address as text, which shows its length only.
    pub fn to_string(&self) -> (r: String)
        ensures
            r@ == "DomainAddress(len="@ + text::decimal(self@.len()) + ")"@,
    {
        let mut out = "DomainAddress(len=".to_owned();
        push_decimal(&mut out, self.address.len() as u64);
        out.append(")");
        out
    }

    /// The address that an endpoint of the transfer engine carries.
    pub fn from_bytes(bytes: &Bytes) -> (r: Self)
        ensures
            r@ == shared_bytes::bytes_content(*bytes),
    {
        DomainAddress { address: vstd::slice::slice_to_vec(bytes_as_slice(bytes)) }
    }

    /// The address in the form that the transfer engine takes.
    pub fn into_bytes(self) -> (r: Bytes)
        ensures
            shared_bytes::bytes_content(r) == self@,
    {
        bytes_from_vec(self.address)
    }
}

/// The addresses of a list, as plain values.
pub open spec fn address_views(list: Seq<DomainAddress>) -> Seq<Seq<u8>> {
    list.map_values(|a: DomainAddress| a@)
}

/// A copy of a list of addresses.
pub fn clone_addresses(list: &Vec<DomainAddress>) -> (r: Vec<DomainAddress>)
    ensures
        address_views(r@) == address_views(list@),
{
    let mut out: Vec<DomainAddress> = Vec::new();
    let mut i: usize = 0;
    while i < list.len()
        invariant
            i <= list@.len(),
            out@.len() == i,
            forall|k: int| 0 <= k < i ==> (#[trigger] out@[k])@ == list@[k]@,
        decreases list@.len() - i,
    {
        out.push(list[i].clone());
        i = i + 1;
    }
    assert(address_views(out@) =~= address_views(list@));
    out
}

/// What an [`RdmaCapability`] says, as plain values.
pub struct CapabilityView {
    pub enabled: bool,
    pub domain_addresses: Seq<Seq<u8>>,
    pub num_domains: usize,
}

/// RDMA capability that workers and clients advertise.
#[derive(Debug)]
pub struct RdmaCapability {
    /// Whether RDMA is enabled.
    pub enabled: bool,
    /// Domain addresses, one for each NIC.
    pub domain_addresses: Vec<DomainAddress>,
    /// Number of RDMA domains.
    pub num_domains: usize,
}

impl View for RdmaCapability {
    type V = CapabilityView;

    open spec fn view(&self) -> CapabilityView {
        CapabilityView {
            enabled: self.enabled,
            domain_addresses: address_views(self.domain_addresses@),
            num_domains: self.num_domains,
        }
    }
}

impl Clone for RdmaCapability {
    fn clone(&self) -> (r: Self)
        ensures
            r@ == self@,
    {
        RdmaCapability {
            enabled: self.enabled,
            domain_addresses: clone_addresses(&self.domain_addresses),
            num_domains: self.num_domains,
        }
    }
}

impl Default for RdmaCapability {
    fn default() -> (r: Self)
        ensures
            !r.enabled,
            r.domain_addresses@ == Seq::<DomainAddress>::empty(),
            r.num_domains == 0,
    {
        RdmaCapability { enabled: false, domain_addresses: Vec::new(), num_domains: 0 }
    }
}

impl RdmaCapability {
    /// A capability with one domain for each address.
    pub fn new(enabled: bool, domain_addresses: Vec<DomainAddress>) -> (r: Self)
        ensures
            r.enabled == enabled,
            r.domain_addresses == domain_addresses,
            r.num_domains == domain_addresses@.len(),
    {
        let num_domains = domain_addresses.len();
        RdmaCapability { enabled, domain_addresses, num_domains }
    }

    /// The capability of a node without RDMA.
    pub fn disabled() -> (r: Self)
        ensures
            !r.enabled,
            r.domain_addresses@ == Seq::<DomainAddress>::empty(),
            r.num_domains == 0,
    {
        RdmaCapability::default()
    }

    /// RDMA can be used: it is enabled and there is an address to reach.
    pub fn is_enabled(&self) -> (r: bool)
        ensures
            r == (self.enabled && self.domain_addresses@.len() > 0),
    {
        self.enabled && !self.domain_addresses.is_empty()
    }
}

/// Remote key of an RDMA memory region.
#[derive(Debug, Clone, Copy, PartialEq, Eq, Structural)]
pub struct RemoteKey {
    /// Key value.
    pub key: u64,
    /// Domain index.
    pub domain_idx: usize,
}

/// Domain address with the remote key to use there.
#[derive(Debug, PartialEq, Eq)]
pub struct AddressRkeyPair {
    /// Domain address.
    pub domain_address: DomainAddress,
    /// Remote key.
    pub rkey: u64,
}

impl View for AddressRkeyPair {
    type V = (Seq<u8>, u64);

    open spec fn view(&self) -> (Seq<u8>, u64) {
        (self.domain_address@, self.rkey)
    }
}

impl Clone for AddressRkeyPair {
    fn clone(&self) -> (r: Self)
        ensures
            r@ == self@,
    {
        AddressRkeyPair { domain_address: self.domain_address.clone(), rkey: self.rkey }
    }
}

/// An address and key as the transfer engine holds them, as plain values.
pub open spec fn engine_pair(p: (Bytes, u64)) -> (Seq<u8>, u64) {
    (shared_bytes::bytes_content(p.0), p.1)
}

/// The addresses and keys of the transfer engine's list, as plain values.
pub open spec fn engine_pairs(list: Seq<(Bytes, u64)>) -> Seq<(Seq<u8>, u64)> {
    list.map_values(|p: (Bytes, u64)| engine_pair(p))
}

impl AddressRkeyPair {
    /// The pair that the transfer engine gave.
    pub fn from_engine(pair: &(Bytes, u64)) -> (r: Self)
        ensures
            r@ == engine_pair(*pair),
    {
        AddressRkeyPair { domain_address: DomainAddress::from_bytes(&pair.0), rkey: pair.1 }
    }

    /// The pair in the form that the transfer engine takes.
    pub fn into_engine(self) -> (r: (Bytes, u64))
        ensures
            engine_pair(r) == self@,
    {
        (self.domain_address.into_bytes(), self.rkey)
    }
}

/// The pairs of a list, as plain values.
pub open spec fn pair_views(list: Seq<AddressRkeyPair>) -> Seq<(Seq<u8>, u64)> {
    list.map_values(|p: AddressRkeyPair| p@)
}

/// A copy of a list of pairs.
pub fn clone_pairs(list: &Vec<AddressRkeyPair>) -> (r: Vec<AddressRkeyPair>)
    ensures
        pair_views(r@) == pair_views(list@),
{
    let mut out: Vec<AddressRkeyPair> = Vec::new();
    let mut i: usize = 0;
    while i < list.len()
        invariant
            i <= list@.len(),
            out@.len() == i,
            forall|k: int| 0 <= k < i ==> (#[trigger] out@[k])@ == list@[k]@,
        decreases list@.len() - i,
    {
        out.push(list[i].clone());
        i = i + 1;
    }
    assert(pair_views(out@) =~= pair_views(list@));
    out
}

/// What a [`MemoryRegionDescriptor`] says, as plain values.
pub struct DescriptorView {
    pub ptr: u64,
    pub addr_rkey_list: Seq<(Seq<u8>, u64)>,
}

/// Memory region as a remote peer addresses it.
#[derive(Debug)]
pub struct MemoryRegionDescriptor {
    /// Memory address.
    pub ptr: u64,
    /// Address and key for each domain.
    pub addr_rkey_list: Vec<AddressRkeyPair>,
}

impl View for MemoryRegionDescriptor {
    type V = DescriptorView;

    open spec fn view(&self) -> DescriptorView {
        DescriptorView { ptr: self.ptr, addr_rkey_list: pair_views(self.addr_rkey_list@) }
    }
}

impl Clone for MemoryRegionDescriptor {
    fn clone(&self) -> (r: Self)
        ensures
            r@ == self@,
    {
        MemoryRegionDescriptor { ptr: self.ptr, addr_rkey_list: clone_pairs(&self.addr_rkey_list) }
    }
}

impl MemoryRegionDescriptor {
    pub fn new(ptr: u64, addr_rkey_list: Vec<AddressRkeyPair>) -> (r: Self)
        ensures
            r.ptr == ptr,
            r.addr_rkey_list == addr_rkey_list,
    {
        MemoryRegionDescriptor { ptr, addr_rkey_list }
    }

    /// The region that the transfer engine registered at `ptr`.
    pub fn from_engine(ptr: u64, addr_rkey_list: &Vec<(Bytes, u64)>) -> (r: Self)
        ensures
            r@ == (DescriptorView { ptr, addr_rkey_list: engine_pairs(addr_rkey_list@) }),
    {
        let mut pairs: Vec<AddressRkeyPair> = Vec::new();
        let mut i: usize = 0;
        while i < addr_rkey_list.len()
            invariant
                i <= addr_rkey_list@.len(),
                pairs@.len() == i,
                forall|k: int|
                    0 <= k < i ==> (#[trigger] pairs@[k])@ == engine_pair(addr_rkey_list@[k]),
            decreases addr_rkey_list@.len() - i,
        {
            pairs.push(AddressRkeyPair::from_engine(&addr_rkey_list[i]));
            i = i + 1;
        }
        assert(pair_views(pairs@) =~= engine_pairs(addr_rkey_list@));
        MemoryRegionDescriptor { ptr, addr_rkey_list: pairs }
    }

    /// The address and the list of the region in the form that the transfer engine takes.
    pub fn into_engine(self) -> (r: (u64, Vec<(Bytes, u64)>))
        ensures
            r.0 == self@.ptr,
            engine_pairs(r.1@) == self@.addr_rkey_list,
    {
        let ghost all = self.addr_rkey_list@;
        let mut pairs: Vec<(Bytes, u64)> = Vec::new();
        for pair in it: self.addr_rkey_list
            invariant
                it.seq() == all,
                pairs@.len() == it.index(),
                forall|k: int| 0 <= k < pairs@.len() ==> engine_pair(#[trigger] pairs@[k]) == all[k]@,
        {
            pairs.push(pair.into_engine());
        }
        assert(engine_pairs(pairs@) =~= pair_views(all));
        (self.ptr, pairs)
    }

    /// The domain addresses of the region, in order.
    pub fn domain_addresses(&self) -> (r: Vec<DomainAddress>)
        ensures
            address_views(r@) == self@.addr_rkey_list.map_values(|p: (Seq<u8>, u64)| p.0),
    {
        let mut out: Vec<DomainAddress> = Vec::new();
        let mut i: usize = 0;
        while i < self.addr_rkey_list.len()
            invariant
                i <= self.addr_rkey_list@.len(),
                out@.len() == i,
                forall|k: int|
                    0 <= k < i ==> (#[trigger] out@[k])@
                        == self.addr_rkey_list@[k].domain_address@,
            decreases self.addr_rkey_list@.len() - i,
        {
            out.push(self.addr_rkey_list[i].domain_address.clone());
            i = i + 1;
        }
        assert(address_views(out@) =~= self@.addr_rkey_list.map_values(
            |p: (Seq<u8>, u64)| p.0,
        ));
        out
    }
}

/// Handle under which the transfer engine knows a registered memory region.
#[derive(Debug, Clone, Copy, PartialEq, Eq, Structural)]
pub struct MemoryRegionHandle {
    pub id: u64,
}

/// RDMA transfer statistics.
#[derive(Debug, Clone, Copy, PartialEq, Eq, Structural)]
pub struct RdmaStats {
    pub transfers_total: u64,
    pub bytes_transferred: u64,
    pub fallback_to_tcp: u64,
    pub transfer_failures: u64,
    pub pool_allocations: u64,
    pub pool_deallocations: u64,
    pub pool_exhausted: u64,
}

/// Statistics before anything happened.
pub open spec fn no_stats() -> RdmaStats {
    RdmaStats {
        transfers_total: 0,
        bytes_transferred: 0,
        fallback_to_tcp: 0,
        transfer_failures: 0,
        pool_allocations: 0,
        pool_deallocations: 0,
        pool_exhausted: 0,
    }
}

impl Default for RdmaStats {
    fn default() -> (r: Self)
        ensures
            r == no_stats(),
    {
        RdmaStats {
            transfers_total: 0,
            bytes_transferred: 0,
            fallback_to_tcp: 0,
            transfer_failures: 0,
            pool_allocations: 0,
            pool_deallocations: 0,
            pool_exhausted: 0,
        }
    }
}

impl RdmaStats {
    pub fn new() -> (r: Self)
        ensures
            r == no_stats(),
    {
        RdmaStats::default()
    }
}

/// A capability has one domain for each address. It can be used exactly where it is enabled and
/// there is an address; a node without RDMA has neither.
pub proof fn law_capability_needs_an_address(
    enabled: bool,
    addresses: Vec<DomainAddress>,
    made: RdmaCapability,
    usable: bool,
    off: RdmaCapability,
    off_usable: bool,
)
    requires
        call_ensures(RdmaCapability::new, (enabled, addresses), made),
        call_ensures(RdmaCapability::is_enabled, (&made,), usable),
        call_ensures(RdmaCapability::disabled, (), off),
        call_ensures(RdmaCapability::is_enabled, (&off,), off_usable),
    ensures
        made.enabled == enabled,
        made.domain_addresses == addresses,
        made.num_domains == addresses@.len(),
        usable <==> enabled && addresses@.len() > 0,
        !off.enabled && off.num_domains == 0 && off.domain_addresses@.len() == 0,
        !off_usable,
{
}

/// Copies are of the same addresses and keys, in order.
pub proof fn law_copies_are_alike(
    addresses: Vec<DomainAddress>,
    same_addresses: Vec<DomainAddress>,
    pairs: Vec<AddressRkeyPair>,
    same_pairs: Vec<AddressRkeyPair>,
)
    requires
        call_ensures(clone_addresses, (&addresses,), same_addresses),
        call_ensures(clone_pairs, (&pairs,), same_pairs),
    ensures
        same_addresses@.len() == addresses@.len(),
        forall|i: int|
            0 <= i < addresses@.len() ==> (#[trigger] same_addresses@[i]).address@
                == addresses@[i].address@,
        same_pairs@.len() == pairs@.len(),
        forall|i: int|
            0 <= i < pairs@.len() ==> (#[trigger] same_pairs@[i]).rkey == pairs@[i].rkey
                && same_pairs@[i].domain_address.address@ == pairs@[i].domain_address.address@,
{
    assert(address_views(same_addresses@).len() == same_addresses@.len());
    assert(address_views(addresses@).len() == addresses@.len());
    assert(pair_views(same_pairs@).len() == same_pairs@.len());
    assert(pair_views(pairs@).len() == pairs@.len());
    assert forall|i: int| 0 <= i < addresses@.len() implies (
    #[trigger] same_addresses@[i]).address@ == addresses@[i].address@ by {
        assert(address_views(same_addresses@)[i] == same_addresses@[i]@);
        assert(address_views(addresses@)[i] == addresses@[i]@);
    }
    assert forall|i: int| 0 <= i < pairs@.len() implies (#[trigger] same_pairs@[i]).rkey
        == pairs@[i].rkey && same_pairs@[i].domain_address.address@
        == pairs@[i].domain_address.address@ by {
        assert(pair_views(same_pairs@)[i] == same_pairs@[i]@);
        assert(pair_views(pairs@)[i] == pairs@[i]@);
    }
}

/// An address that is handed to the transfer engine, and taken from it again, is the same.
pub proof fn law_address_through_engine(
    address: DomainAddress,
    bytes: Bytes,
    back: DomainAddress,
)
    requires
        call_ensures(DomainAddress::into_bytes, (address,), bytes),
        call_ensures(DomainAddress::from_bytes, (&bytes,), back),
    ensures
        shared_bytes::bytes_content(bytes) == address.address@,
        back.address@ == address.address@,
{
    assert(back@ == back.address@);
}

/// A descriptor that is handed to the transfer engine, and taken from it again, is of the same
/// region: its address, and each domain's address and key, in order.
pub proof fn law_descriptor_through_engine(
    d: MemoryRegionDescriptor,
    engine: (u64, Vec<(Bytes, u64)>),
    back: MemoryRegionDescriptor,
    addresses: Vec<DomainAddress>,
)
    requires
        call_ensures(MemoryRegionDescriptor::into_engine, (d,), engine),
        call_ensures(MemoryRegionDescriptor::from_engine, (engine.0, &engine.1), back),
        call_ensures(MemoryRegionDescriptor::domain_addresses, (&d,), addresses),
    ensures
        engine.0 == d.ptr && back.ptr == d.ptr,
        engine.1@.len() == d.addr_rkey_list@.len(),
        back.addr_rkey_list@.len() == d.addr_rkey_list@.len(),
        addresses@.len() == d.addr_rkey_list@.len(),
        forall|i: int|
            0 <= i < d.addr_rkey_list@.len() ==> (#[trigger] back.addr_rkey_list@[i]).rkey
                == d.addr_rkey_list@[i].rkey && back.addr_rkey_list@[i].domain_address.address@
                == d.addr_rkey_list@[i].domain_address.address@,
        forall|i: int|
            0 <= i < d.addr_rkey_list@.len() ==> (#[trigger] addresses@[i]).address@
                == d.addr_rkey_list@[i].domain_address.address@,
{
    assert(back@.ptr == back.ptr && d@.ptr == d.ptr);
    assert(engine_pairs(engine.1@).len() == engine.1@.len());
    assert(d@.addr_rkey_list.len() == d.addr_rkey_list@.len());
    assert(back@.addr_rkey_list.len() == back.addr_rkey_list@.len());
    assert(address_views(addresses@).len() == addresses@.len());
    assert forall|i: int| 0 <= i < d.addr_rkey_list@.len() implies (
    #[trigger] back.addr_rkey_list@[i]).rkey == d.addr_rkey_list@[i].rkey
        && back.addr_rkey_list@[i].domain_address.address@
        == d.addr_rkey_list@[i].domain_address.address@ by {
        assert(back@.addr_rkey_list[i] == back.addr_rkey_list@[i]@);
        assert(d@.addr_rkey_list[i] == d.addr_rkey_list@[i]@);
    }
    assert forall|i: int| 0 <= i < d.addr_rkey_list@.len() implies (
    #[trigger] addresses@[i]).address@ == d.addr_rkey_list@[i].domain_address.address@ by {
        assert(address_views(addresses@)[i] == addresses@[i]@);
        assert(d@.addr_rkey_list[i] == d.addr_rkey_list@[i]@);
    }
}

/// Statistics start at zero.
pub proof fn law_statistics_start_at_zero(r: RdmaStats)
    requires
        call_ensures(RdmaStats::new, (), r),
    ensures
        r.transfers_total == 0 && r.bytes_transferred == 0 && r.fallback_to_tcp == 0
            && r.transfer_failures == 0 && r.pool_allocations == 0 && r.pool_deallocations == 0
            && r.pool_exhausted == 0,
{
}

/// The text of an address shows its length; copies of a capability and of a descriptor say the
/// same as what they were made of.
pub proof fn law_values_are_copied(
    address: DomainAddress,
    text: String,
    capability: RdmaCapability,
    same: RdmaCapability,
    descriptor: MemoryRegionDescriptor,
    alike: MemoryRegionDescriptor,
)
    requires
        call_ensures(DomainAddress::to_string, (&address,), text),
        call_ensures(<RdmaCapability as Clone>::clone, (&capability,), same),
        call_ensures(<MemoryRegionDescriptor as Clone>::clone, (&descriptor,), alike),
    ensures
        text@ == "DomainAddress(len="@ + text::decimal(address.address@.len()) + ")"@,
        same.enabled == capability.enabled,
        same.num_domains == capability.num_domains,
        same.domain_addresses@.len() == capability.domain_addresses@.len(),
        forall|i: int|
            0 <= i < capability.domain_addresses@.len() ==> (
            #[trigger] same.domain_addresses@[i]).address@
                == capability.domain_addresses@[i].address@,
        alike.ptr == descriptor.ptr,
        alike.addr_rkey_list@.len() == descriptor.addr_rkey_list@.len(),
        forall|i: int|
            0 <= i < descriptor.addr_rkey_list@.len() ==> (
            #[trigger] alike.addr_rkey_list@[i]).rkey == descriptor.addr_rkey_list@[i].rkey
                && alike.addr_rkey_list@[i].domain_address.address@
                == descriptor.addr_rkey_list@[i].domain_address.address@,
{
    assert(same@.enabled == same.enabled && same@.num_domains == same.num_domains);
    assert(same@.domain_addresses.len() == same.domain_addresses@.len());
    assert(capability@.domain_addresses.len() == capability.domain_addresses@.len());
    assert(alike@.ptr == alike.ptr);
    assert(alike@.addr_rkey_list.len() == alike.addr_rkey_list@.len());
    assert(descriptor@.addr_rkey_list.len() == descriptor.addr_rkey_list@.len());
    assert forall|i: int| 0 <= i < capability.domain_addresses@.len() implies (
    #[trigger] same.domain_addresses@[i]).address@
        == capability.domain_addresses@[i].address@ by {
        assert(same@.domain_addresses[i] == same.domain_addresses@[i]@);
        assert(capability@.domain_addresses[i] == capability.domain_addresses@[i]@);
    }
    assert forall|i: int| 0 <= i < descriptor.addr_rkey_list@.len() implies (
    #[trigger] alike.addr_rkey_list@[i]).rkey == descriptor.addr_rkey_list@[i].rkey
        && alike.addr_rkey_list@[i].domain_address.address@
        == descriptor.addr_rkey_list@[i].domain_address.address@ by {
        assert(alike@.addr_rkey_list[i] == alike.addr_rkey_list@[i]@);
        assert(descriptor@.addr_rkey_list[i] == descriptor.addr_rkey_list@[i]@);
    }
}

} // verus!
