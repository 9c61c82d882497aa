//! Conversions between the RDMA types and their wire messages.
//!
//! Where a conversion rebuilds a list, its result is fixed by its view: such a `from` says so in
//! an `ensures` of its own, and has no spec function for the value itself.

use crate::proto;
use crate::proto::{
    RdmaAddressRkeyPairProto, RdmaCapabilityProto, RdmaDomainAddressProto,
    RdmaMemoryRegionDescriptorProto,
};
use crate::types;
use crate::types::{AddressRkeyPair, DomainAddress, MemoryRegionDescriptor, RdmaCapability};
use vstd::prelude::*;

verus! {

/// A capability as it goes on the wire; the number of domains is cut to 32 bits.
pub open spec fn capability_to_wire(c: types::CapabilityView) -> proto::CapabilityProtoView {
    proto::CapabilityProtoView {
        enabled: c.enabled,
        domain_addresses: c.domain_addresses,
        num_domains: c.num_domains as u32,
    }
}

/// A capability as it comes off the wire.
pub open spec fn capability_from_wire(c: proto::CapabilityProtoView) -> types::CapabilityView {
    types::CapabilityView {
        enabled: c.enabled,
        domain_addresses: c.domain_addresses,
        num_domains: c.num_domains as usize,
    }
}

/// A pair as it goes on the wire.
pub open spec fn pair_to_wire(p: (Seq<u8>, u64)) -> (Option<Seq<u8>>, u64) {
    (Some(p.0), p.1)
}

/// A pair as it comes off the wire; a missing address is the empty one.
pub open spec fn pair_from_wire(p: (Option<Seq<u8>>, u64)) -> (Seq<u8>, u64) {
    (
        match p.0 {
            Some(a) => a,
            None => Seq::<u8>::empty(),
        },
        p.1,
    )
}

/// A descriptor as it goes on the wire.
pub open spec fn descriptor_to_wire(d: types::DescriptorView) -> proto::DescriptorProtoView {
    proto::DescriptorProtoView {
        ptr: d.ptr,
        addr_rkey_list: d.addr_rkey_list.map_values(|p: (Seq<u8>, u64)| pair_to_wire(p)),
    }
}

/// A descriptor as it comes off the wire.
pub open spec fn descriptor_from_wire(d: proto::DescriptorProtoView) -> types::DescriptorView {
    types::DescriptorView {
        ptr: d.ptr,
        addr_rkey_list: d.addr_rkey_list.map_values(
            |p: (Option<Seq<u8>>, u64)| pair_from_wire(p),
        ),
    }
}

impl From<DomainAddress> for RdmaDomainAddressProto {
    fn from(addr: DomainAddress) -> (r: Self) {
        RdmaDomainAddressProto { address: addr.address }
    }
}

impl vstd::std_specs::convert::FromSpecImpl<DomainAddress> for RdmaDomainAddressProto {
    open spec fn obeys_from_spec() -> bool {
        true
    }

    open spec fn from_spec(addr: DomainAddress) -> Self {
        RdmaDomainAddressProto { address: addr.address }
    }
}

impl From<RdmaDomainAddressProto> for DomainAddress {
    fn from(message: RdmaDomainAddressProto) -> (r: Self) {
        DomainAddress { address: message.address }
    }
}

impl vstd::std_specs::convert::FromSpecImpl<RdmaDomainAddressProto> for DomainAddress {
    open spec fn obeys_from_spec() -> bool {
        true
    }

    open spec fn from_spec(message: RdmaDomainAddressProto) -> Self {
        DomainAddress { address: message.address }
    }
}

fn addresses_to_wire(list: Vec<DomainAddress>) -> (r: Vec<RdmaDomainAddressProto>)
    ensures
        proto::address_views(r@) == types::address_views(list@),
{
    let ghost all = list@;
    let mut out: Vec<RdmaDomainAddressProto> = Vec::new();
    for addr in it: list
        invariant
            it.seq() == all,
            out@.len() == it.index(),
            forall|k: int| 0 <= k < out@.len() ==> (#[trigger] out@[k])@ == all[k]@,
    {
        out.push(RdmaDomainAddressProto::from(addr));
    }
    assert(proto::address_views(out@) =~= types::address_views(all));
    out
}

fn addresses_from_wire(list: Vec<RdmaDomainAddressProto>) -> (r: Vec<DomainAddress>)
    ensures
        types::address_views(r@) == proto::address_views(list@),
{
    let ghost all = list@;
    let mut out: Vec<DomainAddress> = Vec::new();
    for addr in it: list
        invariant
            it.seq() == all,
            out@.len() == it.index(),
            forall|k: int| 0 <= k < out@.len() ==> (#[trigger] out@[k])@ == all[k]@,
    {
        out.push(DomainAddress::from(addr));
    }
    assert(types::address_views(out@) =~= proto::address_views(all));
    out
}

impl From<RdmaCapability> for RdmaCapabilityProto {
    fn from(cap: RdmaCapability) -> (r: Self)
        ensures
            r@ == capability_to_wire(cap@),
    {
        RdmaCapabilityProto {
            enabled: cap.enabled,
            domain_addresses: addresses_to_wire(cap.domain_addresses),
            num_domains: cap.num_domains as u32,
        }
    }
}

impl vstd::std_specs::convert::FromSpecImpl<RdmaCapability> for RdmaCapabilityProto {
    open spec fn obeys_from_spec() -> bool {
        false
    }

    open spec fn from_spec(cap: RdmaCapability) -> Self {
        arbitrary()
    }
}

impl From<RdmaCapabilityProto> for RdmaCapability {
    fn from(message: RdmaCapabilityProto) -> (r: Self)
        ensures
            r@ == capability_from_wire(message@),
    {
        RdmaCapability {
            enabled: message.enabled,
            domain_addresses: addresses_from_wire(message.domain_addresses),
            num_domains: message.num_domains as usize,
        }
    }
}

impl vstd::std_specs::convert::FromSpecImpl<RdmaCapabilityProto> for RdmaCapability {
    open spec fn obeys_from_spec() -> bool {
        false
    }

    open spec fn from_spec(message: RdmaCapabilityProto) -> Self {
        arbitrary()
    }
}

impl From<AddressRkeyPair> for RdmaAddressRkeyPairProto {
    fn from(pair: AddressRkeyPair) -> (r: Self) {
        RdmaAddressRkeyPairProto {
            domain_address: Some(RdmaDomainAddressProto::from(pair.domain_address)),
            rkey: pair.rkey,
        }
    }
}

impl vstd::std_specs::convert::FromSpecImpl<AddressRkeyPair> for RdmaAddressRkeyPairProto {
    open spec fn obeys_from_spec() -> bool {
        true
    }

    open spec fn from_spec(pair: AddressRkeyPair) -> Self {
        RdmaAddressRkeyPairProto {
            domain_address: Some(
                RdmaDomainAddressProto { address: pair.domain_address.address },
            ),
            rkey: pair.rkey,
        }
    }
}

impl From<RdmaAddressRkeyPairProto> for AddressRkeyPair {
    fn from(message: RdmaAddressRkeyPairProto) -> (r: Self)
        ensures
            r@ == pair_from_wire(message@),
    {
        let domain_address = match message.domain_address {
            Some(a) => DomainAddress::from(a),
            None => DomainAddress::default(),
        };
        AddressRkeyPair { domain_address, rkey: message.rkey }
    }
}

impl vstd::std_specs::convert::FromSpecImpl<RdmaAddressRkeyPairProto> for AddressRkeyPair {
    open spec fn obeys_from_spec() -> bool {
        false
    }

    open spec fn from_spec(message: RdmaAddressRkeyPairProto) -> Self {
        arbitrary()
    }
}

impl From<MemoryRegionDescriptor> for RdmaMemoryRegionDescriptorProto {
    fn from(desc: MemoryRegionDescriptor) -> (r: Self)
        ensures
            r@ == descriptor_to_wire(desc@),
    {
        let ghost all = desc.addr_rkey_list@;
        let mut out: Vec<RdmaAddressRkeyPairProto> = Vec::new();
        for pair in it: desc.addr_rkey_list
            invariant
                it.seq() == all,
                out@.len() == it.index(),
                forall|k: int|
                    0 <= k < out@.len() ==> (#[trigger] out@[k])@ == pair_to_wire(all[k]@),
        {
            out.push(RdmaAddressRkeyPairProto::from(pair));
        }
        let r = RdmaMemoryRegionDescriptorProto { ptr: desc.ptr, addr_rkey_list: out };
        assert(r@.addr_rkey_list =~= descriptor_to_wire(desc@).addr_rkey_list);
        r
    }
}

impl vstd::std_specs::convert::FromSpecImpl<MemoryRegionDescriptor> for RdmaMemoryRegionDescriptorProto {
    open spec fn obeys_from_spec() -> bool {
        false
    }

    open spec fn from_spec(desc: MemoryRegionDescriptor) -> Self {
        arbitrary()
    }
}

impl From<RdmaMemoryRegionDescriptorProto> for MemoryRegionDescriptor {
    fn from(message: RdmaMemoryRegionDescriptorProto) -> (r: Self)
        ensures
            r@ == descriptor_from_wire(message@),
    {
        let ghost all = message.addr_rkey_list@;
        let mut out: Vec<AddressRkeyPair> = Vec::new();
        for pair in it: message.addr_rkey_list
            invariant
                it.seq() == all,
                out@.len() == it.index(),
                forall|k: int|
                    0 <= k < out@.len() ==> (#[trigger] out@[k])@ == pair_from_wire(all[k]@),
        {
            out.push(AddressRkeyPair::from(pair));
        }
        let r = MemoryRegionDescriptor { ptr: message.ptr, addr_rkey_list: out };
        assert(r@.addr_rkey_list =~= descriptor_from_wire(message@).addr_rkey_list);
        r
    }
}

impl vstd::std_specs::convert::FromSpecImpl<RdmaMemoryRegionDescriptorProto> for MemoryRegionDescriptor {
    open spec fn obeys_from_spec() -> bool {
        false
    }

    open spec fn from_spec(message: RdmaMemoryRegionDescriptorProto) -> Self {
        arbitrary()
    }
}

/// A capability comes off the wire as it went on, unless it counts more domains than 32 bits
/// hold.
pub proof fn law_capability_round_trip(c: types::CapabilityView)
    requires
        c.num_domains <= u32::MAX,
    ensures
        capability_from_wire(capability_to_wire(c)) == c,
{
}

/// A memory region descriptor comes off the wire as it went on.
pub proof fn law_descriptor_round_trip(d: types::DescriptorView)
    ensures
        descriptor_from_wire(descriptor_to_wire(d)) == d,
{
    assert(descriptor_from_wire(descriptor_to_wire(d)).addr_rkey_list =~= d.addr_rkey_list);
}

/// An address comes off the wire as it went on.
pub proof fn law_address_round_trip(a: DomainAddress)
    ensures
        <DomainAddress as vstd::std_specs::convert::FromSpec<RdmaDomainAddressProto>>::from_spec(
            <RdmaDomainAddressProto as vstd::std_specs::convert::FromSpec<
                DomainAddress,
            >>::from_spec(a),
        ) == a,
{
}

/// A capability that went over the wire says the same: whether RDMA is enabled, and each address,
/// in order. The number of domains arrives where 32 bits hold it.
pub proof fn law_capability_arrives(
    sent: RdmaCapability,
    message: RdmaCapabilityProto,
    got: RdmaCapability,
)
    requires
        call_ensures(<RdmaCapabilityProto as From<RdmaCapability>>::from, (sent,), message),
        call_ensures(<RdmaCapability as From<RdmaCapabilityProto>>::from, (message,), got),
    ensures
        message.enabled == sent.enabled && got.enabled == sent.enabled,
        got.domain_addresses@.len() == sent.domain_addresses@.len(),
        message.domain_addresses@.len() == sent.domain_addresses@.len(),
        forall|i: int|
            0 <= i < sent.domain_addresses@.len() ==> (
            #[trigger] got.domain_addresses@[i]).address@ == sent.domain_addresses@[i].address@,
        forall|i: int|
            0 <= i < sent.domain_addresses@.len() ==> (
            #[trigger] message.domain_addresses@[i]).address@
                == sent.domain_addresses@[i].address@,
        sent.num_domains <= u32::MAX ==> got.num_domains == sent.num_domains
            && message.num_domains == sent.num_domains,
{
    assert(message@.domain_addresses.len() == message.domain_addresses@.len());
    assert(got@.domain_addresses.len() == got.domain_addresses@.len());
    assert(sent@.domain_addresses.len() == sent.domain_addresses@.len());
    assert forall|i: int| 0 <= i < sent.domain_addresses@.len() implies (
    #[trigger] got.domain_addresses@[i]).address@ == sent.domain_addresses@[i].address@ by {
        assert(got@.domain_addresses[i] == got.domain_addresses@[i]@);
        assert(sent@.domain_addresses[i] == sent.domain_addresses@[i]@);
    }
    assert forall|i: int| 0 <= i < sent.domain_addresses@.len() implies (
    #[trigger] message.domain_addresses@[i]).address@ == sent.domain_addresses@[i].address@ by {
        assert(message@.domain_addresses[i] == message.domain_addresses@[i]@);
        assert(sent@.domain_addresses[i] == sent.domain_addresses@[i]@);
    }
}

/// A descriptor that went over the wire says the same: its address, and each domain's address and
/// key, in order.
pub proof fn law_descriptor_arrives(
    sent: MemoryRegionDescriptor,
    message: RdmaMemoryRegionDescriptorProto,
    got: MemoryRegionDescriptor,
)
    requires
        call_ensures(
            <RdmaMemoryRegionDescriptorProto as From<MemoryRegionDescriptor>>::from,
            (sent,),
            message,
        ),
        call_ensures(
            <MemoryRegionDescriptor as From<RdmaMemoryRegionDescriptorProto>>::from,
            (message,),
            got,
        ),
    ensures
        message.ptr == sent.ptr && got.ptr == sent.ptr,
        message.addr_rkey_list@.len() == sent.addr_rkey_list@.len(),
        got.addr_rkey_list@.len() == sent.addr_rkey_list@.len(),
        forall|i: int|
            0 <= i < sent.addr_rkey_list@.len() ==> (#[trigger] got.addr_rkey_list@[i]).rkey
                == sent.addr_rkey_list@[i].rkey && got.addr_rkey_list@[i].domain_address.address@
                == sent.addr_rkey_list@[i].domain_address.address@,
{
    assert(message@.ptr == message.ptr && got@.ptr == got.ptr && sent@.ptr == sent.ptr);
    assert(message@.addr_rkey_list.len() == message.addr_rkey_list@.len());
    assert(got@.addr_rkey_list.len() == got.addr_rkey_list@.len());
    assert(sent@.addr_rkey_list.len() == sent.addr_rkey_list@.len());
    law_descriptor_round_trip(sent@);
    assert forall|i: int| 0 <= i < sent.addr_rkey_list@.len() implies (
    #[trigger] got.addr_rkey_list@[i]).rkey == sent.addr_rkey_list@[i].rkey
        && got.addr_rkey_list@[i].domain_address.address@
        == sent.addr_rkey_list@[i].domain_address.address@ by {
        assert(got@.addr_rkey_list[i] == got.addr_rkey_list@[i]@);
        assert(sent@.addr_rkey_list[i] == sent.addr_rkey_list@[i]@);
    }
}

/// A pair off the wire has its key, and the address that came along; where none came it is empty.
pub proof fn law_pair_arrives(message: RdmaAddressRkeyPairProto, got: AddressRkeyPair)
    requires
        call_ensures(<AddressRkeyPair as From<RdmaAddressRkeyPairProto>>::from, (message,), got),
    ensures
        got.rkey == message.rkey,
        message.domain_address matches Some(a) ==> got.domain_address.address@ == a.address@,
        message.domain_address is None ==> got.domain_address.address@.len() == 0,
{
    assert(got@ == (got.domain_address.address@, got.rkey));
}

} // verus!
