//! Workers, blocks and the client's view of the cluster.

use crate::conversions;
use crate::proto;
use crate::proto::{RdmaCapabilityProto, WorkerAddressProto};
use crate::types;
use crate::types::RdmaCapability;
use vstd::prelude::*;

verus! {

/// What a [`WorkerAddress`] says, as plain values.
pub struct WorkerAddressView {
    pub worker_id: u32,
    pub hostname: Seq<char>,
    pub ip_addr: Seq<char>,
    pub rpc_port: u32,
    pub web_port: u32,
    pub rdma_capability: Option<types::CapabilityView>,
}

impl WorkerAddressView {
    /// The two addresses name the same worker: they agree in everything but the capability
    /// that was advertised.
    pub open spec fn same_worker(self, other: WorkerAddressView) -> bool {
        &&& self.worker_id == other.worker_id
        &&& self.hostname == other.hostname
        &&& self.ip_addr == other.ip_addr
        &&& self.rpc_port == other.rpc_port
        &&& self.web_port == other.web_port
    }

    /// The worker advertises RDMA and an address to reach it by.
    pub open spec fn supports_rdma(self) -> bool {
        match self.rdma_capability {
            Some(c) => c.enabled && c.domain_addresses.len() > 0,
            None => false,
        }
    }
}

/// Where a worker can be reached.
#[derive(Debug)]
pub struct WorkerAddress {
    pub worker_id: u32,
    pub hostname: String,
    pub ip_addr: String,
    pub rpc_port: u32,
    pub web_port: u32,
    /// RDMA capability, where the worker advertises one.
    pub rdma_capability: Option<RdmaCapability>,
}

impl View for WorkerAddress {
    type V = WorkerAddressView;

    open spec fn view(&self) -> WorkerAddressView {
        WorkerAddressView {
            worker_id: self.worker_id,
            hostname: self.hostname@,
            ip_addr: self.ip_addr@,
            rpc_port: self.rpc_port,
            web_port: self.web_port,
            rdma_capability: match self.rdma_capability {
                Some(c) => Some(c@),
                None => None,
            },
        }
    }
}

impl Clone for WorkerAddress {
    fn clone(&self) -> (r: Self)
        ensures
            r@ == self@,
    {
        WorkerAddress {
            worker_id: self.worker_id,
            hostname: self.hostname.clone(),
            ip_addr: self.ip_addr.clone(),
            rpc_port: self.rpc_port,
            web_port: self.web_port,
            rdma_capability: match &self.rdma_capability {
                Some(c) => Some(c.clone()),
                None => None,
            },
        }
    }
}

impl WorkerAddress {
    /// A worker that advertises no RDMA capability.
    pub fn new(worker_id: u32, hostname: &str, ip_addr: &str, rpc_port: u32, web_port: u32) -> (r:
        Self)
        ensures
            r@ == (WorkerAddressView {
                worker_id,
                hostname: hostname@,
                ip_addr: ip_addr@,
                rpc_port,
                web_port,
                rdma_capability: None,
            }),
    {
        WorkerAddress {
            worker_id,
            hostname: hostname.to_owned(),
            ip_addr: ip_addr.to_owned(),
            rpc_port,
            web_port,
            rdma_capability: None,
        }
    }

    /// The worker advertises RDMA and an address to reach it by.
    pub fn supports_rdma(&self) -> (r: bool)
        ensures
            r == self@.supports_rdma(),
    {
        match &self.rdma_capability {
            Some(c) => c.is_enabled(),
            None => false,
        }
    }

    /// The two addresses name the same worker.
    pub fn same_worker(&self, other: &WorkerAddress) -> (r: bool)
        ensures
            r == self@.same_worker(other@),
    {
        self.worker_id == other.worker_id && self.hostname == other.hostname && self.ip_addr
            == other.ip_addr && self.rpc_port == other.rpc_port && self.web_port
            == other.web_port
    }
}

/// The address of no worker.
pub open spec fn nowhere() -> WorkerAddressView {
    WorkerAddressView {
        worker_id: 0,
        hostname: ""@,
        ip_addr: ""@,
        rpc_port: 0,
        web_port: 0,
        rdma_capability: None,
    }
}

/// A worker address as it goes on the wire.
pub open spec fn worker_to_wire(w: WorkerAddressView) -> proto::WorkerAddressProtoView {
    proto::WorkerAddressProtoView {
        worker_id: w.worker_id,
        hostname: w.hostname,
        ip_addr: w.ip_addr,
        rpc_port: w.rpc_port,
        web_port: w.web_port,
        rdma_capability: match w.rdma_capability {
            Some(c) => Some(conversions::capability_to_wire(c)),
            None => None,
        },
    }
}

/// A worker address as it comes off the wire.
pub open spec fn worker_from_wire(w: proto::WorkerAddressProtoView) -> WorkerAddressView {
    WorkerAddressView {
        worker_id: w.worker_id,
        hostname: w.hostname,
        ip_addr: w.ip_addr,
        rpc_port: w.rpc_port,
        web_port: w.web_port,
        rdma_capability: match w.rdma_capability {
            Some(c) => Some(conversions::capability_from_wire(c)),
            None => None,
        },
    }
}

/// Conversions of cluster state to and from wire messages.
pub struct ProtoUtils {}

impl ProtoUtils {
    pub fn worker_address_to_pb(addr: &WorkerAddress) -> (r: WorkerAddressProto)
        ensures
            r@ == worker_to_wire(addr@),
    {
        let copy = addr.clone();
        WorkerAddressProto {
            worker_id: copy.worker_id,
            hostname: copy.hostname,
            ip_addr: copy.ip_addr,
            rpc_port: copy.rpc_port,
            web_port: copy.web_port,
            rdma_capability: match copy.rdma_capability {
                Some(c) => Some(RdmaCapabilityProto::from(c)),
                None => None,
            },
        }
    }

    pub fn worker_address_from_pb(message: &WorkerAddressProto) -> (r: WorkerAddress)
        ensures
            r@ == worker_from_wire(message@),
    {
        WorkerAddress {
            worker_id: message.worker_id,
            hostname: message.hostname.clone(),
            ip_addr: message.ip_addr.clone(),
            rpc_port: message.rpc_port,
            web_port: message.web_port,
            rdma_capability: match &message.rdma_capability {
                Some(c) => Some(RdmaCapability::from(c.clone())),
                None => None,
            },
        }
    }
}

/// A worker address comes off the wire as it went on, unless its capability counts more
/// domains than 32 bits hold.
pub proof fn law_worker_address_round_trip(w: WorkerAddressView)
    requires
        w.rdma_capability matches Some(c) ==> c.num_domains <= u32::MAX,
    ensures
        worker_from_wire(worker_to_wire(w)) == w,
{
    if let Some(c) = w.rdma_capability {
        conversions::law_capability_round_trip(c);
    }
}

/// A block of a file.
#[derive(Debug, Clone, Copy, PartialEq, Eq, Structural)]
pub struct ExtendedBlock {
    pub id: i64,
    pub len: i64,
    /// The block was allocated without data being written.
    pub has_alloc_opts: bool,
}

/// A block with the workers that hold a replica.
#[derive(Debug)]
pub struct LocatedBlock {
    pub block: ExtendedBlock,
    pub locs: Vec<WorkerAddress>,
}

/// Settings of the client.
#[derive(Debug, Clone, Copy, PartialEq, Eq, Structural)]
pub struct ClientConf {
    /// Read blocks of a worker on the same host from its files.
    pub short_circuit: bool,
    pub read_chunk_size: usize,
    pub enable_read_ahead: bool,
    pub read_ahead_len: i64,
    pub drop_cache_len: i64,
}

/// What the read path knows of the client it runs in.
#[derive(Debug)]
pub struct FsContext {
    pub conf: ClientConf,
    /// Host name of the client.
    pub hostname: String,
    /// RDMA was set up on this client.
    pub has_rdma: bool,
    /// The client's RDMA manager is at hand.
    pub has_rdma_manager: bool,
    /// Numbers of the workers that failed on this client.
    pub failed_workers: Vec<u32>,
}

impl FsContext {
    /// The worker runs on the client's host.
    pub open spec fn is_local(self, w: WorkerAddressView) -> bool {
        w.hostname == self.hostname@
    }

    /// The worker runs on the client's host.
    pub fn is_local_worker(&self, worker: &WorkerAddress) -> (r: bool)
        ensures
            r == self.is_local(worker@),
    {
        worker.hostname == self.hostname
    }
}

/// A worker address is made of the parts that were given and advertises nothing; a copy of an
/// address has all of its parts.
pub proof fn law_worker_address_has_its_parts(
    worker_id: u32,
    hostname: &str,
    ip_addr: &str,
    rpc_port: u32,
    web_port: u32,
    r: WorkerAddress,
    copy: WorkerAddress,
)
    requires
        call_ensures(WorkerAddress::new, (worker_id, hostname, ip_addr, rpc_port, web_port), r),
        call_ensures(<WorkerAddress as Clone>::clone, (&r,), copy),
    ensures
        r.worker_id == worker_id && copy.worker_id == worker_id,
        r.hostname@ == hostname@ && copy.hostname@ == hostname@,
        r.ip_addr@ == ip_addr@ && copy.ip_addr@ == ip_addr@,
        r.rpc_port == rpc_port && copy.rpc_port == rpc_port,
        r.web_port == web_port && copy.web_port == web_port,
        r.rdma_capability is None && copy.rdma_capability is None,
{
    assert(r@.worker_id == r.worker_id && copy@.worker_id == copy.worker_id);
    assert(r@.hostname == r.hostname@ && copy@.hostname == copy.hostname@);
    assert(r@.ip_addr == r.ip_addr@ && copy@.ip_addr == copy.ip_addr@);
    assert(r@.rpc_port == r.rpc_port && copy@.rpc_port == copy.rpc_port);
    assert(r@.web_port == r.web_port && copy@.web_port == copy.web_port);
}

/// A worker address that went over the wire names the same worker, and offers RDMA exactly where
/// it did: each part arrives, and so does each address that is advertised.
pub proof fn law_worker_address_arrives(
    sent: WorkerAddress,
    message: WorkerAddressProto,
    got: WorkerAddress,
    offered: bool,
    offers: bool,
    same: bool,
)
    requires
        call_ensures(ProtoUtils::worker_address_to_pb, (&sent,), message),
        call_ensures(ProtoUtils::worker_address_from_pb, (&message,), got),
        call_ensures(WorkerAddress::supports_rdma, (&sent,), offered),
        call_ensures(WorkerAddress::supports_rdma, (&got,), offers),
        call_ensures(WorkerAddress::same_worker, (&sent, &got), same),
    ensures
        got.worker_id == sent.worker_id && message.worker_id == sent.worker_id,
        got.hostname@ == sent.hostname@ && message.hostname@ == sent.hostname@,
        got.ip_addr@ == sent.ip_addr@ && message.ip_addr@ == sent.ip_addr@,
        got.rpc_port == sent.rpc_port && message.rpc_port == sent.rpc_port,
        got.web_port == sent.web_port && message.web_port == sent.web_port,
        got.rdma_capability is Some <==> sent.rdma_capability is Some,
        message.rdma_capability is Some <==> sent.rdma_capability is Some,
        sent.rdma_capability matches Some(c) ==> {
            let d = got.rdma_capability->Some_0;
            &&& d.enabled == c.enabled
            &&& d.domain_addresses@.len() == c.domain_addresses@.len()
            &&& forall|i: int|
                0 <= i < c.domain_addresses@.len() ==> (
                #[trigger] d.domain_addresses@[i]).address@ == c.domain_addresses@[i].address@
            &&& c.num_domains <= u32::MAX ==> d.num_domains == c.num_domains
        },
        offers == offered,
        same,
{
    assert(message@.worker_id == message.worker_id && message@.hostname == message.hostname@);
    assert(message@.ip_addr == message.ip_addr@ && message@.rpc_port == message.rpc_port);
    assert(got@.worker_id == got.worker_id && got@.hostname == got.hostname@);
    assert(got@.ip_addr == got.ip_addr@ && got@.rpc_port == got.rpc_port);
    if let Some(c) = sent.rdma_capability {
        let d = got.rdma_capability->Some_0;
        assert(d@.domain_addresses == c@.domain_addresses);
        assert(d@.domain_addresses.len() == d.domain_addresses@.len());
        assert(c@.domain_addresses.len() == c.domain_addresses@.len());
        assert forall|i: int| 0 <= i < c.domain_addresses@.len() implies (
        #[trigger] d.domain_addresses@[i]).address@ == c.domain_addresses@[i].address@ by {
            assert(d@.domain_addresses[i] == d.domain_addresses@[i]@);
            assert(c@.domain_addresses[i] == c.domain_addresses@[i]@);
        }
    }
}

} // verus!
