//! Configuration, capabilities and cluster state.

use bytes::Bytes;
use curvine_rdma::config::{
    default_direct_polling, default_poll_interval_us, RdmaClientConfig, RdmaWorkerConfig,
};
use curvine_rdma::proto::{
    RdmaAddressRkeyPairProto, RdmaCapabilityProto, RdmaDomainAddressProto,
    RdmaMemoryRegionDescriptorProto,
};
use curvine_rdma::rdma_read_handler::WorkerMetrics;
use curvine_rdma::state::{ClientConf, FsContext, ProtoUtils, WorkerAddress};
use curvine_rdma::types::{
    AddressRkeyPair, DomainAddress, MemoryRegionDescriptor, RdmaCapability, RdmaStats, RemoteKey,
};

#[test]
fn test_rdma_config_defaults() {
    let worker = RdmaWorkerConfig::default();
    let client = RdmaClientConfig::default();
    assert_eq!(worker.enable_rdma, false);
    assert_eq!(client.enable_rdma, false);
    assert_eq!(worker.rdma_num_domains, 1);
    assert_eq!(worker.rdma_memory_pool_mb, 1024);
    assert_eq!(worker.rdma_inline_threshold, 65536);
    assert_eq!(client.rdma_num_domains, 1);
    assert_eq!(client.rdma_memory_pool_mb, 64);
}

#[test]
fn other_config_defaults() {
    let worker = RdmaWorkerConfig::default();
    assert_eq!(worker.rdma_pin_worker_cpu, 0);
    assert_eq!(worker.rdma_pin_uvm_cpu, 1);
    assert_eq!(worker.rdma_page_cache_max_size_mb, 20480);
    assert!(worker.rdma_direct_polling);
    assert_eq!(worker.rdma_poll_interval_us, 10);
    let client = RdmaClientConfig::default();
    assert_eq!(client.rdma_pin_worker_cpu, 0);
    assert_eq!(client.rdma_pin_uvm_cpu, 1);
    assert!(default_direct_polling());
    assert_eq!(default_poll_interval_us(), 10);
}

#[test]
fn test_mixed_cluster_config() {
    let mut tcp_worker = RdmaWorkerConfig::default();
    let mut tcp_client = RdmaClientConfig::default();
    tcp_worker.enable_rdma = false;
    tcp_client.enable_rdma = false;

    let mut rdma_worker = RdmaWorkerConfig::default();
    let mut rdma_client = RdmaClientConfig::default();
    rdma_worker.enable_rdma = true;
    rdma_client.enable_rdma = true;

    for worker in [tcp_worker, rdma_worker] {
        for client in [tcp_client, rdma_client] {
            assert!(worker.validate().is_ok());
            assert!(client.validate().is_ok());
        }
    }
}

#[test]
fn test_rdma_memory_pool_config() {
    let mut worker = RdmaWorkerConfig::default();
    let mut client = RdmaClientConfig::default();
    worker.enable_rdma = true;
    client.enable_rdma = true;
    let pool_sizes = vec![64, 128, 256, 512, 1024, 2048, 4096];
    for size_mb in pool_sizes {
        worker.rdma_memory_pool_mb = size_mb;
        client.rdma_memory_pool_mb = size_mb / 16;
        assert_eq!(worker.rdma_memory_pool_mb, size_mb);
        assert_eq!(client.rdma_memory_pool_mb, size_mb / 16);
        assert!(worker.validate().is_ok());
        assert!(client.validate().is_ok());
    }
}

#[test]
fn test_rdma_config_edge_cases() {
    let mut worker = RdmaWorkerConfig::default();
    worker.enable_rdma = true;
    worker.rdma_num_domains = 1;
    worker.rdma_memory_pool_mb = 1;
    worker.rdma_inline_threshold = 1024;
    assert_eq!(worker.rdma_num_domains, 1);
    assert!(worker.validate().is_ok());

    worker.rdma_num_domains = 16;
    worker.rdma_memory_pool_mb = 16384;
    worker.rdma_inline_threshold = 1048576;
    assert_eq!(worker.rdma_num_domains, 16);
    assert!(worker.validate().is_ok());
}

#[test]
fn config_faults_are_reported_in_order() {
    let mut worker = RdmaWorkerConfig::default();
    worker.rdma_num_domains = 0;
    worker.rdma_memory_pool_mb = 0;
    worker.rdma_page_cache_max_size_mb = 0;
    worker.rdma_inline_threshold = 0;
    assert_eq!(worker.validate(), Ok(()));
    worker.enable_rdma = true;
    assert_eq!(worker.validate(), Err("rdma_num_domains must be > 0".to_string()));
    worker.rdma_num_domains = 2;
    assert_eq!(worker.validate(), Err("rdma_memory_pool_mb must be > 0".to_string()));
    worker.rdma_memory_pool_mb = 2;
    assert_eq!(worker.validate(), Err("rdma_page_cache_max_size_mb must be > 0".to_string()));
    worker.rdma_page_cache_max_size_mb = 2;
    assert_eq!(worker.validate(), Err("rdma_inline_threshold must be > 0".to_string()));
    worker.rdma_inline_threshold = 2;
    assert_eq!(worker.validate(), Ok(()));

    let mut client = RdmaClientConfig::default();
    client.rdma_num_domains = 0;
    client.rdma_memory_pool_mb = 0;
    assert_eq!(client.validate(), Ok(()));
    client.enable_rdma = true;
    assert_eq!(client.validate(), Err("rdma_num_domains must be > 0".to_string()));
    client.rdma_num_domains = 1;
    assert_eq!(client.validate(), Err("rdma_memory_pool_mb must be > 0".to_string()));
    client.rdma_memory_pool_mb = 1;
    assert_eq!(client.validate(), Ok(()));
}

#[test]
fn test_rdma_capability_default() {
    let capability = RdmaCapability::default();
    assert_eq!(capability.enabled, false);
    assert_eq!(capability.num_domains, 0);
    assert_eq!(capability.domain_addresses.len(), 0);
}

#[test]
fn test_rdma_capability_is_enabled() {
    let enabled_cap = RdmaCapability {
        enabled: true,
        domain_addresses: vec![DomainAddress { address: vec![1, 2] }],
        num_domains: 1,
    };
    assert!(enabled_cap.is_enabled());

    let disabled_cap =
        RdmaCapability { enabled: false, domain_addresses: vec![], num_domains: 0 };
    assert!(!disabled_cap.is_enabled());
}

#[test]
fn capability_without_address_is_not_enabled() {
    assert!(!RdmaCapability::new(true, vec![]).is_enabled());
    assert!(!RdmaCapability::disabled().is_enabled());
    let two = RdmaCapability::new(
        false,
        vec![DomainAddress { address: vec![1] }, DomainAddress { address: vec![2] }],
    );
    assert_eq!(two.num_domains, 2);
    assert!(!two.is_enabled());
}

#[test]
fn test_worker_address_rdma_protobuf_conversion() {
    let capability = RdmaCapability {
        enabled: true,
        domain_addresses: vec![DomainAddress { address: vec![10, 20, 30, 40] }],
        num_domains: 1,
    };

    let worker_addr = WorkerAddress {
        worker_id: 42,
        hostname: "test-worker".to_string(),
        ip_addr: "10.0.0.1".to_string(),
        rpc_port: 9001,
        web_port: 9002,
        rdma_capability: Some(capability.clone()),
    };

    let proto = ProtoUtils::worker_address_to_pb(&worker_addr);
    assert_eq!(proto.worker_id, 42);
    assert_eq!(proto.hostname, "test-worker");
    assert!(proto.rdma_capability.is_some());

    let proto_cap = proto.rdma_capability.as_ref().unwrap();
    assert_eq!(proto_cap.enabled, true);
    assert_eq!(proto_cap.num_domains, 1);
    assert_eq!(proto_cap.domain_addresses.len(), 1);

    let restored = ProtoUtils::worker_address_from_pb(&proto);
    assert_eq!(restored.worker_id, 42);
    assert_eq!(restored.hostname, "test-worker");
    assert_eq!(restored.ip_addr, "10.0.0.1");
    assert_eq!(restored.rpc_port, 9001);

    let restored_cap = restored.rdma_capability.as_ref().unwrap();
    assert_eq!(restored_cap.enabled, true);
    assert_eq!(restored_cap.num_domains, 1);
    assert_eq!(restored_cap.domain_addresses.len(), 1);
    assert_eq!(restored_cap.domain_addresses[0].address, vec![10, 20, 30, 40]);
}

#[test]
fn test_worker_address_without_rdma() {
    let worker_addr = WorkerAddress {
        worker_id: 100,
        hostname: "tcp-worker".to_string(),
        ip_addr: "10.0.0.2".to_string(),
        rpc_port: 9003,
        web_port: 9004,
        rdma_capability: None,
    };

    let proto = ProtoUtils::worker_address_to_pb(&worker_addr);
    assert!(proto.rdma_capability.is_none());

    let restored = ProtoUtils::worker_address_from_pb(&proto);
    assert_eq!(restored.worker_id, 100);
    assert!(restored.rdma_capability.is_none());
}

#[test]
fn test_supports_rdma() {
    let rdma_worker = WorkerAddress {
        worker_id: 1,
        hostname: "rdma-worker".to_string(),
        ip_addr: "10.0.0.1".to_string(),
        rpc_port: 9001,
        web_port: 9002,
        rdma_capability: Some(RdmaCapability {
            enabled: true,
            domain_addresses: vec![DomainAddress { address: vec![1, 2] }],
            num_domains: 1,
        }),
    };
    assert!(rdma_worker.supports_rdma());

    let tcp_worker = WorkerAddress {
        worker_id: 2,
        hostname: "tcp-worker".to_string(),
        ip_addr: "10.0.0.2".to_string(),
        rpc_port: 9003,
        web_port: 9004,
        rdma_capability: Some(RdmaCapability {
            enabled: false,
            domain_addresses: vec![],
            num_domains: 0,
        }),
    };
    assert!(!tcp_worker.supports_rdma());

    let no_rdma_worker = WorkerAddress {
        worker_id: 3,
        hostname: "old-worker".to_string(),
        ip_addr: "10.0.0.3".to_string(),
        rpc_port: 9005,
        web_port: 9006,
        rdma_capability: None,
    };
    assert!(!no_rdma_worker.supports_rdma());
}

#[test]
fn test_worker_address_without_rdma_feature() {
    let worker = WorkerAddress::new(1, "worker", "10.0.0.1", 9001, 9002);
    assert!(!worker.supports_rdma());
}

#[test]
fn test_rdma_metrics_exist() {
    let metrics = WorkerMetrics::new();
    assert_eq!(metrics.rdma_enabled, 0);
    assert_eq!(metrics.rdma_transfers_total, 0);
    assert_eq!(metrics.rdma_bytes_written, 0);
    assert_eq!(metrics.rdma_fallback_to_tcp, 0);
    assert_eq!(metrics.read_bytes, 0);
    assert_eq!(metrics.read_count, 0);
}

#[test]
fn number_of_domains_is_cut_to_32_bits_on_the_wire() {
    let mut capability = RdmaCapability::new(true, vec![]);
    capability.num_domains = 4294967296 + 7;
    let message = RdmaCapabilityProto::from(capability);
    assert_eq!(message.num_domains, 7);
}

#[test]
fn descriptor_round_trip() {
    let descriptor = MemoryRegionDescriptor::new(
        0x12345678,
        vec![AddressRkeyPair {
            domain_address: DomainAddress { address: vec![5, 6, 7, 8] },
            rkey: 0xABCDEF00,
        }],
    );
    let message = RdmaMemoryRegionDescriptorProto::from(descriptor.clone());
    assert_eq!(message.ptr, 0x12345678);
    assert_eq!(message.addr_rkey_list.len(), 1);
    let back = MemoryRegionDescriptor::from(message);
    assert_eq!(back.ptr, descriptor.ptr);
    assert_eq!(back.addr_rkey_list, descriptor.addr_rkey_list);
    assert_eq!(back.domain_addresses(), vec![DomainAddress { address: vec![5, 6, 7, 8] }]);
}

#[test]
fn missing_address_on_the_wire_is_empty() {
    let pair = AddressRkeyPair::from(RdmaAddressRkeyPairProto { domain_address: None, rkey: 9 });
    assert_eq!(pair.domain_address, DomainAddress::default());
    assert_eq!(pair.rkey, 9);
    let there = AddressRkeyPair::from(RdmaAddressRkeyPairProto {
        domain_address: Some(RdmaDomainAddressProto { address: vec![3] }),
        rkey: 1,
    });
    assert_eq!(there.domain_address.address, vec![3]);
}

#[test]
fn address_text_shows_length() {
    assert_eq!(DomainAddress { address: vec![0; 12] }.to_string(), "DomainAddress(len=12)");
    assert_eq!(DomainAddress::default().to_string(), "DomainAddress(len=0)");
}

#[test]
fn address_to_and_from_shared_bytes() {
    let address = DomainAddress { address: vec![9, 8, 7] };
    let bytes: Bytes = address.clone().into_bytes();
    assert_eq!(bytes.as_ref(), &[9u8, 8, 7]);
    assert_eq!(DomainAddress::from_bytes(&bytes), address);
    assert_eq!(DomainAddress::from_bytes(&Bytes::from_static(b"xy")).address, vec![120, 121]);
}

#[test]
fn stats_start_at_zero() {
    assert_eq!(RdmaStats::new(), RdmaStats::default());
    assert_eq!(RdmaStats::new().bytes_transferred, 0);
    assert_eq!(RemoteKey { key: 1, domain_idx: 2 }, RemoteKey { key: 1, domain_idx: 2 });
}

#[test]
fn worker_identity_ignores_capability() {
    let plain = WorkerAddress::new(1, "host", "10.0.0.1", 1, 2);
    let mut capable = plain.clone();
    capable.rdma_capability = Some(RdmaCapability::new(true, vec![DomainAddress::default()]));
    assert!(plain.same_worker(&capable));
    assert!(!plain.same_worker(&WorkerAddress::new(2, "host", "10.0.0.1", 1, 2)));
    assert!(!plain.same_worker(&WorkerAddress::new(1, "other", "10.0.0.1", 1, 2)));
    assert!(!plain.same_worker(&WorkerAddress::new(1, "host", "10.0.0.2", 1, 2)));
    assert!(!plain.same_worker(&WorkerAddress::new(1, "host", "10.0.0.1", 3, 2)));
    assert!(!plain.same_worker(&WorkerAddress::new(1, "host", "10.0.0.1", 1, 3)));
}

#[test]
fn local_worker_by_host_name() {
    let context = FsContext {
        conf: ClientConf {
            short_circuit: true,
            read_chunk_size: 1,
            enable_read_ahead: false,
            read_ahead_len: 0,
            drop_cache_len: 0,
        },
        hostname: "here".to_string(),
        has_rdma: false,
        has_rdma_manager: false,
        failed_workers: vec![],
    };
    assert!(context.is_local_worker(&WorkerAddress::new(1, "here", "1", 1, 1)));
    assert!(!context.is_local_worker(&WorkerAddress::new(1, "there", "1", 1, 1)));
}

#[test]
fn engine_regions_there_and_back() {
    let list = vec![(Bytes::from_static(b"ab"), 3u64), (Bytes::new(), 4)];
    let descriptor = MemoryRegionDescriptor::from_engine(1000, &list);
    assert_eq!(descriptor.ptr, 1000);
    assert_eq!(descriptor.addr_rkey_list[0].domain_address.address, vec![97, 98]);
    assert_eq!(descriptor.addr_rkey_list[1].rkey, 4);
    let (ptr, back) = descriptor.into_engine();
    assert_eq!(ptr, 1000);
    assert_eq!(back, list);
}
