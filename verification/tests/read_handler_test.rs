//! Reads on the worker.

use bytes::Bytes;
use curvine_rdma::data_slice::{read_buffered_to_rdma, DataSlice};
use curvine_rdma::error::FsError;
use curvine_rdma::memory_pool::RdmaMemoryPool;
use curvine_rdma::rdma_read_handler::{
    read_direct_to_rdma, read_direct_to_rdma_uring, BlockMeta, OpenStep, PendingOpen,
    RdmaReadHandler, ReadContext, ReadRequest, ReadSource, RegionRead, RequestStatus,
    StagedTransfer, TransferStep, WorkerMetrics,
};
use curvine_rdma::transfer_engine_manager::{EngineRequest, TransferEngineManager};
use curvine_rdma::types::{
    AddressRkeyPair, DomainAddress, MemoryRegionDescriptor, MemoryRegionHandle,
};

const META: BlockMeta = BlockMeta { len: 1000, storage_type: 2 };

fn context(off: i64, len: i64, target: bool) -> ReadContext {
    ReadContext {
        block_id: 5,
        off,
        len,
        chunk_size: 64,
        rdma_target: if target {
            Some(MemoryRegionDescriptor::new(0xabc, vec![]))
        } else {
            None
        },
        rdma_target_offset: 16,
    }
}

fn pending(step: Result<OpenStep, FsError>) -> PendingOpen {
    match step {
        Ok(OpenStep::Transfer(p)) => p,
        _ => panic!("not by RDMA"),
    }
}

fn staged(step: TransferStep) -> StagedTransfer {
    match step {
        TransferStep::Fill(t) => t,
        _ => panic!("not staged"),
    }
}

fn engine_memory() -> Result<(MemoryRegionHandle, MemoryRegionDescriptor), String> {
    let pairs = vec![
        AddressRkeyPair { domain_address: DomainAddress { address: vec![1] }, rkey: 10 },
        AddressRkeyPair { domain_address: DomainAddress { address: vec![2] }, rkey: 20 },
    ];
    Ok((MemoryRegionHandle { id: 4 }, MemoryRegionDescriptor::new(1, pairs)))
}

#[test]
fn rdma_is_used_from_the_threshold_on() {
    let handler = RdmaReadHandler::new(true, 100, false);
    assert!(handler.should_use_rdma(&context(0, 100, true)));
    assert!(!handler.should_use_rdma(&context(0, 99, true)));
    assert!(!handler.should_use_rdma(&context(0, 100, false)));
    let without = RdmaReadHandler::new(false, 100, false);
    assert!(!without.should_use_rdma(&context(0, 100, true)));
}

#[test]
fn read_past_the_block_is_refused() {
    let handler = RdmaReadHandler::new(true, 1, false);
    let mut metrics = WorkerMetrics::new();
    let refused = handler.open(context(1001, 10, true), META, &mut metrics).unwrap_err();
    assert_eq!(
        refused.to_string(),
        "The length of the requested data exceeds the maximum length of the block file, request off 1001, file len 1000"
    );
    assert_eq!(metrics, WorkerMetrics::new());
    assert!(handler.open(context(1000, 10, true), META, &mut metrics).is_ok());
    assert_eq!(metrics.rdma_enabled, 1);
}

#[test]
fn transfer_from_open_to_done() {
    let mut pool = RdmaMemoryPool::new_mock(1024);
    let mut metrics = WorkerMetrics::new();
    let mut handler = RdmaReadHandler::new(true, 10, false);
    let opened = pending(handler.open(context(0, 100, true), META, &mut metrics));
    let transfer = staged(handler.begin_transfer(opened, true, &mut pool, &mut metrics));
    assert_eq!(transfer.source, ReadSource::IoUring);
    assert_eq!(transfer.staging.size(), 100);
    assert_eq!(pool.used_bytes(), 128);
    transfer.staging.as_mut_slice(&mut pool).fill(6);
    let (transfer, bytes) =
        match handler.staging_filled(transfer, Ok(100), &mut pool, &mut metrics) {
            TransferStep::Submit(t, n) => (t, n),
            _ => unreachable!(),
        };
    assert_eq!(bytes, 100);
    let done = handler.transfer_submitted(transfer, bytes, Ok(()), &mut pool, &mut metrics);
    match done {
        TransferStep::Done(response) => {
            assert_eq!(response.id, 5);
            assert_eq!(response.len, 1000);
            assert_eq!(response.path, None);
            assert_eq!(response.storage_type, 2);
            assert_eq!(response.rdma_transfer, Some(true));
        }
        _ => unreachable!(),
    }
    assert_eq!(pool.used_bytes(), 0);
    assert_eq!(metrics.rdma_transfers_total, 1);
    assert_eq!(metrics.rdma_bytes_written, 100);
    assert_eq!(metrics.rdma_fallback_to_tcp, 0);
    // The read is open, but has nothing to stream.
    assert_eq!(
        handler.read(8).unwrap_err().to_string(),
        "RDMA read() - ERROR: file or context is None for req_id: 8. file: false, context: true"
    );
    assert!(handler.complete(8).is_ok());
}

#[test]
fn write_request_names_source_and_target() {
    let mut manager = TransferEngineManager::new(3, vec![0; 1024], engine_memory()).unwrap();
    let mut metrics = WorkerMetrics::new();
    let handler = RdmaReadHandler::new(true, 10, false);
    let filler = manager.memory_pool_mut().allocate(64).unwrap();
    let opened = pending(handler.open(context(0, 100, true), META, &mut metrics));
    let transfer = staged(handler.begin_transfer(
        opened,
        false,
        manager.memory_pool_mut(),
        &mut metrics,
    ));
    assert_eq!(transfer.source, ReadSource::Pread);
    assert_eq!(transfer.pending.file_offset(), 0);
    assert_eq!(transfer.pending.buffered_len(), 100);
    let request = transfer.write_request(77, &manager);
    assert_eq!(request.src_handle, MemoryRegionHandle { id: 4 });
    assert_eq!(request.src_offset, 64);
    assert_eq!(request.length, 77);
    assert_eq!(request.dst.ptr, 0xabc);
    assert_eq!(request.dst_offset, 16);
    assert_eq!(request.num_shards, 3);
    assert_eq!(filler.offset(), 0);
    assert_eq!(manager.pool_stats().1, 2);
}

#[test]
fn exhausted_pool_counts_twice_and_falls_back() {
    let mut pool = RdmaMemoryPool::new_mock(64);
    let mut metrics = WorkerMetrics::new();
    let mut handler = RdmaReadHandler::new(true, 10, true);
    let opened = pending(handler.open(context(3, 100, true), META, &mut metrics));
    let (opened, error) = match handler.begin_transfer(opened, false, &mut pool, &mut metrics) {
        TransferStep::FallBack(p, e) => (p, e),
        _ => unreachable!(),
    };
    assert_eq!(
        error.to_string(),
        "RDMA memory pool exhausted (total: 64, requested: 128, current_offset: 0)"
    );
    assert_eq!(metrics.rdma_fallback_to_tcp, 2);
    assert_eq!(opened.file_offset(), 3);
    let response = handler.file_opened(opened, Ok(31)).unwrap();
    assert_eq!(response.rdma_transfer, Some(false));
    assert_eq!(
        handler.read(1).unwrap(),
        RegionRead { file: 31, send_file: true, chunk_size: 64 }
    );
    handler.region_read(64, &mut metrics);
    handler.region_read(36, &mut metrics);
    assert_eq!((metrics.read_bytes, metrics.read_count), (100, 2));
    assert!(handler.complete(1).is_ok());
    assert_eq!(
        handler.complete(1).unwrap_err().to_string(),
        "RDMA complete() - ERROR: context is None for req_id: 1. This means open() either failed or was never called successfully. file present: false"
    );
}

#[test]
fn every_source_is_tried_before_falling_back() {
    let mut pool = RdmaMemoryPool::new_mock(1024);
    let mut metrics = WorkerMetrics::new();
    let handler = RdmaReadHandler::new(true, 10, false);
    let opened = pending(handler.open(context(0, 100, true), META, &mut metrics));
    let t = staged(handler.begin_transfer(opened, true, &mut pool, &mut metrics));
    let failed = read_direct_to_rdma_uring(-5, "EIO".to_string());
    assert_eq!(failed.as_ref().unwrap_err().to_string(), "io_uring read failed: EIO");
    let t = staged(handler.staging_filled(t, failed, &mut pool, &mut metrics));
    assert_eq!(t.source, ReadSource::Pread);
    let failed = read_direct_to_rdma(-1, "EINVAL".to_string());
    assert_eq!(failed.as_ref().unwrap_err().to_string(), "Direct I/O read failed: EINVAL");
    let t = staged(handler.staging_filled(t, failed, &mut pool, &mut metrics));
    assert_eq!(t.source, ReadSource::Buffered);
    assert_eq!(metrics.rdma_fallback_to_tcp, 0);
    let last = Err(FsError::EmptyDataSlice);
    match handler.staging_filled(t, last, &mut pool, &mut metrics) {
        TransferStep::FallBack(p, e) => {
            assert_eq!(p.context.block_id, 5);
            assert_eq!(e.to_string(), "Empty DataSlice returned");
        }
        _ => unreachable!(),
    }
    assert_eq!(metrics.rdma_fallback_to_tcp, 1);
    assert_eq!(pool.used_bytes(), 0);
}

#[test]
fn failed_write_gives_the_staging_buffer_back() {
    let mut pool = RdmaMemoryPool::new_mock(1024);
    let mut metrics = WorkerMetrics::new();
    let mut handler = RdmaReadHandler::new(true, 10, false);
    let other = pool.allocate(64).unwrap();
    other.as_mut_slice(&mut pool).fill(9);
    let opened = pending(handler.open(context(0, 100, true), META, &mut metrics));
    let t = staged(handler.begin_transfer(opened, false, &mut pool, &mut metrics));
    let step = handler.transfer_submitted(t, 100, Err("link".to_string()), &mut pool, &mut metrics);
    assert!(matches!(step, TransferStep::FallBack(_, FsError::Outside { .. })));
    assert_eq!(pool.used_bytes(), 64);
    assert_eq!(other.as_slice(&pool), &[9u8; 64][..]);
    assert_eq!((metrics.rdma_fallback_to_tcp, metrics.rdma_transfers_total), (1, 0));
    assert!(handler.context.is_none());
}

#[test]
fn file_that_cannot_be_opened_leaves_nothing_open() {
    let mut metrics = WorkerMetrics::new();
    let mut handler = RdmaReadHandler::new(false, 10, false);
    let opened = match handler.open(context(0, 100, true), META, &mut metrics) {
        Ok(OpenStep::OpenFile(p)) => p,
        _ => unreachable!(),
    };
    let refused = handler.file_opened(opened, Err(FsError::Outside { reason: "gone".to_string() }));
    assert_eq!(refused.unwrap_err().to_string(), "gone");
    assert!(handler.context.is_none() && handler.file.is_none());
    assert_eq!(metrics, WorkerMetrics::new());
}

#[test]
fn direct_reads_may_stop_short() {
    assert_eq!(read_direct_to_rdma(0, String::new()).unwrap(), 0);
    assert_eq!(read_direct_to_rdma(12, String::new()).unwrap(), 12);
    assert_eq!(read_direct_to_rdma_uring(7, String::new()).unwrap(), 7);
    assert_eq!(ReadSource::Buffered.fallback(), None);
}

#[test]
fn requests_by_status() {
    let handler = RdmaReadHandler::new(false, 1, false);
    assert_eq!(handler.handle(RequestStatus::Open).unwrap(), ReadRequest::Open);
    assert_eq!(handler.handle(RequestStatus::Running).unwrap(), ReadRequest::Read);
    assert_eq!(handler.handle(RequestStatus::Complete).unwrap(), ReadRequest::Complete);
    for status in [RequestStatus::Cancel, RequestStatus::Rpc] {
        assert_eq!(
            handler.handle(status).unwrap_err().to_string(),
            "Unsupported request type for RDMA read handler"
        );
    }
}

#[test]
fn buffered_data_is_copied_to_the_front() {
    let mut buffer = [0u8; 6];
    assert_eq!(read_buffered_to_rdma(&DataSlice::Buffer(vec![1, 2]), &mut buffer).unwrap(), 2);
    assert_eq!(buffer, [1, 2, 0, 0, 0, 0]);
    let shared = DataSlice::Bytes(Bytes::from_static(&[7, 8, 9]));
    assert_eq!(shared.len(), 3);
    assert_eq!(read_buffered_to_rdma(&shared, &mut buffer).unwrap(), 3);
    assert_eq!(buffer, [7, 8, 9, 0, 0, 0]);
    assert_eq!(read_buffered_to_rdma(&DataSlice::MemSlice(vec![4; 6]), &mut buffer).unwrap(), 6);
    assert_eq!(buffer, [4; 6]);
    let too_long = read_buffered_to_rdma(&DataSlice::Buffer(vec![1; 7]), &mut buffer);
    assert_eq!(too_long.unwrap_err().to_string(), "Buffer too small: 6 < 7");
    let region = DataSlice::IOSlice { off: 0, len: 3 };
    assert_eq!(region.len(), 3);
    assert_eq!(
        read_buffered_to_rdma(&region, &mut buffer).unwrap_err().to_string(),
        "Unexpected IOSlice in buffered read fallback"
    );
    assert_eq!(DataSlice::empty().len(), 0);
    assert_eq!(
        read_buffered_to_rdma(&DataSlice::empty(), &mut buffer).unwrap_err().to_string(),
        "Empty DataSlice returned"
    );
    assert_eq!(buffer, [4; 6]);
}

#[test]
fn engine_is_asked_for_what_is_configured() {
    let request = EngineRequest::new(2, 65536 + 3, 1, 2);
    assert_eq!(request.num_domains, 2);
    assert_eq!(request.pin_worker_cpu, 3);
    assert_eq!(request.pin_uvm_cpu, 1);
    assert_eq!(request.pool_size_bytes, 2 * 1024 * 1024);
    assert_eq!(request.buffer(), vec![0u8; 2 * 1024 * 1024]);
}

#[test]
fn manager_advertises_its_domains() {
    let manager = TransferEngineManager::new_direct(2, vec![0; 256], engine_memory()).unwrap();
    assert!(manager.is_direct_polling_enabled());
    let capability = manager.get_capability();
    assert!(capability.is_enabled());
    assert_eq!(capability.num_domains, 2);
    assert_eq!(capability.domain_addresses[1].address, vec![2]);
    assert_eq!(manager.memory_pool().descriptor().ptr, 1);
    assert_eq!(manager.pool_stats(), (0, 0, 0, 0, 0));
    assert_eq!(manager.poll_completions(Ok(4)), Ok(4));
    assert_eq!(
        manager.poll_completions(Err("x".to_string())),
        Err("RDMA poll failed: x".to_string())
    );
    let by_callback = TransferEngineManager::new(2, vec![0; 256], engine_memory()).unwrap();
    assert!(!by_callback.is_direct_polling_enabled());
    assert_eq!(by_callback.poll_completions(Err("x".to_string())), Ok(0));
}

#[test]
fn engine_failures() {
    assert_eq!(
        TransferEngineManager::engine_created(Err("nic".to_string())),
        Err("Failed to create TransferEngine: nic".to_string())
    );
    assert_eq!(TransferEngineManager::engine_created(Ok(3)), Ok(3));
    assert_eq!(
        TransferEngineManager::new(1, vec![], Err("nic".to_string())).err(),
        Some("Failed to register RDMA memory: nic".to_string())
    );
    assert_eq!(
        TransferEngineManager::new_direct(1, vec![], Err("nic".to_string())).err(),
        Some("Failed to register RDMA memory: nic".to_string())
    );
    assert_eq!(TransferEngineManager::write_result(Ok(())), Ok(()));
    assert_eq!(
        TransferEngineManager::write_result(Err("link".to_string())),
        Err("RDMA transfer failed: link".to_string())
    );
}
