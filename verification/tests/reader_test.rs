//! Reads on the client.

use curvine_rdma::block_reader::{
    BlockCursor, BlockReadStep, BlockReader, OpenReader, ReadWay, ReaderAdapter,
};
use curvine_rdma::block_reader_rdma::{BlockReaderRdma, ReadStep};
use curvine_rdma::client_rdma_manager::{ClientRdmaManager, RdmaBuffer};
use curvine_rdma::error::FsError;
use curvine_rdma::memory_pool::RdmaMemoryPool;
use curvine_rdma::rdma_read_handler::BlockReadResponse;
use curvine_rdma::state::{ClientConf, ExtendedBlock, FsContext, LocatedBlock, WorkerAddress};
use curvine_rdma::types::{
    AddressRkeyPair, DomainAddress, MemoryRegionDescriptor, MemoryRegionHandle, RdmaCapability,
};
use std::sync::Arc;

const CONF: ClientConf = ClientConf {
    short_circuit: true,
    read_chunk_size: 4096,
    enable_read_ahead: true,
    read_ahead_len: 7,
    drop_cache_len: 8,
};

fn block(len: i64, has_alloc_opts: bool) -> ExtendedBlock {
    ExtendedBlock { id: 21, len, has_alloc_opts }
}

fn manager(size: usize) -> ClientRdmaManager {
    let pairs = vec![AddressRkeyPair {
        domain_address: DomainAddress { address: vec![6] },
        rkey: 60,
    }];
    let answer = Ok((MemoryRegionHandle { id: 2 }, MemoryRegionDescriptor::new(1, pairs)));
    let bytes: Vec<u8> = (0..size).map(|i| (i % 251) as u8).collect();
    ClientRdmaManager::new(bytes, answer).unwrap()
}

fn worker(id: u32, host: &str, rdma: bool) -> WorkerAddress {
    let mut w = WorkerAddress::new(id, host, "10.0.0.1", 1, 2);
    if rdma {
        w.rdma_capability = Some(RdmaCapability::new(true, vec![DomainAddress::default()]));
    }
    w
}

fn response(by_rdma: Option<bool>) -> BlockReadResponse {
    BlockReadResponse { id: 21, len: 100, path: None, storage_type: 0, rdma_transfer: by_rdma }
}

fn reader(m: &mut ClientRdmaManager, off: i64, len: i64, by_rdma: Option<bool>) -> BlockReaderRdma {
    let prepared = BlockReaderRdma::prepare(&CONF, m, &block(len, false), off, len);
    BlockReaderRdma::new(prepared, block(len, false), worker(1, "a", true), 99, &response(by_rdma))
}

fn chunk(step: Result<ReadStep, FsError>) -> Vec<u8> {
    match step {
        Ok(ReadStep::Chunk(data)) => data.to_vec(),
        _ => panic!("no data"),
    }
}

fn context(short_circuit: bool, has_rdma: bool, has_rdma_manager: bool) -> FsContext {
    FsContext {
        conf: ClientConf { short_circuit, ..CONF },
        hostname: "here".to_string(),
        has_rdma,
        has_rdma_manager,
        failed_workers: vec![7, 12],
    }
}

#[test]
fn request_names_the_buffer() {
    let mut m = manager(1024);
    let first = BlockReaderRdma::prepare(&CONF, &mut m, &block(100, false), 3, 100);
    let second = BlockReaderRdma::prepare(&CONF, &mut m, &block(100, false), 3, 100);
    let r = &first.request;
    assert_eq!((r.id, r.off, r.len, r.chunk_size), (21, 3, 100, 4096));
    assert!(!r.short_circuit && r.enable_read_ahead);
    assert_eq!((r.read_ahead_len, r.drop_cache_len), (7, 8));
    assert_eq!(r.rdma_target_offset, Some(0));
    let target = r.rdma_target.as_ref().unwrap();
    assert_eq!(target.addr_rkey_list.len(), 1);
    assert_eq!(target.addr_rkey_list[0].rkey, 60);
    assert_eq!(target.addr_rkey_list[0].domain_address.as_ref().unwrap().address, vec![6]);
    assert_eq!(second.request.rdma_target.as_ref().unwrap().ptr, target.ptr + 128);
    assert_eq!(m.pool_stats().1, 2);
    assert!(BlockReaderRdma::abandon(first, &mut m));
    assert!(BlockReaderRdma::abandon(second, &mut m));
    assert_eq!(m.memory_pool().used_bytes(), 0);
}

#[test]
fn without_room_no_target_is_named() {
    let mut m = manager(64);
    let prepared = BlockReaderRdma::prepare(&CONF, &mut m, &block(100, false), 0, 100);
    assert!(prepared.buffer.is_none());
    assert!(prepared.request.rdma_target.is_none());
    assert_eq!(prepared.request.rdma_target_offset, Some(0));
    let mut r = BlockReaderRdma::new(
        prepared,
        block(100, false),
        worker(1, "a", true),
        99,
        &response(Some(true)),
    );
    // Without a buffer the data has to be fetched, whatever the worker said.
    assert!(matches!(
        r.read(m.memory_pool()),
        Ok(ReadStep::Fetch { req_id: 99, seq_id: 1 })
    ));
    assert!(!r.close(&mut m));
}

#[test]
fn transferred_block_is_handed_out_whole() {
    let mut m = manager(1024);
    let mut r = reader(&mut m, 0, 100, Some(true));
    assert_eq!((r.pos(), r.len(), r.remaining()), (0, 100, 100));
    assert!(!r.is_empty());
    assert_eq!((r.block_id(), r.seq_id()), (21, 0));
    assert_eq!(r.worker_address().hostname, "a");
    let data = chunk(r.read(m.memory_pool()));
    assert_eq!(data, (0..100).collect::<Vec<u8>>());
    assert_eq!(r.remaining(), 0);
    assert_eq!(r.read(m.memory_pool()).unwrap_err().to_string(), "No readable data");
    // After a seek the same bytes come again.
    assert_eq!(r.seek(90).unwrap(), 90);
    assert_eq!(chunk(r.read(m.memory_pool())), (90..100).collect::<Vec<u8>>());
    assert_eq!(r.seek(100).unwrap(), 100);
    assert_eq!(r.seek(101).unwrap_err().to_string(), "Invalid seek position: 101");
    assert_eq!(r.seek(-1).unwrap_err().to_string(), "Invalid seek position: -1");
    assert_eq!(r.pos(), 100);
    let commit = r.complete();
    assert_eq!((commit.block.id, commit.req_id, commit.seq_id), (21, 99, 1));
    assert!(r.close(&mut m));
    assert_eq!(m.memory_pool().used_bytes(), 0);
}

#[test]
fn position_outside_the_buffer_drains_it() {
    let mut m = manager(1024);
    let mut r = reader(&mut m, -5, 100, Some(true));
    assert_eq!(
        r.read(m.memory_pool()).unwrap_err().to_string(),
        "No data remaining in RDMA buffer"
    );
    assert_eq!(r.pos(), -5);
}

#[test]
fn declined_rdma_is_fetched() {
    let mut m = manager(1024);
    for declined in [Some(false), None] {
        let mut r = reader(&mut m, 10, 100, declined);
        assert!(matches!(
            r.read(m.memory_pool()),
            Ok(ReadStep::Fetch { req_id: 99, seq_id: 1 })
        ));
        r.fetched(40);
        assert_eq!((r.pos(), r.remaining()), (50, 50));
        assert!(matches!(
            r.read(m.memory_pool()),
            Ok(ReadStep::Fetch { req_id: 99, seq_id: 2 })
        ));
        r.fetched(50);
        assert_eq!(r.read(m.memory_pool()).unwrap_err().to_string(), "No readable data");
        assert_eq!(r.complete().seq_id, 3);
    }
}

#[test]
fn buffer_goes_back_with_its_last_holder() {
    let mut pool = RdmaMemoryPool::new_mock(1024);
    let mut buffer = RdmaBuffer::allocate(&mut pool, 100).unwrap();
    assert_eq!(buffer.size(), 100);
    assert_eq!(buffer.as_slice(&pool), &[0u8; 100][..]);
    assert_eq!(buffer.descriptor(&pool).ptr, pool.descriptor().ptr);
    let kept = buffer.clone_allocation();
    assert_eq!(kept.offset(), 0);
    assert!(!buffer.release(&mut pool));
    assert_eq!(pool.used_bytes(), 128);
    drop(kept);
    let mut shared = RdmaBuffer::allocate(&mut pool, 100).unwrap();
    let (first, second) = (shared.clone_allocation(), shared.clone_allocation());
    assert_eq!((first.offset(), second.offset(), shared.size()), (128, 128, 100));
    drop((first, second));
    assert!(shared.release(&mut pool));
    assert_eq!(pool.used_bytes(), 128);
    let other = RdmaBuffer::allocate(&mut pool, 64).unwrap();
    assert!(other.release(&mut pool));
    let refused = RdmaBuffer::allocate(&mut pool, 2000).unwrap_err();
    assert_eq!(
        refused,
        "Failed to allocate RDMA buffer: RDMA memory pool exhausted (total: 1024, requested: 2048, current_offset: 256)"
    );
}

#[test]
fn client_engine_failures() {
    assert_eq!(
        ClientRdmaManager::engine_created(Err("nic".to_string())),
        Err("Failed to create client TransferEngine: nic".to_string())
    );
    assert_eq!(ClientRdmaManager::engine_created(Ok(1)), Ok(1));
    assert_eq!(
        ClientRdmaManager::new(vec![], Err("nic".to_string())).err(),
        Some("Failed to register client RDMA memory: nic".to_string())
    );
    let mut m = manager(128);
    assert!(m.is_available());
    assert_eq!(m.pool_stats(), (0, 0, 0, 0, 0));
    assert!(m.memory_pool_mut().allocate(10).is_ok());
}

#[test]
fn local_worker_comes_first() {
    let list = || {
        vec![
            worker(1, "a", false),
            worker(2, "b", false),
            worker(3, "here", false),
            worker(4, "here", false),
        ]
    };
    let ids = |locs: Vec<WorkerAddress>| locs.iter().map(|w| w.worker_id).collect::<Vec<u32>>();
    let here = "here".to_string();
    assert_eq!(ids(BlockReader::sort_locs(list(), true, &here).unwrap()), vec![3, 2, 1, 4]);
    assert_eq!(ids(BlockReader::sort_locs(list(), false, &here).unwrap()), vec![1, 2, 3, 4]);
    let away = "elsewhere".to_string();
    assert_eq!(ids(BlockReader::sort_locs(list(), true, &away).unwrap()), vec![1, 2, 3, 4]);
    let first = "a".to_string();
    assert_eq!(ids(BlockReader::sort_locs(list(), true, &first).unwrap()), vec![1, 2, 3, 4]);
    assert!(BlockReader::sort_locs(vec![], true, &here).unwrap().is_empty());
}

#[test]
fn way_to_read_is_negotiated() {
    let b = block(100, false);
    let way = |ctx: &FsContext, w: WorkerAddress| {
        let choice = BlockReader::get_reader(&vec![w], &b, ctx, 5, 90).unwrap();
        assert_eq!((choice.block, choice.off, choice.len), (b, 5, 90));
        choice.way
    };
    let rdma = context(true, true, true);
    assert!(matches!(way(&rdma, worker(1, "here", true)), ReadWay::Local(_)));
    assert!(matches!(way(&rdma, worker(1, "a", true)), ReadWay::Rdma(_)));
    assert!(matches!(way(&rdma, worker(1, "a", false)), ReadWay::Remote(_)));
    let far = context(false, true, true);
    assert!(matches!(way(&far, worker(1, "here", true)), ReadWay::Rdma(_)));
    let tcp = context(true, false, false);
    assert!(matches!(way(&tcp, worker(1, "a", true)), ReadWay::Remote(_)));
    let no_manager = context(true, true, false);
    assert!(matches!(way(&no_manager, worker(1, "a", true)), ReadWay::Remote(_)));
    assert!(BlockReader::should_use_rdma(&rdma, &worker(1, "a", true)));
    let mut off = worker(1, "a", true);
    off.rdma_capability.as_mut().unwrap().enabled = false;
    assert!(!BlockReader::should_use_rdma(&rdma, &off));
    let mut nowhere = worker(1, "a", true);
    nowhere.rdma_capability.as_mut().unwrap().domain_addresses.clear();
    assert!(!BlockReader::should_use_rdma(&rdma, &nowhere));
}

const NO_WORKER: &str = "There is no available worker, locs: [], failed workers: [7, 12]";

#[test]
fn blocks_without_workers() {
    let ctx = context(true, true, true);
    let hole = BlockReader::get_reader(&vec![], &block(1, true), &ctx, 0, 1).unwrap();
    assert!(matches!(hole.way, ReadWay::Hole));
    let adapter = hole.opened();
    assert!(matches!(adapter, ReaderAdapter::Hole(_)));
    assert_eq!((adapter.pos(), adapter.len(), adapter.block_id()), (0, 1, 21));
    assert_eq!(adapter.worker_address().worker_id, 0);
    let refused = BlockReader::get_reader(&vec![], &block(1, false), &ctx, 0, 1).unwrap_err();
    assert_eq!(refused.to_string(), NO_WORKER);
}

fn choice(way: ReadWay) -> OpenReader {
    OpenReader { way, block: block(100, false), off: 30, len: 100 }
}

#[test]
fn rdma_falls_back_to_tcp_and_tcp_to_nothing() {
    let gone = || FsError::Outside { reason: "gone".to_string() };
    let next = choice(ReadWay::Rdma(worker(4, "a", true))).failed(gone()).unwrap();
    assert_eq!((next.block.id, next.off, next.len), (21, 30, 100));
    match next.way {
        ReadWay::Remote(w) => assert_eq!(w.worker_id, 4),
        _ => unreachable!(),
    }
    let remote = choice(ReadWay::Remote(worker(4, "a", true))).failed(gone());
    assert_eq!(remote.unwrap_err().to_string(), "gone");
    let local = choice(ReadWay::Local(worker(4, "a", true))).failed(gone());
    assert_eq!(local.unwrap_err().to_string(), "gone");
    assert!(choice(ReadWay::Hole).failed(gone()).is_err());
}

#[test]
fn opened_readers_stand_where_they_were_asked_to() {
    let local = choice(ReadWay::Local(worker(4, "a", false))).opened();
    assert!(matches!(local, ReaderAdapter::Local(_)));
    assert_eq!((local.pos(), local.len(), local.block_id()), (30, 100, 21));
    assert_eq!(local.worker_address().worker_id, 4);
    let remote = choice(ReadWay::Remote(worker(5, "a", false))).opened();
    assert!(matches!(remote, ReaderAdapter::Remote(_)));
    assert_eq!((remote.pos(), remote.remaining()), (30, 70));
    assert_eq!(remote.worker_address().worker_id, 5);

    let mut m = manager(1024);
    let wanted = choice(ReadWay::Rdma(worker(6, "a", true)));
    let prepared =
        BlockReaderRdma::prepare(&CONF, &mut m, &wanted.block, wanted.off, wanted.len);
    let rdma = wanted.opened_by_rdma(prepared, 99, &response(Some(true)));
    assert!(matches!(rdma, ReaderAdapter::Rdma(_)));
    assert_eq!((rdma.pos(), rdma.len(), rdma.block_id()), (30, 100, 21));
    assert_eq!(rdma.worker_address().worker_id, 6);
}

#[test]
fn reads_are_planned_from_the_offset_to_the_end_of_the_block() {
    let located = |ids: &[(u32, &str)]| LocatedBlock {
        block: block(100, false),
        locs: ids.iter().map(|(id, host)| worker(*id, host, false)).collect(),
    };
    let ctx = context(true, false, false);
    let (ordered, first) =
        BlockReader::plan(&ctx, located(&[(1, "a"), (2, "here")]), 40).unwrap();
    let ids: Vec<u32> = ordered.locs.iter().map(|w| w.worker_id).collect();
    assert_eq!(ids, vec![2, 1]);
    assert_eq!((first.off, first.len, first.block), (40, 100, ordered.block));
    assert!(matches!(first.way, ReadWay::Local(_)));
    let inner = first.opened();
    let reader = BlockReader::new(Arc::new(ctx), ordered, 40, inner);
    assert_eq!((reader.pos(), reader.len(), reader.remaining()), (40, 100, 60));
    let refused = BlockReader::plan(&context(true, false, false), located(&[]), 0).unwrap_err();
    assert_eq!(refused.to_string(), NO_WORKER);
}

fn cursor(id: u32, pos: i64) -> BlockCursor {
    BlockCursor {
        block: block(100, false),
        worker_address: worker(id, "a", false),
        pos,
        len: 100,
    }
}

fn block_reader(inner: ReaderAdapter, ids: &[u32]) -> BlockReader {
    let located = LocatedBlock {
        block: block(100, false),
        locs: ids.iter().map(|id| worker(*id, "a", false)).collect(),
    };
    let off = inner.pos();
    BlockReader::new(Arc::new(context(false, false, false)), located, off, inner)
}

#[test]
fn failed_workers_are_left_out_one_by_one() {
    let failure = || FsError::Outside { reason: "reset".to_string() };
    let mut r = block_reader(ReaderAdapter::Remote(cursor(1, 30)), &[1, 2]);
    assert_eq!(r.read(), BlockReadStep::ReadAdapter);
    let next = r.read_failed(failure()).unwrap();
    assert_eq!((next.off, next.len, next.block), (30, 100, r.block));
    assert_eq!(r.locs.len(), 1);
    let failed = r.reopened(next.opened());
    assert_eq!(failed.worker_address().worker_id, 1);
    assert_eq!(r.inner.worker_address().worker_id, 2);
    assert_eq!((r.pos(), r.len(), r.remaining()), (30, 100, 70));
    assert_eq!(r.read_failed(failure()).unwrap_err().to_string(), NO_WORKER);
    assert!(r.locs.is_empty());
    assert_eq!(
        r.read_failed(failure()).unwrap_err().to_string(),
        "failed to read block on a: reset"
    );
    assert!(r.complete(Err(failure())).is_ok());
}

#[test]
fn hole_fails_at_once() {
    let mut r = block_reader(ReaderAdapter::Hole(cursor(1, 0)), &[1, 2]);
    let failed = r.read_failed(FsError::NoReadableData).unwrap_err();
    assert_eq!(failed.to_string(), "failed to read block on a: No readable data");
    assert_eq!(r.locs.len(), 2);
}

#[test]
fn reader_passes_on_to_its_adapter() {
    let mut r = block_reader(ReaderAdapter::Local(cursor(1, 0)), &[1]);
    assert!(r.has_remaining() && !r.is_empty());
    assert_eq!(r.block_id(), 21);
    assert!(r.seek(100).is_ok());
    assert_eq!(r.read(), BlockReadStep::End);
    assert!(!r.has_remaining());
    assert_eq!(r.seek(101).unwrap_err().to_string(), "Invalid seek position: 101");
    assert_eq!(r.pos(), 100);

    let mut m = manager(1024);
    let rdma = reader(&mut m, 0, 100, Some(true));
    let mut r = block_reader(ReaderAdapter::Rdma(rdma), &[1]);
    let mut c = cursor(1, 10);
    c.fetched(25);
    assert_eq!(c.pos, 35);
    assert!(r.seek(40).is_ok());
    assert_eq!((r.pos(), r.len(), r.remaining()), (40, 100, 60));
    assert_eq!(r.inner.worker_address().worker_id, 1);
}
