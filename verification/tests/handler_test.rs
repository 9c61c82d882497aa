//! Handler pool and dispatch.

use curvine_rdma::block_handler::{BlockHandler, HandlerConf, RpcCode};
use curvine_rdma::error::FsError;
use curvine_rdma::handler_pool::HandlerPool;
use curvine_rdma::rdma_read_handler::{ReadContext, RequestStatus};
use curvine_rdma::worker_handler::{WorkerHandler, WorkerRoute};

fn conf(has_rdma_manager: bool) -> HandlerConf {
    HandlerConf { has_rdma_manager, rdma_inline_threshold: 65536, enable_send_file: true }
}

fn counts(pool: &HandlerPool) -> (usize, usize, usize, usize) {
    let s = pool.stats();
    (s.reader_available, s.writer_available, s.batch_writer_available, s.capacity)
}

#[test]
fn new_pool_is_empty_until_warmed_up() {
    let mut pool = HandlerPool::new(3, conf(false)).unwrap();
    assert_eq!(counts(&pool), (0, 0, 0, 3));
    assert!(pool.acquire(RpcCode::ReadBlock).is_none());
    pool.warm_up().unwrap();
    assert_eq!(counts(&pool), (3, 3, 3, 3));
    pool.warm_up().unwrap();
    assert_eq!(counts(&pool), (6, 6, 6, 3));
}

#[test]
fn handlers_leave_in_the_order_they_came() {
    let mut pool = HandlerPool::new(2, conf(false)).unwrap();
    pool.warm_up().unwrap();
    assert!(matches!(pool.acquire(RpcCode::ReadBlock), Some(BlockHandler::Reader(0))));
    assert!(matches!(pool.acquire(RpcCode::ReadBlock), Some(BlockHandler::Reader(1))));
    assert!(pool.acquire(RpcCode::ReadBlock).is_none());
    assert!(matches!(pool.acquire(RpcCode::WriteBlock), Some(BlockHandler::Writer(2))));
    assert!(matches!(
        pool.acquire(RpcCode::WriteBlocksBatch),
        Some(BlockHandler::BatchWriter(4))
    ));
    pool.release(BlockHandler::Reader(1));
    pool.release(BlockHandler::Reader(0));
    assert!(matches!(pool.acquire(RpcCode::ReadBlock), Some(BlockHandler::Reader(1))));
    assert_eq!(counts(&pool), (1, 1, 1, 2));
}

#[test]
fn each_type_goes_back_to_its_queue() {
    let mut pool = HandlerPool::new(0, conf(true)).unwrap();
    let rdma = pool.create_handler(RpcCode::ReadBlock).unwrap();
    assert!(matches!(rdma, BlockHandler::RdmaReader(_)));
    pool.release(rdma);
    pool.release(BlockHandler::Reader(7));
    pool.release(BlockHandler::Writer(8));
    pool.release(BlockHandler::BatchWriter(9));
    assert_eq!(counts(&pool), (2, 1, 1, 0));
    assert!(matches!(pool.acquire(RpcCode::ReadBlock), Some(BlockHandler::RdmaReader(_))));
    assert!(matches!(pool.acquire(RpcCode::ReadBlock), Some(BlockHandler::Reader(7))));
    assert!(matches!(pool.acquire(RpcCode::WriteBlock), Some(BlockHandler::Writer(8))));
}

#[test]
fn handlers_are_made_to_fit() {
    let made = BlockHandler::new(RpcCode::ReadBlock, 5, conf(true)).unwrap();
    match made {
        BlockHandler::RdmaReader(r) => {
            assert!(r.has_rdma_manager);
            assert_eq!(r.rdma_inline_threshold, 65536);
            assert!(r.enable_send_file);
            assert!(r.context.is_none() && r.file.is_none());
        }
        _ => unreachable!(),
    }
    assert!(matches!(
        BlockHandler::new(RpcCode::ReadBlock, 5, conf(false)),
        Ok(BlockHandler::Reader(5))
    ));
    assert!(matches!(
        BlockHandler::new(RpcCode::WriteBlocksBatch, 6, conf(true)),
        Ok(BlockHandler::BatchWriter(6))
    ));
}

#[test]
fn unsupported_requests_get_no_handler() {
    let mut pool = HandlerPool::new(1, conf(false)).unwrap();
    pool.warm_up().unwrap();
    for code in [RpcCode::SubmitTask, RpcCode::CancelJob, RpcCode::Other(9)] {
        assert!(pool.acquire(code).is_none());
        let refused = pool.create_handler(code).unwrap_err();
        assert_eq!(refused.to_string(), "Unsupported request type");
    }
    assert_eq!(counts(&pool), (1, 1, 1, 1));
}

#[test]
fn requests_are_routed() {
    assert_eq!(WorkerHandler::route(RpcCode::SubmitTask), WorkerRoute::SubmitTask);
    assert_eq!(WorkerHandler::route(RpcCode::CancelJob), WorkerRoute::CancelJob);
    assert_eq!(
        WorkerHandler::route(RpcCode::SubmitBlockReplicationJob),
        WorkerRoute::Replication
    );
    assert_eq!(WorkerHandler::route(RpcCode::ReadBlock), WorkerRoute::Block);
    assert_eq!(WorkerHandler::route(RpcCode::Other(1)), WorkerRoute::Block);
}

#[test]
fn handler_types_match_codes() {
    let reader = Some(BlockHandler::Reader(0));
    let writer = Some(BlockHandler::Writer(0));
    let batch = Some(BlockHandler::BatchWriter(0));
    assert!(WorkerHandler::handler_matches_code(&reader, RpcCode::ReadBlock));
    assert!(!WorkerHandler::handler_matches_code(&reader, RpcCode::WriteBlock));
    assert!(WorkerHandler::handler_matches_code(&writer, RpcCode::WriteBlock));
    assert!(!WorkerHandler::handler_matches_code(&writer, RpcCode::WriteBlocksBatch));
    assert!(WorkerHandler::handler_matches_code(&batch, RpcCode::WriteBlocksBatch));
    assert!(!WorkerHandler::handler_matches_code(&None, RpcCode::ReadBlock));
    assert!(!WorkerHandler::handler_matches_code(&reader, RpcCode::SubmitTask));
}

#[test]
fn session_keeps_its_handler_and_gives_it_back() {
    let mut pool = HandlerPool::new(1, conf(true)).unwrap();
    pool.warm_up().unwrap();
    let mut worker = WorkerHandler::new();
    assert_eq!(worker.handle(RpcCode::ReadBlock, &mut pool).unwrap(), WorkerRoute::Block);
    assert_eq!(counts(&pool), (0, 1, 1, 1));
    // What the handler holds open stays there from one request to the next.
    match worker.get_handler(RpcCode::ReadBlock, &mut pool).unwrap() {
        BlockHandler::RdmaReader(r) => {
            r.context = Some(ReadContext {
                block_id: 11,
                off: 0,
                len: 1,
                chunk_size: 1,
                rdma_target: None,
                rdma_target_offset: 0,
            });
        }
        _ => unreachable!(),
    }
    worker.request_done(RequestStatus::Open, &mut pool);
    worker.request_done(RequestStatus::Running, &mut pool);
    match worker.get_handler(RpcCode::ReadBlock, &mut pool).unwrap() {
        BlockHandler::RdmaReader(r) => assert_eq!(r.context.as_ref().unwrap().block_id, 11),
        _ => unreachable!(),
    }
    worker.request_done(RequestStatus::Complete, &mut pool);
    assert!(worker.handler.is_none());
    assert_eq!(counts(&pool), (1, 1, 1, 1));
    worker.request_done(RequestStatus::Cancel, &mut pool);
    assert_eq!(counts(&pool), (1, 1, 1, 1));
    // The next session does not see what this one had open.
    match worker.get_handler(RpcCode::ReadBlock, &mut pool).unwrap() {
        BlockHandler::RdmaReader(r) => assert!(r.context.is_none() && r.file.is_none()),
        _ => unreachable!(),
    }
}

#[test]
fn another_type_of_request_replaces_the_handler() {
    let mut pool = HandlerPool::new(1, conf(false)).unwrap();
    pool.warm_up().unwrap();
    let mut worker = WorkerHandler::new();
    worker.handle(RpcCode::ReadBlock, &mut pool).unwrap();
    worker.handle(RpcCode::WriteBlock, &mut pool).unwrap();
    assert!(matches!(worker.handler, Some(BlockHandler::Writer(1))));
    // The reader was dropped, not given back.
    assert_eq!(counts(&pool), (0, 0, 1, 1));
    // With the pool exhausted a handler is made.
    let mut second = WorkerHandler::new();
    second.handle(RpcCode::WriteBlock, &mut pool).unwrap();
    assert!(matches!(second.handler, Some(BlockHandler::Writer(3))));
    second.request_done(RequestStatus::Cancel, &mut pool);
    assert_eq!(counts(&pool), (0, 1, 1, 1));
}

#[test]
fn refused_request_changes_nothing() {
    let mut pool = HandlerPool::new(1, conf(false)).unwrap();
    pool.warm_up().unwrap();
    let mut worker = WorkerHandler::new();
    worker.handle(RpcCode::ReadBlock, &mut pool).unwrap();
    let refused = worker.handle(RpcCode::Other(3), &mut pool);
    assert!(matches!(refused, Err(FsError::UnsupportedCode { code: RpcCode::Other(3) })));
    assert!(matches!(worker.handler, Some(BlockHandler::Reader(0))));
    assert_eq!(worker.handle(RpcCode::CancelJob, &mut pool).unwrap(), WorkerRoute::CancelJob);
    assert!(matches!(worker.handler, Some(BlockHandler::Reader(0))));
    assert_eq!(counts(&pool), (0, 1, 1, 1));
}

#[test]
fn readers_go_back_with_nothing_open() {
    for status in [RequestStatus::Cancel, RequestStatus::Complete] {
        let mut pool = HandlerPool::new(1, conf(true)).unwrap();
        pool.warm_up().unwrap();
        let mut worker = WorkerHandler::new();
        match worker.get_handler(RpcCode::ReadBlock, &mut pool).unwrap() {
            BlockHandler::RdmaReader(r) => {
                r.file = Some(4);
                r.context = Some(ReadContext {
                    block_id: 1,
                    off: 0,
                    len: 1,
                    chunk_size: 1,
                    rdma_target: None,
                    rdma_target_offset: 0,
                });
                // Nothing but the release ends a cancelled read.
                assert!(r.handle(RequestStatus::Cancel).is_err());
            }
            _ => unreachable!(),
        }
        worker.request_done(status, &mut pool);
        match pool.acquire(RpcCode::ReadBlock) {
            Some(BlockHandler::RdmaReader(r)) => {
                assert!(r.file.is_none() && r.context.is_none());
                assert!(r.has_rdma_manager && r.enable_send_file);
                assert_eq!(r.rdma_inline_threshold, 65536);
            }
            _ => unreachable!(),
        }
    }
}

#[test]
fn reset_leaves_other_handlers_alone() {
    assert!(matches!(BlockHandler::Writer(3).reset(), BlockHandler::Writer(3)));
    assert!(matches!(BlockHandler::Reader(4).reset(), BlockHandler::Reader(4)));
    assert!(matches!(BlockHandler::BatchWriter(5).reset(), BlockHandler::BatchWriter(5)));
}
