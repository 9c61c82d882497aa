//! Dispatch of a connection's requests to handlers.

use crate::block_handler::{BlockHandler, RpcCode};
use crate::error::FsError;
use crate::handler_pool;
use crate::handler_pool::HandlerPool;
use crate::rdma_read_handler::RequestStatus;
use vstd::prelude::*;

verus! {

/// Who is to deal with a request.
#[derive(Debug, Clone, Copy, PartialEq, Eq, Structural)]
pub enum WorkerRoute {
    /// The task manager: a task to run.
    SubmitTask,
    /// The task manager: a job to stop.
    CancelJob,
    /// The replication handler.
    Replication,
    /// The connection's block handler.
    Block,
}

/// The handler that a connection's requests go to.
#[derive(Debug)]
pub struct WorkerHandler {
    pub handler: Option<BlockHandler>,
}

impl WorkerHandler {
    /// The connection has a handler of the type that the request needs.
    pub open spec fn ready_for(self, code: RpcCode) -> bool {
        self.handler matches Some(h) && h.serves(code)
    }

    /// Who is to deal with a request.
    pub open spec fn route_of(code: RpcCode) -> WorkerRoute {
        match code {
            RpcCode::SubmitTask => WorkerRoute::SubmitTask,
            RpcCode::CancelJob => WorkerRoute::CancelJob,
            RpcCode::SubmitBlockReplicationJob => WorkerRoute::Replication,
            _ => WorkerRoute::Block,
        }
    }

    /// The handler for a request and the pool once it has been chosen: the one at hand where
    /// it serves, else one from the pool, else a new one.
    pub open spec fn choice(self, code: RpcCode, pool: handler_pool::HandlerPoolState) -> (
        Result<BlockHandler, FsError>,
        handler_pool::HandlerPoolState,
    ) {
        if self.ready_for(code) {
            (Ok(self.handler.unwrap()), pool)
        } else if pool.acquire(code).1 is Some {
            (Ok(pool.acquire(code).1.unwrap()), pool.acquire(code).0)
        } else {
            (pool.create(code).1, pool.create(code).0)
        }
    }

    /// The request with this status is the last one of its handler.
    pub open spec fn ends(status: RequestStatus) -> bool {
        status == RequestStatus::Cancel || status == RequestStatus::Complete
    }

    /// A connection without a handler.
    pub fn new() -> (r: Self)
        ensures
            r.handler is None,
    {
        WorkerHandler { handler: None }
    }

    /// Who is to deal with a request.
    pub fn route(code: RpcCode) -> (r: WorkerRoute)
        ensures
            r == WorkerHandler::route_of(code),
    {
        match code {
            RpcCode::SubmitTask => WorkerRoute::SubmitTask,
            RpcCode::CancelJob => WorkerRoute::CancelJob,
            RpcCode::SubmitBlockReplicationJob => WorkerRoute::Replication,
            _ => WorkerRoute::Block,
        }
    }

    /// The handler is of the type that the request needs.
    pub fn handler_matches_code(handler: &Option<BlockHandler>, code: RpcCode) -> (r: bool)
        ensures
            r == (*handler matches Some(h) && h.serves(code)),
    {
        match (handler, code) {
            (Some(BlockHandler::Writer(_)), RpcCode::WriteBlock) => true,
            (Some(BlockHandler::Reader(_)), RpcCode::ReadBlock) => true,
            (Some(BlockHandler::RdmaReader(_)), RpcCode::ReadBlock) => true,
            (Some(BlockHandler::BatchWriter(_)), RpcCode::WriteBlocksBatch) => true,
            _ => false,
        }
    }

    /// The handler for a request. The one at hand is kept where it serves, with all that it
    /// has open; one that does not serve is dropped.
    pub fn get_handler(&mut self, code: RpcCode, pool: &mut HandlerPool) -> (r: Result<
        &mut BlockHandler,
        FsError,
    >)
        requires
            old(pool)@.wf(),
        ensures
            final(pool)@.wf(),
            final(pool)@ == old(self).choice(code, old(pool)@).1,
            match r {
                Ok(h) => {
                    &&& old(self).choice(code, old(pool)@).0 == Ok::<BlockHandler, FsError>(*h)
                    &&& final(self).handler == Some(*final(h))
                },
                Err(e) => {
                    &&& old(self).choice(code, old(pool)@).0 == Err::<BlockHandler, FsError>(e)
                    &&& *final(self) == *old(self)
                },
            },
    {
        if !Self::handler_matches_code(&self.handler, code) {
            let handler = match pool.acquire(code) {
                Some(pooled) => pooled,
                None => match pool.create_handler(code) {
                    Ok(made) => made,
                    Err(e) => {
                        return Err(e);
                    },
                },
            };
            self.handler = Some(handler);
        }
        match &mut self.handler {
            Some(h) => Ok(h),
            None => Err(FsError::NotInitialized),
        }
    }

    /// Starts to deal with a request: says who is to, and chooses the block handler where it is
    /// for one.
    pub fn handle(&mut self, code: RpcCode, pool: &mut HandlerPool) -> (r: Result<
        WorkerRoute,
        FsError,
    >)
        requires
            old(pool)@.wf(),
        ensures
            final(pool)@.wf(),
            ({
                let (choice, after) = old(self).choice(code, old(pool)@);
                if WorkerHandler::route_of(code) != WorkerRoute::Block {
                    &&& r == Ok::<WorkerRoute, FsError>(WorkerHandler::route_of(code))
                    &&& *final(self) == *old(self)
                    &&& final(pool)@ == old(pool)@
                } else {
                    &&& final(pool)@ == after
                    &&& match choice {
                        Ok(h) => r == Ok::<WorkerRoute, FsError>(WorkerRoute::Block) && final(
                            self).handler == Some(h),
                        Err(e) => r == Err::<WorkerRoute, FsError>(e) && *final(self) == *old(self),
                    }
                }
            }),
    {
        let route = Self::route(code);
        if route != WorkerRoute::Block {
            return Ok(route);
        }
        match self.get_handler(code, pool) {
            Ok(_) => Ok(route),
            Err(e) => Err(e),
        }
    }

    /// Takes note that a block request with the given status was dealt with. The last request
    /// of a handler gives it back to the pool, whatever it came to, with nothing left open.
    pub fn request_done(&mut self, status: RequestStatus, pool: &mut HandlerPool)
        requires
            old(pool)@.wf(),
        ensures
            final(pool)@.wf(),
            final(self).handler == if WorkerHandler::ends(status) {
                None
            } else {
                old(self).handler
            },
            final(pool)@ == match old(self).handler {
                Some(h) => if WorkerHandler::ends(status) {
                    old(pool)@.release(h.reset_state())
                } else {
                    old(pool)@
                },
                None => old(pool)@,
            },
    {
        if status == RequestStatus::Cancel || status == RequestStatus::Complete {
            if let Some(handler) = self.handler.take() {
                pool.release(handler);
            }
        }
    }
}

/// Within a session the handler stays: a request of the same type as the one before goes to
/// the same handler, as it was left, and the pool is not asked.
pub proof fn law_session_keeps_handler(
    w: WorkerHandler,
    code: RpcCode,
    pool: handler_pool::HandlerPoolState,
)
    requires
        w.ready_for(code),
    ensures
        w.choice(code, pool) == (Ok::<BlockHandler, FsError>(w.handler.unwrap()), pool),
{
}

/// Whoever a request gets, it is a handler that serves it, and has nothing open where it is not
/// the session's own; a request that none serves is refused.
pub proof fn law_handler_serves_request(
    w: WorkerHandler,
    code: RpcCode,
    pool: handler_pool::HandlerPoolState,
)
    requires
        pool.wf(),
    ensures
        w.choice(code, pool).0 is Ok <==> BlockHandler::supported(code),
        w.choice(code, pool).0 matches Ok(h) ==> h.serves(code),
        !w.ready_for(code) ==> (w.choice(code, pool).0 matches Ok(h) ==> h.is_reset()),
        !BlockHandler::supported(code) ==> w.choice(code, pool) == (
            Err::<BlockHandler, FsError>(FsError::UnsupportedCode { code }),
            pool,
        ),
{
    handler_pool::law_acquired_handler_serves(pool, code);
}

/// Whatever session a handler comes from, and however that ended, the next session gets it with
/// nothing open: after a cancelled request as after a completed one.
pub proof fn law_sessions_do_not_leak(
    left: BlockHandler,
    code: RpcCode,
    pool: handler_pool::HandlerPoolState,
    next: WorkerHandler,
)
    requires
        pool.wf(),
        pool.queue(code).len() == 0,
        left.serves(code),
        next.handler is None,
    ensures
        ({
            let chosen = next.choice(code, pool.release(left.reset_state())).0;
            &&& chosen == Ok::<BlockHandler, FsError>(left.reset_state())
            &&& left.reset_state().is_reset()
        }),
{
    handler_pool::law_released_handler_is_reused(pool, left, code);
}

/// A session costs the pool nothing: what a connection without a handler took out is back
/// after its last request, with nothing left open. One that had to be made for it is then
/// there in addition.
pub proof fn law_session_gives_handler_back(
    w: WorkerHandler,
    code: RpcCode,
    pool: handler_pool::HandlerPoolState,
    left: BlockHandler,
)
    requires
        pool.wf(),
        w.handler is None,
        w.choice(code, pool).0 is Ok,
        left.serves(code),
    ensures
        ({
            let after = w.choice(code, pool).1.release(left.reset_state());
            &&& after.wf()
            &&& after.queue(code).last() == left.reset_state()
            &&& after.queue(code).len() == if pool.queue(code).len() > 0 {
                pool.queue(code).len()
            } else {
                1
            }
        }),
{
    handler_pool::law_released_handler_is_reused(w.choice(code, pool).1, left, code);
}

/// Each request has one place to go: tasks, jobs and replication go where their codes say and
/// nothing else goes there; every other request goes to the connection's block handler.
pub proof fn law_every_request_has_its_place(code: RpcCode, r: WorkerRoute)
    requires
        call_ensures(WorkerHandler::route, (code,), r),
    ensures
        r is SubmitTask <==> code is SubmitTask,
        r is CancelJob <==> code is CancelJob,
        r is Replication <==> code is SubmitBlockReplicationJob,
        r is Block <==> code is ReadBlock || code is WriteBlock || code is WriteBlocksBatch
            || code is Other,
{
}

/// A new connection has no handler.
pub proof fn law_new_connection_has_no_handler(r: WorkerHandler)
    requires
        call_ensures(WorkerHandler::new, (), r),
    ensures
        r.handler is None,
{
}

/// A handler is of the type that a request needs exactly where it reads and the request is a
/// read, or it writes and the request is a write of the same kind.
pub proof fn law_handler_matches_its_requests(handler: Option<BlockHandler>, code: RpcCode, r: bool)
    requires
        call_ensures(WorkerHandler::handler_matches_code, (&handler, code), r),
    ensures
        r <==> match handler {
            None => false,
            Some(BlockHandler::Reader(_)) => code is ReadBlock,
            Some(BlockHandler::RdmaReader(_)) => code is ReadBlock,
            Some(BlockHandler::Writer(_)) => code is WriteBlock,
            Some(BlockHandler::BatchWriter(_)) => code is WriteBlocksBatch,
        },
{
}

/// Dealing with a request: tasks, jobs and replication touch neither the connection's handler nor
/// the pool. A request to read or write a block is dealt with by a block handler of its type,
/// which the connection then has; any other request is refused and changes nothing.
pub proof fn law_request_is_dealt_with(
    w: &mut WorkerHandler,
    code: RpcCode,
    pool: &mut HandlerPool,
    r: Result<WorkerRoute, FsError>,
)
    requires
        call_ensures(WorkerHandler::handle, (w, code, pool), r),
        old(pool)@.wf(),
    ensures
        code is SubmitTask ==> r == Ok::<WorkerRoute, FsError>(WorkerRoute::SubmitTask),
        code is CancelJob ==> r == Ok::<WorkerRoute, FsError>(WorkerRoute::CancelJob),
        code is SubmitBlockReplicationJob ==> r == Ok::<WorkerRoute, FsError>(
            WorkerRoute::Replication,
        ),
        code is Other ==> r == Err::<WorkerRoute, FsError>(FsError::UnsupportedCode { code }),
        code is ReadBlock || code is WriteBlock || code is WriteBlocksBatch ==> r == Ok::<
            WorkerRoute,
            FsError,
        >(WorkerRoute::Block),
        code is ReadBlock ==> (final(w).handler matches Some(h) && (h is Reader || h is RdmaReader)),
        code is WriteBlock ==> (final(w).handler matches Some(h) && h is Writer),
        code is WriteBlocksBatch ==> (final(w).handler matches Some(h) && h is BatchWriter),
        !(code is ReadBlock || code is WriteBlock || code is WriteBlocksBatch) ==> *final(w)
            == *old(w) && final(pool)@ == old(pool)@,
{
}

/// A connection keeps its handler, with all that it has open, while its requests are of the same
/// type, and the pool is not asked. Another one comes from the front of the pool's queue, where
/// there is one, and is made where there is none.
pub proof fn law_handler_is_kept_or_taken(
    w: &mut WorkerHandler,
    code: RpcCode,
    pool: &mut HandlerPool,
    r: Result<WorkerRoute, FsError>,
)
    requires
        call_ensures(WorkerHandler::handle, (w, code, pool), r),
        old(pool)@.wf(),
        code is ReadBlock || code is WriteBlock || code is WriteBlocksBatch,
    ensures
        ({
            let suits = match old(w).handler {
                None => false,
                Some(h) => (code is ReadBlock && (h is Reader || h is RdmaReader)) || (
                code is WriteBlock && h is Writer) || (code is WriteBlocksBatch && h is BatchWriter),
            };
            let before = old(pool)@;
            let after = final(pool)@;
            let (queue, rest) = if code is ReadBlock {
                (before.readers, after.readers)
            } else if code is WriteBlock {
                (before.writers, after.writers)
            } else {
                (before.batch_writers, after.batch_writers)
            };
            &&& suits ==> final(w).handler == old(w).handler && after == before
            &&& !suits && queue.len() > 0 ==> {
                &&& final(w).handler == Some(queue[0])
                &&& rest == queue.drop_first()
                &&& after.next_id == before.next_id
            }
            &&& !suits && queue.len() == 0 ==> {
                &&& rest == queue
                &&& before.next_id < u64::MAX ==> after.next_id == before.next_id + 1
                &&& final(w).handler matches Some(h) && match h {
                    BlockHandler::Reader(id) => code is ReadBlock && !before.conf.has_rdma_manager
                        && id == before.next_id,
                    BlockHandler::Writer(id) => code is WriteBlock && id == before.next_id,
                    BlockHandler::BatchWriter(id) => code is WriteBlocksBatch && id
                        == before.next_id,
                    BlockHandler::RdmaReader(reader) => code is ReadBlock
                        && before.conf.has_rdma_manager && reader.has_rdma_manager
                        && reader.context is None && reader.file is None
                        && reader.rdma_inline_threshold == before.conf.rdma_inline_threshold
                        && reader.enable_send_file == before.conf.enable_send_file,
                }
            }
            &&& !(code is ReadBlock) ==> after.readers == before.readers
            &&& !(code is WriteBlock) ==> after.writers == before.writers
            &&& !(code is WriteBlocksBatch) ==> after.batch_writers == before.batch_writers
            &&& after.conf == before.conf && after.capacity == before.capacity
        }),
{
}

/// The handler that a request gets to work with is the one that the connection has then.
pub proof fn law_handler_at_work_is_the_connections(
    w: &mut WorkerHandler,
    code: RpcCode,
    pool: &mut HandlerPool,
    h: &mut BlockHandler,
)
    requires
        call_ensures(
            WorkerHandler::get_handler,
            (w, code, pool),
            Ok::<&mut BlockHandler, FsError>(h),
        ),
        old(pool)@.wf(),
    ensures
        code is ReadBlock || code is WriteBlock || code is WriteBlocksBatch,
        code is ReadBlock ==> *old(h) is Reader || *old(h) is RdmaReader,
        code is WriteBlock ==> *old(h) is Writer,
        code is WriteBlocksBatch ==> *old(h) is BatchWriter,
        final(w).handler == Some(*final(h)),
{
}

/// A request that completes or cancels is the last one of its handler, whichever of the two: the
/// connection has none afterwards, and the pool has it at the end of the queue of its type, with
/// nothing open. Any other request leaves both as they are.
pub proof fn law_last_request_gives_handler_back(
    w: &mut WorkerHandler,
    status: RequestStatus,
    pool: &mut HandlerPool,
)
    requires
        call_ensures(WorkerHandler::request_done, (w, status, pool), ()),
        old(pool)@.wf(),
    ensures
        status is Complete || status is Cancel ==> final(w).handler is None,
        !(status is Complete || status is Cancel) ==> final(w).handler == old(w).handler && final(
            pool)@ == old(pool)@,
        old(w).handler is None ==> final(pool)@ == old(pool)@,
        (status is Complete || status is Cancel) && old(w).handler is Some ==> {
            let before = old(pool)@;
            let after = final(pool)@;
            match old(w).handler->Some_0 {
                BlockHandler::Reader(id) => after.readers == before.readers.push(
                    BlockHandler::Reader(id),
                ) && after.writers == before.writers && after.batch_writers
                    == before.batch_writers,
                BlockHandler::Writer(id) => after.writers == before.writers.push(
                    BlockHandler::Writer(id),
                ) && after.readers == before.readers && after.batch_writers
                    == before.batch_writers,
                BlockHandler::BatchWriter(id) => after.batch_writers == before.batch_writers.push(
                    BlockHandler::BatchWriter(id),
                ) && after.readers == before.readers && after.writers == before.writers,
                BlockHandler::RdmaReader(reader) => {
                    &&& after.readers.len() == before.readers.len() + 1
                    &&& after.readers.drop_last() == before.readers
                    &&& after.readers.last() matches BlockHandler::RdmaReader(back)
                        && back.context is None && back.file is None && back.has_rdma_manager
                        == reader.has_rdma_manager && back.rdma_inline_threshold
                        == reader.rdma_inline_threshold && back.enable_send_file
                        == reader.enable_send_file
                    &&& after.writers == before.writers && after.batch_writers
                        == before.batch_writers
                },
            }
        },
        final(pool)@.conf == old(pool)@.conf,
        final(pool)@.capacity == old(pool)@.capacity,
        final(pool)@.next_id == old(pool)@.next_id,
{
    if old(w).handler is Some && old(w).handler->Some_0 is RdmaReader && (status is Complete
        || status is Cancel) {
        assert(final(pool)@.readers.drop_last() =~= old(pool)@.readers);
    }
}

} // verus!
