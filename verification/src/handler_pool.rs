//! Pool of handlers that are made in advance and used again.

use crate::block_handler::{BlockHandler, HandlerConf, RpcCode};
use crate::counter;
use crate::counter::count_u64;
use crate::error::FsError;
use crate::handler_queue;
use crate::handler_queue::{queue_len, queue_new, queue_pop, queue_push};
use crate::rdma_read_handler::RdmaReadHandler;
use crossbeam::queue::SegQueue;
use vstd::prelude::*;

verus! {

/// `n` new handlers, numbered from `first` on.
pub open spec fn made_all(code: RpcCode, conf: HandlerConf, first: u64, n: nat) -> Seq<
    BlockHandler,
> {
    Seq::new(
        n,
        |i: int| BlockHandler::made(code, counter::plus_u64(first, i as u64), conf),
    )
}

/// Every handler of a queue is of the type that the request needs.
pub open spec fn all_serve(queue: Seq<BlockHandler>, code: RpcCode) -> bool {
    forall|i: int| 0 <= i < queue.len() ==> (#[trigger] queue[i]).serves(code)
}

/// No handler of a queue has anything open.
pub open spec fn all_reset(queue: Seq<BlockHandler>) -> bool {
    forall|i: int| 0 <= i < queue.len() ==> (#[trigger] queue[i]).is_reset()
}

/// What a [`HandlerPool`] holds, as plain values.
#[verifier::ext_equal]
pub struct HandlerPoolState {
    pub readers: Seq<BlockHandler>,
    pub writers: Seq<BlockHandler>,
    pub batch_writers: Seq<BlockHandler>,
    pub conf: HandlerConf,
    pub capacity: usize,
    /// Number of the next handler.
    pub next_id: u64,
}

impl HandlerPoolState {
    /// What holds of a pool at all times: no handler is in the wrong queue, and none has
    /// anything open.
    pub open spec fn wf(self) -> bool {
        &&& all_reset(self.readers)
        &&& all_serve(self.readers, RpcCode::ReadBlock)
        &&& all_serve(self.writers, RpcCode::WriteBlock)
        &&& all_serve(self.batch_writers, RpcCode::WriteBlocksBatch)
    }

    /// The queue that serves a request.
    pub open spec fn queue(self, code: RpcCode) -> Seq<BlockHandler> {
        match code {
            RpcCode::ReadBlock => self.readers,
            RpcCode::WriteBlock => self.writers,
            RpcCode::WriteBlocksBatch => self.batch_writers,
            _ => Seq::<BlockHandler>::empty(),
        }
    }

    /// The pool with the queue that serves a request replaced.
    pub open spec fn with_queue(self, code: RpcCode, queue: Seq<BlockHandler>) -> HandlerPoolState {
        match code {
            RpcCode::ReadBlock => HandlerPoolState { readers: queue, ..self },
            RpcCode::WriteBlock => HandlerPoolState { writers: queue, ..self },
            RpcCode::WriteBlocksBatch => HandlerPoolState { batch_writers: queue, ..self },
            _ => self,
        }
    }

    /// The request whose handlers are of the same type.
    pub open spec fn code_of(handler: BlockHandler) -> RpcCode {
        match handler {
            BlockHandler::Writer(_) => RpcCode::WriteBlock,
            BlockHandler::BatchWriter(_) => RpcCode::WriteBlocksBatch,
            _ => RpcCode::ReadBlock,
        }
    }

    /// The pool after `capacity` handlers for the request were added.
    pub open spec fn filled(self, code: RpcCode) -> HandlerPoolState {
        let grown = self.with_queue(
            code,
            self.queue(code) + made_all(code, self.conf, self.next_id, self.capacity as nat),
        );
        HandlerPoolState {
            next_id: counter::plus_u64(self.next_id, self.capacity as u64),
            ..grown
        }
    }

    /// The pool after it was warmed up.
    pub open spec fn warmed(self) -> HandlerPoolState {
        self.filled(RpcCode::ReadBlock).filled(RpcCode::WriteBlock).filled(
            RpcCode::WriteBlocksBatch,
        )
    }

    /// The pool after a handler was asked for, and the handler.
    pub open spec fn acquire(self, code: RpcCode) -> (HandlerPoolState, Option<BlockHandler>) {
        let queue = self.queue(code);
        if queue.len() > 0 {
            (self.with_queue(code, queue.drop_first()), Some(queue[0]))
        } else {
            (self, None)
        }
    }

    /// The pool after a handler was put at the end of the queue of its type.
    pub open spec fn release(self, handler: BlockHandler) -> HandlerPoolState {
        let code = HandlerPoolState::code_of(handler);
        self.with_queue(code, self.queue(code).push(handler))
    }

    /// The pool after a handler was made outside of it.
    pub open spec fn create(self, code: RpcCode) -> (
        HandlerPoolState,
        Result<BlockHandler, FsError>,
    ) {
        if BlockHandler::supported(code) {
            (
                HandlerPoolState { next_id: counter::next_u64(self.next_id), ..self },
                Ok(BlockHandler::made(code, self.next_id, self.conf)),
            )
        } else {
            (self, Err(FsError::UnsupportedCode { code }))
        }
    }
}

/// Statistics of a handler pool.
#[derive(Debug, Clone, Copy, PartialEq, Eq, Structural)]
pub struct HandlerPoolStats {
    pub reader_available: usize,
    pub writer_available: usize,
    pub batch_writer_available: usize,
    pub capacity: usize,
}

/// Handler pool with a queue for each type of handler.
pub struct HandlerPool {
    reader_pool: SegQueue<BlockHandler>,
    writer_pool: SegQueue<BlockHandler>,
    batch_writer_pool: SegQueue<BlockHandler>,
    conf: HandlerConf,
    capacity: usize,
    next_id: u64,
}

impl View for HandlerPool {
    type V = HandlerPoolState;

    closed spec fn view(&self) -> HandlerPoolState {
        HandlerPoolState {
            readers: handler_queue::queued(self.reader_pool),
            writers: handler_queue::queued(self.writer_pool),
            batch_writers: handler_queue::queued(self.batch_writer_pool),
            conf: self.conf,
            capacity: self.capacity,
            next_id: self.next_id,
        }
    }
}

proof fn lemma_made_all_grows(code: RpcCode, conf: HandlerConf, first: u64, n: nat)
    requires
        n < u64::MAX,
    ensures
        made_all(code, conf, first, n + 1) == made_all(code, conf, first, n).push(
            BlockHandler::made(code, counter::plus_u64(first, n as u64), conf),
        ),
{
    assert(made_all(code, conf, first, n + 1) =~= made_all(code, conf, first, n).push(
        BlockHandler::made(code, counter::plus_u64(first, n as u64), conf),
    ));
}

impl HandlerPool {
    /// A pool that makes `capacity` handlers of each type when it is warmed up.
    pub fn new(capacity: usize, conf: HandlerConf) -> (r: Result<Self, FsError>)
        ensures
            r is Ok,
            r->Ok_0@.wf(),
            r->Ok_0@ == (HandlerPoolState {
                readers: Seq::empty(),
                writers: Seq::empty(),
                batch_writers: Seq::empty(),
                conf,
                capacity,
                next_id: 0,
            }),
    {
        Ok(
            HandlerPool {
                reader_pool: queue_new(),
                writer_pool: queue_new(),
                batch_writer_pool: queue_new(),
                conf,
                capacity,
                next_id: 0,
            },
        )
    }

    /// Adds `capacity` handlers for the request.
    fn fill(&mut self, code: RpcCode) -> (r: Result<(), FsError>)
        requires
            old(self)@.wf(),
            BlockHandler::supported(code),
        ensures
            r is Ok,
            final(self)@.wf(),
            final(self)@ == old(self)@.filled(code),
    {
        let ghost before = self@;
        let mut i: usize = 0;
        proof {
            assert(made_all(code, before.conf, before.next_id, 0) =~= Seq::empty());
            assert(before.queue(code) + made_all(code, before.conf, before.next_id, 0)
                =~= before.queue(code));
        }
        while i < self.capacity
            invariant
                BlockHandler::supported(code),
                self@.wf(),
                i <= before.capacity,
                self@ == (HandlerPoolState {
                    next_id: counter::plus_u64(before.next_id, i as u64),
                    ..before.with_queue(
                        code,
                        before.queue(code) + made_all(
                            code,
                            before.conf,
                            before.next_id,
                            i as nat,
                        ),
                    )
                }),
            decreases before.capacity - i,
        {
            let ghost so_far = made_all(code, before.conf, before.next_id, i as nat);
            match BlockHandler::new(code, self.next_id, self.conf) {
                Ok(handler) => {
                    proof {
                        lemma_made_all_grows(code, before.conf, before.next_id, i as nat);
                        assert((before.queue(code) + so_far).push(handler) =~= before.queue(code)
                            + made_all(code, before.conf, before.next_id, (i + 1) as nat));
                    }
                    match code {
                        RpcCode::ReadBlock => queue_push(&mut self.reader_pool, handler),
                        RpcCode::WriteBlock => queue_push(&mut self.writer_pool, handler),
                        _ => queue_push(&mut self.batch_writer_pool, handler),
                    }
                    self.next_id = count_u64(self.next_id);
                },
                Err(e) => {
                    return Err(e);
                },
            }
            i = i + 1;
        }
        Ok(())
    }

    /// Makes handlers in advance.
    pub fn warm_up(&mut self) -> (r: Result<(), FsError>)
        requires
            old(self)@.wf(),
        ensures
            r is Ok,
            final(self)@.wf(),
            final(self)@ == old(self)@.warmed(),
    {
        if let Err(e) = self.fill(RpcCode::ReadBlock) {
            return Err(e);
        }
        if let Err(e) = self.fill(RpcCode::WriteBlock) {
            return Err(e);
        }
        self.fill(RpcCode::WriteBlocksBatch)
    }

    /// Takes a handler for the request out of the pool. `None` where the pool has none: make
    /// one with [`HandlerPool::create_handler`].
    pub fn acquire(&mut self, code: RpcCode) -> (r: Option<BlockHandler>)
        requires
            old(self)@.wf(),
        ensures
            final(self)@.wf(),
            (final(self)@, r) == old(self)@.acquire(code),
    {
        match code {
            RpcCode::ReadBlock => queue_pop(&mut self.reader_pool),
            RpcCode::WriteBlock => queue_pop(&mut self.writer_pool),
            RpcCode::WriteBlocksBatch => queue_pop(&mut self.batch_writer_pool),
            _ => None,
        }
    }

    /// Gives a handler back: ends whatever it has open, and puts it at the end of the queue of
    /// its type.
    pub fn release(&mut self, handler: BlockHandler)
        requires
            old(self)@.wf(),
        ensures
            final(self)@.wf(),
            final(self)@ == old(self)@.release(handler.reset_state()),
    {
        let handler = handler.reset();
        match &handler {
            BlockHandler::RdmaReader(_) | BlockHandler::Reader(_) => {
                queue_push(&mut self.reader_pool, handler);
            },
            BlockHandler::Writer(_) => {
                queue_push(&mut self.writer_pool, handler);
            },
            BlockHandler::BatchWriter(_) => {
                queue_push(&mut self.batch_writer_pool, handler);
            },
        }
    }

    /// Statistics of the pool.
    pub fn stats(&self) -> (r: HandlerPoolStats)
        ensures
            r.reader_available == self@.readers.len(),
            r.writer_available == self@.writers.len(),
            r.batch_writer_available == self@.batch_writers.len(),
            r.capacity == self@.capacity,
    {
        HandlerPoolStats {
            reader_available: queue_len(&self.reader_pool),
            writer_available: queue_len(&self.writer_pool),
            batch_writer_available: queue_len(&self.batch_writer_pool),
            capacity: self.capacity,
        }
    }

    /// Makes a handler for a request that the pool has none for.
    pub fn create_handler(&mut self, code: RpcCode) -> (r: Result<BlockHandler, FsError>)
        requires
            old(self)@.wf(),
        ensures
            final(self)@.wf(),
            (final(self)@, r) == old(self)@.create(code),
    {
        match BlockHandler::new(code, self.next_id, self.conf) {
            Ok(handler) => {
                self.next_id = count_u64(self.next_id);
                Ok(handler)
            },
            Err(e) => Err(e),
        }
    }
}

/// A handler that the pool hands out is of the type that the request needs and has nothing open,
/// just as a new one.
pub proof fn law_acquired_handler_serves(p: HandlerPoolState, code: RpcCode)
    requires
        p.wf(),
    ensures
        p.acquire(code).1 matches Some(h) ==> h.serves(code) && h.is_reset(),
        p.create(code).1 matches Ok(h) ==> h.serves(code) && h.is_reset(),
        p.acquire(code).0.wf(),
{
}

/// A request that no handler serves gets none, neither from the pool nor made for it.
pub proof fn law_unsupported_is_refused(p: HandlerPoolState, code: RpcCode)
    requires
        p.wf(),
        !BlockHandler::supported(code),
    ensures
        p.acquire(code) == (p, None::<BlockHandler>),
        p.create(code) == (p, Err::<BlockHandler, FsError>(FsError::UnsupportedCode { code })),
{
}

/// A handler that was given back is handed out again with nothing open, whatever it had open,
/// for a request that it serves, once those before it are gone; with none before it, at once.
pub proof fn law_released_handler_is_reused(
    p: HandlerPoolState,
    handler: BlockHandler,
    code: RpcCode,
)
    requires
        p.wf(),
        handler.serves(code),
    ensures
        ({
            let back = handler.reset_state();
            &&& back.is_reset()
            &&& back.serves(code)
            &&& p.release(back).wf()
            &&& p.release(back).queue(code) == p.queue(code).push(back)
            &&& p.queue(code).len() == 0 ==> p.release(back).acquire(code) == (p, Some(back))
        }),
{
    let back = handler.reset_state();
    if p.queue(code).len() == 0 {
        assert(p.queue(code).push(back).drop_first() =~= p.queue(code));
    }
}

/// A reader that was given back, whatever it had open, is as good as new.
pub proof fn law_released_reader_is_as_new(
    reader: RdmaReadHandler,
    conf: HandlerConf,
    id: u64,
)
    requires
        conf.has_rdma_manager,
        reader.has_rdma_manager,
        reader.rdma_inline_threshold == conf.rdma_inline_threshold,
        reader.enable_send_file == conf.enable_send_file,
    ensures
        BlockHandler::RdmaReader(reader).reset_state() == BlockHandler::made(
            RpcCode::ReadBlock,
            id,
            conf,
        ),
{
}

/// Handing out and giving back a handler costs the pool nothing: the queue has as many
/// handlers as before, and the other queues are as they were.
pub proof fn law_release_restores_pool(
    p: HandlerPoolState,
    code: RpcCode,
    other: RpcCode,
    left: BlockHandler,
)
    requires
        p.wf(),
        p.acquire(code).1 is Some,
        left.serves(code),
        other != code,
    ensures
        ({
            let after = p.acquire(code).0.release(left.reset_state());
            &&& after.wf()
            &&& after.queue(code) == p.queue(code).drop_first().push(left.reset_state())
            &&& after.queue(code).len() == p.queue(code).len()
            &&& after.queue(other) == p.queue(other)
        }),
{
}

/// Warming a new pool up makes `capacity` handlers of each type available.
pub proof fn law_warm_pool(p: HandlerPoolState)
    requires
        p.readers.len() == 0,
        p.writers.len() == 0,
        p.batch_writers.len() == 0,
    ensures
        p.warmed().wf(),
        p.warmed().readers.len() == p.capacity,
        p.warmed().writers.len() == p.capacity,
        p.warmed().batch_writers.len() == p.capacity,
{
}

/// A new pool has no handlers and makes them with the settings that it was given.
pub proof fn law_new_pool_is_empty(
    capacity: usize,
    conf: HandlerConf,
    r: Result<HandlerPool, FsError>,
)
    requires
        call_ensures(HandlerPool::new, (capacity, conf), r),
    ensures
        r matches Ok(pool) && {
            &&& pool@.readers.len() == 0 && pool@.writers.len() == 0 && pool@.batch_writers.len()
                == 0
            &&& pool@.conf == conf && pool@.capacity == capacity && pool@.next_id == 0
        },
{
}

/// Warming up adds `capacity` new handlers of each type behind those that are there, and of no
/// other type. Readers take data by RDMA exactly where the worker has a transfer engine.
pub proof fn law_warming_up_adds_of_each_type(
    pool: &mut HandlerPool,
    r: Result<(), FsError>,
    i: int,
)
    requires
        call_ensures(HandlerPool::warm_up, (pool,), r),
        0 <= i < old(pool)@.capacity,
    ensures
        r is Ok,
        ({
            let before = old(pool)@;
            let after = final(pool)@;
            let n = before.capacity;
            &&& after.readers.len() == before.readers.len() + n
            &&& after.writers.len() == before.writers.len() + n
            &&& after.batch_writers.len() == before.batch_writers.len() + n
            &&& after.readers.take(before.readers.len() as int) == before.readers
            &&& after.writers.take(before.writers.len() as int) == before.writers
            &&& after.batch_writers.take(before.batch_writers.len() as int) == before.batch_writers
            &&& after.writers[before.writers.len() + i] is Writer
            &&& after.batch_writers[before.batch_writers.len() + i] is BatchWriter
            &&& match after.readers[before.readers.len() + i] {
                BlockHandler::Reader(_) => !before.conf.has_rdma_manager,
                BlockHandler::RdmaReader(reader) => before.conf.has_rdma_manager
                    && reader.has_rdma_manager && reader.context is None && reader.file is None
                    && reader.rdma_inline_threshold == before.conf.rdma_inline_threshold
                    && reader.enable_send_file == before.conf.enable_send_file,
                _ => false,
            }
            &&& after.conf == before.conf && after.capacity == before.capacity
        }),
{
    let before = old(pool)@;
    let after = final(pool)@;
    assert(after.readers.take(before.readers.len() as int) =~= before.readers);
    assert(after.writers.take(before.writers.len() as int) =~= before.writers);
    assert(after.batch_writers.take(before.batch_writers.len() as int) =~= before.batch_writers);
}

/// The handlers that are made in advance have numbers of their own.
pub proof fn law_handlers_are_numbered_in_turn(
    pool: &mut HandlerPool,
    r: Result<(), FsError>,
    i: int,
)
    requires
        call_ensures(HandlerPool::warm_up, (pool,), r),
        0 <= i < old(pool)@.capacity,
        old(pool)@.next_id + 3 * old(pool)@.capacity <= u64::MAX,
    ensures
        ({
            let before = old(pool)@;
            let after = final(pool)@;
            &&& after.readers[before.readers.len() + i] matches BlockHandler::Reader(id) ==> id
                == before.next_id + i
            &&& after.writers[before.writers.len() + i] == BlockHandler::Writer(
                (before.next_id + before.capacity + i) as u64,
            )
            &&& after.batch_writers[before.batch_writers.len() + i] == BlockHandler::BatchWriter(
                (before.next_id + 2 * before.capacity + i) as u64,
            )
            &&& after.next_id == before.next_id + 3 * before.capacity
        }),
{
}

/// A request gets the handler at the front of the queue of its type, which leaves the queue, and
/// none where that queue is empty. The other queues stay, and so do all where there is no type
/// for the request.
pub proof fn law_front_of_queue_is_taken(
    pool: &mut HandlerPool,
    code: RpcCode,
    r: Option<BlockHandler>,
)
    requires
        call_ensures(HandlerPool::acquire, (pool, code), r),
    ensures
        ({
            let before = old(pool)@;
            let after = final(pool)@;
            &&& code is ReadBlock ==> taken(before.readers, after.readers, r)
            &&& code is WriteBlock ==> taken(before.writers, after.writers, r)
            &&& code is WriteBlocksBatch ==> taken(before.batch_writers, after.batch_writers, r)
            &&& !(code is ReadBlock) ==> after.readers == before.readers
            &&& !(code is WriteBlock) ==> after.writers == before.writers
            &&& !(code is WriteBlocksBatch) ==> after.batch_writers == before.batch_writers
            &&& !(code is ReadBlock || code is WriteBlock || code is WriteBlocksBatch) ==> r is None
            &&& after.conf == before.conf && after.capacity == before.capacity && after.next_id
                == before.next_id
        }),
{
    let queue = old(pool)@.queue(code);
    if queue.len() > 0 {
        assert(queue =~= seq![queue[0]] + queue.drop_first());
    }
}

/// The first of `before` was taken and `after` is what is left; nothing where it was empty.
pub open spec fn taken(
    before: Seq<BlockHandler>,
    after: Seq<BlockHandler>,
    r: Option<BlockHandler>,
) -> bool {
    match r {
        Some(h) => before == seq![h] + after,
        None => before.len() == 0 && after.len() == 0,
    }
}

/// A handler that is given back comes last in the queue of its type and in no other; an RDMA
/// reader has nothing open then, and is otherwise as it was.
pub proof fn law_given_back_comes_last(pool: &mut HandlerPool, handler: BlockHandler)
    requires
        call_ensures(HandlerPool::release, (pool, handler), ()),
    ensures
        ({
            let before = old(pool)@;
            let after = final(pool)@;
            match handler {
                BlockHandler::Reader(_) => after == (HandlerPoolState {
                    readers: before.readers.push(handler),
                    ..before
                }),
                BlockHandler::Writer(_) => after == (HandlerPoolState {
                    writers: before.writers.push(handler),
                    ..before
                }),
                BlockHandler::BatchWriter(_) => after == (HandlerPoolState {
                    batch_writers: before.batch_writers.push(handler),
                    ..before
                }),
                BlockHandler::RdmaReader(reader) => after == (HandlerPoolState {
                    readers: before.readers.push(
                        BlockHandler::RdmaReader(
                            RdmaReadHandler { context: None, file: None, ..reader },
                        ),
                    ),
                    ..before
                }),
            }
        }),
{
}

/// A handler can be made for a request exactly where there is a type for it: it is of that type,
/// carries the next number, and takes nothing out of the queues.
pub proof fn law_made_for_its_request(
    pool: &mut HandlerPool,
    code: RpcCode,
    r: Result<BlockHandler, FsError>,
)
    requires
        call_ensures(HandlerPool::create_handler, (pool, code), r),
    ensures
        r is Ok <==> code is ReadBlock || code is WriteBlock || code is WriteBlocksBatch,
        r matches Ok(h) ==> is_new(h, code, old(pool)@.next_id, old(pool)@.conf),
        r matches Err(e) ==> e == (FsError::UnsupportedCode { code }),
        r is Ok && old(pool)@.next_id < u64::MAX ==> final(pool)@.next_id == old(pool)@.next_id + 1,
        r is Err ==> final(pool)@.next_id == old(pool)@.next_id,
        final(pool)@ == (HandlerPoolState { next_id: final(pool)@.next_id, ..old(pool)@ }),
{
}

/// `h` is a new handler for the request, with the number and the settings.
pub open spec fn is_new(h: BlockHandler, code: RpcCode, id: u64, conf: HandlerConf) -> bool {
    match h {
        BlockHandler::Writer(n) => code is WriteBlock && n == id,
        BlockHandler::BatchWriter(n) => code is WriteBlocksBatch && n == id,
        BlockHandler::Reader(n) => code is ReadBlock && n == id && !conf.has_rdma_manager,
        BlockHandler::RdmaReader(r) => {
            &&& code is ReadBlock && conf.has_rdma_manager
            &&& r.has_rdma_manager && r.context is None && r.file is None
            &&& r.rdma_inline_threshold == conf.rdma_inline_threshold
            &&& r.enable_send_file == conf.enable_send_file
        },
    }
}

/// The same of a handler that is made without a pool.
pub proof fn law_new_handler_is_of_its_type(
    code: RpcCode,
    id: u64,
    conf: HandlerConf,
    r: Result<BlockHandler, FsError>,
)
    requires
        call_ensures(BlockHandler::new, (code, id, conf), r),
    ensures
        r is Ok <==> code is ReadBlock || code is WriteBlock || code is WriteBlocksBatch,
        r matches Ok(h) ==> is_new(h, code, id, conf),
        r matches Err(e) ==> e == (FsError::UnsupportedCode { code }),
{
}

/// Resetting ends what an RDMA reader has open and changes nothing else of it, nor anything of
/// another handler.
pub proof fn law_reset_only_closes(handler: BlockHandler, r: BlockHandler)
    requires
        call_ensures(BlockHandler::reset, (handler,), r),
    ensures
        handler matches BlockHandler::RdmaReader(reader) ==> r == BlockHandler::RdmaReader(
            RdmaReadHandler { context: None, file: None, ..reader },
        ),
        !(handler is RdmaReader) ==> r == handler,
{
}

/// The statistics count the handlers of each queue.
pub proof fn law_statistics_count_queues(pool: HandlerPool, r: HandlerPoolStats)
    requires
        call_ensures(HandlerPool::stats, (&pool,), r),
    ensures
        r.reader_available == pool@.readers.len(),
        r.writer_available == pool@.writers.len(),
        r.batch_writer_available == pool@.batch_writers.len(),
        r.capacity == pool@.capacity,
{
}

} // verus!
