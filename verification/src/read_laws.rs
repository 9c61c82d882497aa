//! What the steps of a read promise together.

use crate::data_slice::{read_buffered_to_rdma, DataSlice};
use crate::error::FsError;
use crate::free_list;
use crate::free_list::FreeBlock;
use crate::memory_pool;
use crate::memory_pool::{PoolState, RdmaMemoryPool};
use crate::pool_laws;
use crate::rdma_read_handler::{
    read_direct_to_rdma, read_direct_to_rdma_uring, BlockMeta, BlockReadResponse, OpenStep,
    PendingOpen, RdmaReadHandler, ReadContext, ReadRequest, ReadSource, RegionRead, RequestStatus,
    StagedTransfer, TransferStep, WorkerMetrics,
};
use crate::shared_bytes;
use crate::transfer_engine_manager::{TransferEngineManager, WriteRequest};
use vstd::prelude::*;

verus! {

/// However a transfer ends, nothing is left of it: once its staging buffer was allocated,
/// written and given back, as many bytes of the pool are in use as before, and every other
/// live allocation holds what it held.
pub proof fn law_transfer_leaves_no_trace(
    pool: PoolState,
    live: Seq<FreeBlock>,
    staging: memory_pool::AllocationView,
    data: Seq<u8>,
)
    requires
        pool_laws::consistent(pool, live),
        pool.countable(staging.size),
        pool.allocate(staging.size).1 == Some(staging.offset),
        data.len() == staging.size,
    ensures
        ({
            let grown = pool.allocate(staging.size).0;
            let filled = PoolState {
                memory: grown.memory.take(staging.offset as int) + data + grown.memory.skip(
                    staging.offset + staging.size,
                ),
                ..grown
            };
            let after = filled.deallocate(staging.extent());
            &&& pool_laws::consistent(after, live)
            &&& pool_laws::accounted(pool, live) ==> after.used_bytes() == pool.used_bytes()
            &&& after.total() == pool.total()
            &&& forall|i: int, p: int|
                0 <= i < live.len() && (#[trigger] live[i]).covers(p) ==> #[trigger] after.memory[p]
                    == pool.memory[p]
        }),
{
    let grown = pool.allocate(staging.size).0;
    let b = staging.extent();
    let filled = PoolState {
        memory: grown.memory.take(staging.offset as int) + data + grown.memory.skip(
            staging.offset + staging.size,
        ),
        ..grown
    };
    let plain = grown.deallocate(b);
    let after = filled.deallocate(b);
    pool_laws::law_allocation_is_exclusive(pool, live, staging.size);
    pool_laws::law_deallocate_undoes_allocate(pool, live, staging.size);
    assert(b == pool_laws::extent(staging.offset, staging.size));
    assert(filled.memory.len() == grown.memory.len());
    assert(pool_laws::consistent(plain, live));
    assert forall|i: int, p: int|
        0 <= i < live.len() && (#[trigger] live[i]).covers(p) implies #[trigger] after.memory[p]
        == pool.memory[p] by {
        assert(live[i].apart_from(b));
        assert(live[i].end() <= pool.total());
    }
}

/// A read whose file was opened can be streamed and completed; once it is completed, both are
/// refused until another read is opened.
pub proof fn law_streamed_read(
    h: RdmaReadHandler,
    context: ReadContext,
    file: u64,
    req_id: i64,
)
    ensures
        ({
            let open = h.opened_by_tcp(context, file);
            &&& open.chunk(req_id) == Ok::<RegionRead, FsError>(
                RegionRead {
                    file,
                    send_file: h.enable_send_file,
                    chunk_size: context.chunk_size,
                },
            )
            &&& open.completion(req_id) is Ok
            &&& open.completed().chunk(req_id) == Err::<RegionRead, FsError>(
                FsError::ReadNotOpen { req_id, file: false, context: false },
            )
            &&& open.completed().completion(req_id) == Err::<(), FsError>(
                FsError::CompleteNotOpen { req_id, file: false },
            )
        }),
{
}

/// A read whose data went by RDMA is not streamed as well: a request for a chunk is refused,
/// and completing it is not. This is of a handler that had no file open.
pub proof fn law_transferred_read(h: RdmaReadHandler, context: ReadContext, req_id: i64)
    requires
        h.file is None,
    ensures
        ({
            let open = h.opened_by_rdma(context);
            &&& open.chunk(req_id) == Err::<RegionRead, FsError>(
                FsError::ReadNotOpen { req_id, file: false, context: true },
            )
            &&& open.completion(req_id) is Ok
            &&& open.completed() == h.completed()
        }),
{
}

/// A read that falls back is answered as one that does not, but for the way the data goes: the
/// client learns of the same block, and that it has to stream it.
pub proof fn law_fallback_answers_the_same(pending: PendingOpen)
    ensures
        pending.response(false) == (BlockReadResponse {
            rdma_transfer: Some(false),
            ..pending.response(true)
        }),
{
}

/// Reads below the threshold, from clients that gave no target, or on workers without RDMA go
/// by TCP.
pub proof fn law_tcp_reads(h: RdmaReadHandler, context: ReadContext)
    requires
        h.rdma_inline_threshold <= i64::MAX,
    ensures
        context.len < h.rdma_inline_threshold ==> !h.uses_rdma(context),
        context.rdma_target is None ==> !h.uses_rdma(context),
        !h.has_rdma_manager ==> !h.uses_rdma(context),
{
}

/// The sources of a read are tried one after the other, the buffered one last, and none twice.
pub proof fn law_sources_end_with_buffered(io_uring: bool)
    ensures
        ({
            let first = ReadSource::first_of(io_uring);
            if io_uring {
                first.next().unwrap().next() == Some(ReadSource::Buffered)
            } else {
                first.next() == Some(ReadSource::Buffered)
            }
        }),
        ReadSource::Buffered.next() is None,
{
}

/// A read is opened by RDMA exactly when the worker has a transfer engine, the read is at least
/// as long as the threshold and the client gave a target; nothing else has a say, and no read is
/// too long. Any other read is streamed. A read that starts past the end of the block is refused,
/// and no other. What was asked for, and what is known of the block, goes along.
pub proof fn law_large_reads_go_by_rdma(
    h: RdmaReadHandler,
    context: ReadContext,
    meta: BlockMeta,
    metrics: &mut WorkerMetrics,
    r: Result<OpenStep, FsError>,
)
    requires
        call_ensures(RdmaReadHandler::open, (&h, context, meta, metrics), r),
        h.rdma_inline_threshold <= i64::MAX,
    ensures
        ({
            let by_rdma = h.has_rdma_manager && context.len >= h.rdma_inline_threshold
                && context.rdma_target is Some;
            let pending = PendingOpen { context, meta };
            &&& context.off > meta.len ==> r == Err::<OpenStep, FsError>(
                FsError::OffsetBeyondBlock { off: context.off, len: meta.len },
            )
            &&& context.off <= meta.len && by_rdma ==> r == Ok::<OpenStep, FsError>(
                OpenStep::Transfer(pending),
            )
            &&& context.off <= meta.len && !by_rdma ==> r == Ok::<OpenStep, FsError>(
                OpenStep::OpenFile(pending),
            )
            &&& (r matches Ok(OpenStep::Transfer(_))) ==> final(metrics).rdma_enabled == 1
            &&& !(r matches Ok(OpenStep::Transfer(_))) ==> final(metrics).rdma_enabled == old(
                metrics).rdma_enabled
            &&& *final(metrics) == (WorkerMetrics {
                rdma_enabled: final(metrics).rdma_enabled,
                ..*old(metrics)
            })
        }),
{
}

/// The decision by itself.
pub proof fn law_rdma_needs_engine_size_and_target(h: RdmaReadHandler, context: ReadContext, r: bool)
    requires
        call_ensures(RdmaReadHandler::should_use_rdma, (&h, &context), r),
        h.rdma_inline_threshold <= i64::MAX,
    ensures
        r <==> h.has_rdma_manager && context.len >= h.rdma_inline_threshold
            && context.rdma_target is Some,
        h.uses_rdma(context) <==> r,
{
}

/// A longer read with the same target goes by RDMA wherever a shorter one does.
pub proof fn law_longer_reads_go_by_rdma_too(
    h: RdmaReadHandler,
    short: ReadContext,
    long: ReadContext,
    r: bool,
    q: bool,
)
    requires
        call_ensures(RdmaReadHandler::should_use_rdma, (&h, &short), r),
        call_ensures(RdmaReadHandler::should_use_rdma, (&h, &long), q),
        short.len <= long.len,
        short.rdma_target is Some ==> long.rdma_target is Some,
        r,
    ensures
        q,
{
}

/// A handler starts with no read open and with the settings that it was given.
pub proof fn law_new_handler_has_nothing_open(
    has_rdma_manager: bool,
    threshold: usize,
    send_file: bool,
    r: RdmaReadHandler,
)
    requires
        call_ensures(RdmaReadHandler::new, (has_rdma_manager, threshold, send_file), r),
    ensures
        r.has_rdma_manager == has_rdma_manager,
        r.rdma_inline_threshold == threshold,
        r.enable_send_file == send_file,
        r.context is None,
        r.file is None,
{
}

/// A transfer gets a staging buffer of the length of the read wherever the pool has room for it,
/// and only there falls back to a file otherwise. The buffer is filled past the page cache first,
/// by io_uring where that is at hand.
pub proof fn law_transfer_is_staged(
    h: RdmaReadHandler,
    pending: PendingOpen,
    io_uring: bool,
    pool: &mut RdmaMemoryPool,
    metrics: &mut WorkerMetrics,
    r: TransferStep,
)
    requires
        call_ensures(RdmaReadHandler::begin_transfer, (&h, pending, io_uring, pool, metrics), r),
        0 <= pending.context.len <= usize::MAX - 63,
        old(pool)@.wf(),
        old(pool)@.countable(pending.context.len as usize),
    ensures
        ({
            let n = (pending.context.len + 63) / 64 * 64;
            let room = old(pool)@.current_offset + n <= old(pool)@.memory.len() || exists|i: int|
                0 <= i < old(pool)@.free.len() && (#[trigger] old(pool)@.free[i]).size >= n;
            &&& r is Fill <==> room
            &&& r is FallBack <==> !room
            &&& r matches TransferStep::Fill(t) ==> {
                &&& t.pending == pending
                &&& t.source is IoUring <==> io_uring
                &&& t.source is Pread <==> !io_uring
                &&& t.staging@.size == pending.context.len
                &&& t.staging@.offset + pending.context.len <= old(pool)@.memory.len()
                &&& t.staging@.handle == old(pool)@.handle
                &&& *final(metrics) == *old(metrics)
            }
            &&& r matches TransferStep::FallBack(p, e) ==> {
                &&& p == pending
                &&& e is Pool
                &&& old(metrics).rdma_fallback_to_tcp < u64::MAX - 1 ==> final(
                    metrics).rdma_fallback_to_tcp == old(metrics).rdma_fallback_to_tcp + 2
                &&& *final(metrics) == (WorkerMetrics {
                    rdma_fallback_to_tcp: final(metrics).rdma_fallback_to_tcp,
                    ..*old(metrics)
                })
            }
            &&& final(pool)@.memory == old(pool)@.memory
        }),
{
    pool_laws::law_refused_exactly_when_full(old(pool)@, pending.context.len as usize);
}

/// Whatever a source read is submitted, as many bytes as it read. A source that failed is
/// followed by the next, io_uring by a direct read and that by a buffered one, with the same
/// buffer; after the last one the read falls back, with the error, and the buffer's bytes are free
/// again.
pub proof fn law_staging_tries_each_source(
    h: RdmaReadHandler,
    transfer: StagedTransfer,
    outcome: Result<usize, FsError>,
    pool: &mut RdmaMemoryPool,
    metrics: &mut WorkerMetrics,
    r: TransferStep,
)
    requires
        call_ensures(RdmaReadHandler::staging_filled, (&h, transfer, outcome, pool, metrics), r),
        old(pool)@.wf(),
        transfer.staging@.belongs_to(old(pool)@),
    ensures
        outcome matches Ok(n) ==> r == TransferStep::Submit(transfer, n),
        outcome is Err && transfer.source is IoUring ==> (r matches TransferStep::Fill(t)
            && t.source is Pread && t.pending == transfer.pending && t.staging == transfer.staging),
        outcome is Err && transfer.source is Pread ==> (r matches TransferStep::Fill(t)
            && t.source is Buffered && t.pending == transfer.pending && t.staging
            == transfer.staging),
        outcome is Err && transfer.source is Buffered ==> {
            &&& r == TransferStep::FallBack(transfer.pending, outcome->Err_0)
            &&& free_list::total_size(final(pool)@.free) == free_list::total_size(old(pool)@.free) + (
            transfer.staging@.size + 63) / 64 * 64
            &&& old(metrics).rdma_fallback_to_tcp < u64::MAX ==> final(
                metrics).rdma_fallback_to_tcp == old(metrics).rdma_fallback_to_tcp + 1
        },
        outcome is Ok || !(transfer.source is Buffered) ==> final(pool)@ == old(pool)@
            && *final(metrics) == *old(metrics),
        final(pool)@.memory == old(pool)@.memory,
        *final(metrics) == (WorkerMetrics {
            rdma_fallback_to_tcp: final(metrics).rdma_fallback_to_tcp,
            ..*old(metrics)
        }),
{
    free_list::lemma_place_total_size(old(pool)@.free, transfer.staging@.extent());
}

/// A write that was done leaves the read open without a file, answers the client that its data
/// was transferred, and counts a transfer and its bytes. One that failed leaves the handler as it
/// was and falls back, with the reason. Either way the staging buffer's bytes are free again.
pub proof fn law_submitted_transfer_ends(
    h: &mut RdmaReadHandler,
    transfer: StagedTransfer,
    bytes_read: usize,
    outcome: Result<(), String>,
    pool: &mut RdmaMemoryPool,
    metrics: &mut WorkerMetrics,
    r: TransferStep,
)
    requires
        call_ensures(
            RdmaReadHandler::transfer_submitted,
            (h, transfer, bytes_read, outcome, pool, metrics),
            r,
        ),
        old(pool)@.wf(),
        transfer.staging@.belongs_to(old(pool)@),
    ensures
        outcome is Ok ==> {
            &&& r matches TransferStep::Done(response)
            &&& response.id == transfer.pending.context.block_id
            &&& response.len == transfer.pending.meta.len
            &&& response.storage_type == transfer.pending.meta.storage_type
            &&& response.path is None
            &&& response.rdma_transfer == Some(true)
            &&& final(h).context == Some(transfer.pending.context)
            &&& old(metrics).rdma_transfers_total < u64::MAX ==> final(
                metrics).rdma_transfers_total == old(metrics).rdma_transfers_total + 1
            &&& old(metrics).rdma_bytes_written + bytes_read <= u64::MAX ==> final(
                metrics).rdma_bytes_written == old(metrics).rdma_bytes_written + bytes_read
            &&& final(metrics).rdma_fallback_to_tcp == old(metrics).rdma_fallback_to_tcp
        },
        outcome matches Err(e) ==> {
            &&& r matches TransferStep::FallBack(p, FsError::Outside { reason }) && p
                == transfer.pending && reason == e
            &&& *final(h) == *old(h)
            &&& old(metrics).rdma_fallback_to_tcp < u64::MAX ==> final(
                metrics).rdma_fallback_to_tcp == old(metrics).rdma_fallback_to_tcp + 1
            &&& final(metrics).rdma_transfers_total == old(metrics).rdma_transfers_total
            &&& final(metrics).rdma_bytes_written == old(metrics).rdma_bytes_written
        },
        final(h).file == old(h).file,
        final(h).has_rdma_manager == old(h).has_rdma_manager,
        final(h).rdma_inline_threshold == old(h).rdma_inline_threshold,
        final(h).enable_send_file == old(h).enable_send_file,
        final(metrics).rdma_enabled == old(metrics).rdma_enabled,
        final(metrics).read_bytes == old(metrics).read_bytes,
        final(metrics).read_count == old(metrics).read_count,
        free_list::total_size(final(pool)@.free) == free_list::total_size(old(pool)@.free) + (
        transfer.staging@.size + 63) / 64 * 64,
        final(pool)@.memory == old(pool)@.memory,
{
    free_list::lemma_place_total_size(old(pool)@.free, transfer.staging@.extent());
}

/// A file that was opened leaves the read open with it, and answers the client that it has to
/// stream the data. One that could not be opened leaves the handler as it was.
pub proof fn law_opened_file_is_streamed(
    h: &mut RdmaReadHandler,
    pending: PendingOpen,
    outcome: Result<u64, FsError>,
    r: Result<BlockReadResponse, FsError>,
)
    requires
        call_ensures(RdmaReadHandler::file_opened, (h, pending, outcome), r),
    ensures
        outcome matches Ok(file) ==> {
            &&& r matches Ok(response)
            &&& response.id == pending.context.block_id
            &&& response.len == pending.meta.len
            &&& response.storage_type == pending.meta.storage_type
            &&& response.path is None
            &&& response.rdma_transfer == Some(false)
            &&& final(h).context == Some(pending.context)
            &&& final(h).file == Some(file)
        },
        outcome matches Err(e) ==> r == Err::<BlockReadResponse, FsError>(e) && *final(h) == *old(
            h),
        final(h).has_rdma_manager == old(h).has_rdma_manager,
        final(h).rdma_inline_threshold == old(h).rdma_inline_threshold,
        final(h).enable_send_file == old(h).enable_send_file,
{
}

/// A chunk is read exactly where a read is open with a file: from that file, in chunks of the
/// size that the client asked for. Otherwise the request is refused, and what is missing is told.
pub proof fn law_chunk_comes_from_open_file(
    h: RdmaReadHandler,
    req_id: i64,
    r: Result<RegionRead, FsError>,
)
    requires
        call_ensures(RdmaReadHandler::read, (&h, req_id), r),
    ensures
        r is Ok <==> h.file is Some && h.context is Some,
        r matches Ok(region) ==> {
            &&& h.file == Some(region.file)
            &&& h.context matches Some(c) && region.chunk_size == c.chunk_size
            &&& region.send_file == h.enable_send_file
        },
        r matches Err(e) ==> e == (FsError::ReadNotOpen {
            req_id,
            file: h.file is Some,
            context: h.context is Some,
        }),
{
}

/// Completing a read that is open leaves nothing open; completing when none is open is refused
/// and changes nothing.
pub proof fn law_completing_leaves_nothing_open(
    h: &mut RdmaReadHandler,
    req_id: i64,
    r: Result<(), FsError>,
)
    requires
        call_ensures(RdmaReadHandler::complete, (h, req_id), r),
    ensures
        r is Ok <==> old(h).context is Some,
        r is Ok ==> final(h).context is None && final(h).file is None,
        r matches Err(e) ==> e == (FsError::CompleteNotOpen { req_id, file: old(h).file is Some })
            && *final(h) == *old(h),
        final(h).has_rdma_manager == old(h).has_rdma_manager,
        final(h).rdma_inline_threshold == old(h).rdma_inline_threshold,
        final(h).enable_send_file == old(h).enable_send_file,
{
}

/// A request opens, reads or completes by its status; a request with another status is refused.
pub proof fn law_status_decides_request(
    h: RdmaReadHandler,
    status: RequestStatus,
    r: Result<ReadRequest, FsError>,
)
    requires
        call_ensures(RdmaReadHandler::handle, (&h, status), r),
    ensures
        (r matches Ok(ReadRequest::Open)) <==> status is Open,
        (r matches Ok(ReadRequest::Read)) <==> status is Running,
        (r matches Ok(ReadRequest::Complete)) <==> status is Complete,
        r is Err <==> status is Rpc || status is Cancel,
        r matches Err(e) ==> e == FsError::UnsupportedRequest,
{
}

/// A chunk that was streamed counts once, with its bytes, and counts for nothing else.
pub proof fn law_streamed_chunk_is_counted(
    h: RdmaReadHandler,
    len: usize,
    metrics: &mut WorkerMetrics,
    fresh: WorkerMetrics,
)
    requires
        call_ensures(RdmaReadHandler::region_read, (&h, len, metrics), ()),
        call_ensures(WorkerMetrics::new, (), fresh),
    ensures
        old(metrics).read_count < u64::MAX ==> final(metrics).read_count == old(metrics).read_count
            + 1,
        old(metrics).read_bytes + len <= u64::MAX ==> final(metrics).read_bytes == old(
            metrics).read_bytes + len,
        final(metrics).rdma_enabled == old(metrics).rdma_enabled,
        final(metrics).rdma_transfers_total == old(metrics).rdma_transfers_total,
        final(metrics).rdma_bytes_written == old(metrics).rdma_bytes_written,
        final(metrics).rdma_fallback_to_tcp == old(metrics).rdma_fallback_to_tcp,
        fresh.read_count == 0 && fresh.read_bytes == 0 && fresh.rdma_enabled == 0
            && fresh.rdma_transfers_total == 0 && fresh.rdma_bytes_written == 0
            && fresh.rdma_fallback_to_tcp == 0,
{
}

/// io_uring is tried first where it is at hand, a direct read comes after it and else first, and
/// a buffered read comes last.
pub proof fn law_sources_come_in_turn(
    io_uring: bool,
    first: ReadSource,
    source: ReadSource,
    next: Option<ReadSource>,
)
    requires
        call_ensures(ReadSource::first, (io_uring,), first),
        call_ensures(ReadSource::fallback, (source,), next),
    ensures
        first is IoUring <==> io_uring,
        first is Pread <==> !io_uring,
        source is IoUring <==> next == Some(ReadSource::Pread),
        source is Pread <==> next == Some(ReadSource::Buffered),
        source is Buffered <==> next is None,
{
}

/// A direct read of the disk, in either way, read as many bytes as the system says, and failed
/// exactly where the system returned a negative number.
pub proof fn law_direct_read_counts_bytes(
    returned: isize,
    completed: i32,
    why: String,
    reason: String,
    r: Result<usize, FsError>,
    q: Result<usize, FsError>,
)
    requires
        call_ensures(read_direct_to_rdma, (returned, why), r),
        call_ensures(read_direct_to_rdma_uring, (completed, reason), q),
    ensures
        r is Err <==> returned < 0,
        r matches Ok(n) ==> n == returned,
        r matches Err(e) ==> e == (FsError::DirectRead { reason: why }),
        q is Err <==> completed < 0,
        q matches Ok(n) ==> n == completed,
        q matches Err(e) ==> e == (FsError::UringRead { reason }),
{
}

/// The bytes of a buffered read come to the front of the staging buffer, all of them or none:
/// where they do not fit, or there are none in memory, the buffer stays as it was. What lies
/// behind them stays in any case.
pub proof fn law_buffered_read_fills_front(
    data: DataSlice,
    buffer: &mut [u8],
    r: Result<usize, FsError>,
    bytes: Seq<u8>,
)
    requires
        call_ensures(read_buffered_to_rdma, (&data, buffer), r),
        old(buffer)@.len() <= usize::MAX,
        bytes.len() <= usize::MAX,
        match data {
            DataSlice::Buffer(v) => v@ == bytes,
            DataSlice::MemSlice(v) => v@ == bytes,
            DataSlice::Bytes(b) => shared_bytes::bytes_content(b) == bytes,
            _ => true,
        },
    ensures
        final(buffer)@.len() == old(buffer)@.len(),
        r is Ok <==> !(data is IOSlice) && !(data is Empty) && bytes.len() <= old(buffer)@.len(),
        r matches Ok(n) ==> {
            &&& n == bytes.len()
            &&& final(buffer)@.take(n as int) == bytes
            &&& final(buffer)@.skip(n as int) == old(buffer)@.skip(n as int)
        },
        r is Err ==> final(buffer)@ == old(buffer)@,
        data is IOSlice ==> r == Err::<usize, FsError>(FsError::UnexpectedIoSlice),
        data is Empty ==> r == Err::<usize, FsError>(FsError::EmptyDataSlice),
        r is Err && !(data is IOSlice) && !(data is Empty) ==> (
        r matches Err(FsError::BufferTooSmall { have, need }) && have == old(buffer)@.len() && need
            == bytes.len()),
{
    if let Ok(n) = r {
        assert(final(buffer)@.take(n as int) =~= bytes);
        assert(final(buffer)@.skip(n as int) =~= old(buffer)@.skip(n as int));
    }
}

/// How long a piece of data is does not depend on how it is held.
pub proof fn law_data_length(data: DataSlice, r: usize, nothing: DataSlice)
    requires
        call_ensures(DataSlice::len, (&data,), r),
        call_ensures(DataSlice::empty, (), nothing),
    ensures
        nothing is Empty,
        match data {
            DataSlice::Buffer(v) => r == v@.len(),
            DataSlice::MemSlice(v) => r == v@.len(),
            DataSlice::Bytes(b) => r == shared_bytes::bytes_content(b).len(),
            DataSlice::IOSlice { len, .. } => r == len,
            DataSlice::Empty => r == 0,
        },
{
}

/// The write that carries a read to the client takes its bytes from the front of the staging
/// buffer, as many as were read, and goes to where the client wants them.
pub proof fn law_write_carries_staged_bytes(
    transfer: StagedTransfer,
    bytes_read: usize,
    manager: TransferEngineManager,
    r: WriteRequest,
)
    requires
        call_ensures(StagedTransfer::write_request, (&transfer, bytes_read, &manager), r),
        transfer.pending.context.rdma_target is Some,
    ensures
        r.src_handle == transfer.staging@.handle,
        r.src_offset == transfer.staging@.offset,
        r.length == bytes_read,
        r.dst@ == transfer.pending.context.rdma_target->Some_0@,
        r.dst.ptr == transfer.pending.context.rdma_target->Some_0.ptr,
        r.dst_offset == transfer.pending.context.rdma_target_offset,
        manager@.num_domains <= u8::MAX ==> r.num_shards == manager@.num_domains,
{
    assert(r.dst@.ptr == r.dst.ptr);
}

/// The file is read from the offset of the read, and a buffered read fetches its length.
pub proof fn law_file_is_read_at_offset(pending: PendingOpen, off: u64, len: i32)
    requires
        call_ensures(PendingOpen::file_offset, (&pending,), off),
        call_ensures(PendingOpen::buffered_len, (&pending,), len),
    ensures
        pending.context.off >= 0 ==> off == pending.context.off,
        i32::MIN <= pending.context.len <= i32::MAX ==> len == pending.context.len,
{
}

} // verus!
