//! What the client's readers promise.

use crate::block_reader;
use crate::block_reader::{
    BlockCursor, BlockReadStep, BlockReader, OpenReader, ReadWay, ReaderAdapter,
};
use crate::block_reader_rdma::{
    BlockReaderRdma, CommitRequest, PreparedRead, RdmaReaderState, ReadStep,
};
use crate::client_rdma_manager::ClientRdmaManager;
use crate::error::FsError;
use crate::memory_pool;
use crate::memory_pool::RdmaMemoryPool;
use crate::rdma_read_handler::BlockReadResponse;
use crate::shared_bytes;
use crate::state;
use crate::state::{ClientConf, ExtendedBlock, FsContext, LocatedBlock, WorkerAddress};
use std::sync::Arc;
use vstd::prelude::*;

verus! {

/// What the worker put into the buffer is what the reader hands out, from its position on. A
/// read from the start of a block whose buffer holds all of it hands out all of it, and is
/// then at its end.
pub proof fn law_reader_hands_out_what_was_transferred(
    reader: RdmaReaderState,
    buffer: memory_pool::AllocationView,
    memory: Seq<u8>,
    data: Seq<u8>,
)
    requires
        reader.buffer == Some(buffer),
        buffer.offset + buffer.size <= memory.len(),
        data.len() == buffer.size,
        0 <= reader.pos <= reader.len,
    ensures
        ({
            let filled = memory.take(buffer.offset as int) + data + memory.skip(
                buffer.offset + buffer.size,
            );
            &&& reader.pos <= buffer.size ==> reader.window(filled) == data.subrange(
                reader.pos as int,
                reader.pos + reader.buffered(),
            )
            &&& reader.pos == 0 && reader.len == buffer.size ==> {
                &&& reader.window(filled) == data
                &&& reader.pos + reader.buffered() == reader.len
            }
        }),
{
    let filled = memory.take(buffer.offset as int) + data + memory.skip(
        buffer.offset + buffer.size,
    );
    if reader.pos <= buffer.size {
        assert(reader.window(filled) =~= data.subrange(
            reader.pos as int,
            reader.pos + reader.buffered(),
        ));
    }
    if reader.pos == 0 && reader.len == buffer.size {
        assert(reader.window(filled) =~= data);
    }
}

/// The address that a worker is given for a buffer is the buffer's own: as long as it writes no
/// more than the buffer holds, every byte it writes lies in the buffer, and so in the pool and
/// in no other allocation.
pub proof fn law_transfer_stays_in_buffer(
    pool: memory_pool::PoolState,
    buffer: memory_pool::AllocationView,
    written: int,
    address: int,
)
    requires
        pool.wf(),
        buffer.belongs_to(pool),
        0 <= written <= buffer.size,
        buffer.ptr <= address < buffer.ptr + written,
    ensures
        buffer.extent().covers(address - pool.base),
        0 <= address - pool.base < pool.total(),
{
}

/// After a seek back the same bytes are handed out again: a window that starts earlier holds
/// what a later one holds, at its place.
pub proof fn law_seek_back_reads_again(
    reader: RdmaReaderState,
    earlier: i64,
    memory: Seq<u8>,
)
    requires
        reader.buffer is Some,
        0 <= earlier <= reader.pos < reader.len,
        reader.pos < reader.buffer.unwrap().size,
        reader.buffer.unwrap().offset + reader.buffer.unwrap().size <= memory.len(),
    ensures
        ({
            let back = RdmaReaderState { pos: earlier, ..reader };
            back.window(memory).skip(reader.pos - earlier) == reader.window(memory)
        }),
{
    let back = RdmaReaderState { pos: earlier, ..reader };
    assert(back.window(memory).skip(reader.pos - earlier) =~= reader.window(memory));
}

/// RDMA is tried only where the client has it set up and the worker offers it at some address;
/// everywhere else the read goes by TCP or from the worker's files.
pub proof fn law_rdma_needs_both_sides(ctx: FsContext, worker: state::WorkerAddressView)
    ensures
        block_reader::way_to(ctx, worker) is Rdma ==> ctx.has_rdma && worker.supports_rdma(),
        !ctx.has_rdma || !worker.supports_rdma() ==> block_reader::way_to(ctx, worker) is Remote
            || block_reader::way_to(ctx, worker) is Local,
{
}

/// Ordering the workers of a block loses none and adds none, and puts one on the client's host
/// first if there is one.
pub proof fn law_local_worker_comes_first(list: Seq<WorkerAddress>, hostname: Seq<char>, k: int)
    requires
        0 <= k < list.len(),
        list[k].hostname@ == hostname,
    ensures
        ({
            let i = block_reader::first_on_host(list, hostname);
            let sorted = block_reader::sorted(list, true, hostname);
            &&& 0 <= i <= k
            &&& sorted[0].hostname@ == hostname
            &&& sorted.len() == list.len()
            &&& sorted.to_multiset() == list.to_multiset()
        }),
{
    let i = block_reader::first_on_host(list, hostname);
    lemma_found_on_host(list, hostname, k);
    let sorted = block_reader::swapped(list, 0, i);
    if i == 0 {
        assert(sorted =~= list);
    } else {
        let half = list.update(0, list[i]);
        vstd::seq_lib::to_multiset_update(list, 0, list[i]);
        vstd::seq_lib::to_multiset_update(half, i, list[0]);
        assert(list.contains(list[0]));
        vstd::seq_lib::to_multiset_contains(list, list[0]);
        assert(half[i] == list[i]);
        assert(sorted.to_multiset() =~= list.to_multiset());
    }
}

proof fn lemma_found_on_host(list: Seq<WorkerAddress>, hostname: Seq<char>, k: int)
    requires
        0 <= k < list.len(),
        list[k].hostname@ == hostname,
    ensures
        0 <= block_reader::first_on_host(list, hostname) <= k,
        list[block_reader::first_on_host(list, hostname)].hostname@ == hostname,
    decreases list.len(),
{
    if list[0].hostname@ != hostname {
        assert(list.skip(1)[k - 1] == list[k]);
        lemma_found_on_host(list.skip(1), hostname, k - 1);
        let i = block_reader::first_on_host(list.skip(1), hostname);
        assert(list.skip(1)[i] == list[i + 1]);
    }
}

/// A worker that failed is not tried again, and the others stay. Since a reader's worker is
/// one of those left, each failure leaves fewer, so a block is given up after as many failures
/// as it has replicas.
pub proof fn law_failed_worker_is_dropped(
    list: Seq<state::WorkerAddressView>,
    failed: state::WorkerAddressView,
    w: state::WorkerAddressView,
)
    ensures
        block_reader::others(list, failed).contains(w) <==> list.contains(w) && !w.same_worker(
            failed,
        ),
        block_reader::others(list, failed).len() <= list.len(),
        list.contains(failed) ==> block_reader::others(list, failed).len() < list.len(),
    decreases list.len(),
{
    let keep = |x: state::WorkerAddressView| !x.same_worker(failed);
    reveal(Seq::filter);
    if list.len() > 0 {
        let front = list.drop_last();
        law_failed_worker_is_dropped(front, failed, w);
        assert(list =~= front.push(list.last()));
        let kept = block_reader::others(front, failed);
        assert(block_reader::others(list, failed) == if keep(list.last()) {
            kept.push(list.last())
        } else {
            kept
        });
        lemma_push_contains(front, list.last(), w);
        lemma_push_contains(front, list.last(), failed);
        lemma_push_contains(kept, list.last(), w);
    }
}

proof fn lemma_push_contains<T>(s: Seq<T>, last: T, x: T)
    ensures
        s.push(last).contains(x) <==> s.contains(x) || x == last,
{
    if s.contains(x) {
        let i = choose|i: int| 0 <= i < s.len() && s[i] == x;
        assert(s.push(last)[i] == x);
    }
    assert(s.push(last)[s.len() as int] == last);
}

/// The reader that is opened is at the position that was asked for, and its worker is the first
/// of those left, so a reader always has a worker that a failure takes off the list.
pub proof fn law_reader_is_of_first_worker(
    ctx: FsContext,
    locs: Seq<state::WorkerAddressView>,
    block: ExtendedBlock,
    off: i64,
    len: i64,
)
    ensures
        match block_reader::first_choice(ctx, locs, block, off, len) {
            Some(choice) => {
                &&& choice.block == block && choice.off == off && choice.len == len
                &&& match choice.way {
                    block_reader::ReadWayView::Hole => locs.len() == 0 && block.has_alloc_opts,
                    block_reader::ReadWayView::Local(w) => locs.len() > 0 && w == locs[0],
                    block_reader::ReadWayView::Rdma(w) => locs.len() > 0 && w == locs[0],
                    block_reader::ReadWayView::Remote(w) => locs.len() > 0 && w == locs[0],
                }
            },
            None => locs.len() == 0 && !block.has_alloc_opts,
        },
        locs.len() > 0 ==> locs.contains(locs[0]),
{
}

/// A failed reader is replaced where it stood: the adapter that is opened in its place, be it the
/// first choice or what that falls back to, is of the same block, at the same position and with
/// the same length, so no byte is left out or read twice.
pub proof fn law_replacement_goes_on(
    ctx: FsContext,
    locs: Seq<state::WorkerAddressView>,
    block: ExtendedBlock,
    failed: ReaderAdapter,
    choice: block_reader::OpenReaderView,
    replacement: ReaderAdapter,
)
    requires
        block_reader::first_choice(ctx, locs, block, failed.pos_of(), failed.len_of()) == Some(
            choice,
        ),
        choice.opens(replacement) || (choice.fallback() matches Some(next) && next.opens(
            replacement,
        )),
    ensures
        replacement.pos_of() == failed.pos_of(),
        replacement.len_of() == failed.len_of(),
        replacement.block_of() == block,
        locs.len() > 0 ==> replacement.worker_of() == locs[0],
{
}

/// Where RDMA cannot be set up, the same read goes by TCP from the same worker: that is never a
/// failure of the read.
pub proof fn law_rdma_falls_back_to_tcp(
    ctx: FsContext,
    locs: Seq<state::WorkerAddressView>,
    block: ExtendedBlock,
    off: i64,
    len: i64,
)
    requires
        locs.len() > 0,
        block_reader::way_to(ctx, locs[0]) is Rdma,
    ensures
        block_reader::first_choice(ctx, locs, block, off, len) matches Some(choice)
            && choice.fallback() == Some(
            block_reader::OpenReaderView {
                way: block_reader::ReadWayView::Remote(locs[0]),
                block,
                off,
                len,
            },
        ),
{
}

/// Where the worker put the data into the buffer, a read hands out the bytes of the buffer from
/// the position on, up to the end of the read or of the buffer, and then stands behind them.
/// Nothing else of the reader changes.
pub proof fn law_transferred_bytes_are_handed_out(
    reader: &mut BlockReaderRdma,
    pool: RdmaMemoryPool,
    r: Result<ReadStep, FsError>,
    buffer: memory_pool::AllocationView,
)
    requires
        call_ensures(BlockReaderRdma::read, (reader, &pool), r),
        old(reader)@.rdma_enabled,
        old(reader)@.buffer == Some(buffer),
        0 <= old(reader)@.pos < old(reader)@.len,
        old(reader)@.pos < buffer.size,
    ensures
        ({
            let before = old(reader)@;
            let end: int = if before.len <= buffer.size {
                before.len as int
            } else {
                buffer.size as int
            };
            &&& r matches Ok(ReadStep::Chunk(data))
            &&& shared_bytes::bytes_content(data) == pool@.memory.subrange(
                buffer.offset + before.pos,
                buffer.offset + end,
            )
            &&& final(reader)@ == (RdmaReaderState { pos: end as i64, ..before })
        }),
{
}

/// A read asks the worker for a chunk exactly where something is left to read and the worker
/// did not put it into a buffer. The request carries the number of the read and the next number
/// in turn, and the position stays until the chunk is there.
pub proof fn law_fetch_only_without_transfer(
    reader: &mut BlockReaderRdma,
    pool: RdmaMemoryPool,
    r: Result<ReadStep, FsError>,
)
    requires
        call_ensures(BlockReaderRdma::read, (reader, &pool), r),
        old(reader)@.seq_id < i32::MAX,
    ensures
        ({
            let before = old(reader)@;
            let fetches = before.pos < before.len && !(before.rdma_enabled && before.buffer is Some);
            &&& (r matches Ok(ReadStep::Fetch { .. })) <==> fetches
            &&& r matches Ok(ReadStep::Fetch { req_id, seq_id }) ==> {
                &&& req_id == before.req_id
                &&& seq_id == before.seq_id + 1
                &&& final(reader)@ == (RdmaReaderState { seq_id, ..before })
            }
        }),
{
}

/// A read fails exactly at the end of the block, or where the data was put into a buffer that
/// holds nothing at the position; the reader then stays as it was.
pub proof fn law_read_fails_without_data(
    reader: &mut BlockReaderRdma,
    pool: RdmaMemoryPool,
    r: Result<ReadStep, FsError>,
)
    requires
        call_ensures(BlockReaderRdma::read, (reader, &pool), r),
    ensures
        ({
            let before = old(reader)@;
            let at_end = before.pos >= before.len;
            let drained = before.rdma_enabled && (before.buffer matches Some(b) && !(0 <= before.pos
                < b.size));
            &&& r is Err <==> at_end || drained
            &&& at_end ==> r == Err::<ReadStep, FsError>(FsError::NoReadableData)
            &&& !at_end && drained ==> r == Err::<ReadStep, FsError>(FsError::BufferDrained)
            &&& r is Err ==> final(reader)@ == before
        }),
{
}

/// From the worker's answer to the first read: if the data was transferred into the buffer that
/// was prepared, the bytes of that buffer are handed out from the offset on; if it was not, or
/// there is no buffer, the worker is asked for the first chunk.
pub proof fn law_answer_decides_first_read(
    prepared: PreparedRead,
    block: ExtendedBlock,
    worker: WorkerAddress,
    req_id: i64,
    response: BlockReadResponse,
    opened: BlockReaderRdma,
    reader: &mut BlockReaderRdma,
    pool: RdmaMemoryPool,
    r: Result<ReadStep, FsError>,
)
    requires
        call_ensures(BlockReaderRdma::new, (prepared, block, worker, req_id, &response), opened),
        *old(reader) == opened,
        call_ensures(BlockReaderRdma::read, (reader, &pool), r),
        0 <= prepared.request.off < prepared.request.len,
    ensures
        response.rdma_transfer == Some(true) && (prepared.buffer matches Some(b)
            && prepared.request.off < b@.size) ==> {
            let b = prepared.buffer->Some_0@;
            let end: int = if prepared.request.len <= b.size {
                prepared.request.len as int
            } else {
                b.size as int
            };
            &&& r matches Ok(ReadStep::Chunk(data))
            &&& shared_bytes::bytes_content(data) == pool@.memory.subrange(
                b.offset + prepared.request.off,
                b.offset + end,
            )
            &&& final(reader)@.pos == end
        },
        response.rdma_transfer != Some(true) || prepared.buffer is None ==> {
            &&& r == Ok::<ReadStep, FsError>(ReadStep::Fetch { req_id, seq_id: 1 })
            &&& final(reader)@.pos == prepared.request.off
        },
        final(reader)@.len == prepared.request.len,
        final(reader)@.req_id == req_id,
        final(reader)@.block == block,
        final(reader)@.worker == worker@,
        final(reader)@.shared == (prepared.buffer matches Some(b) && !b.is_sole()),
{
}

/// Preparing a read asks for what is to be read, and offers the worker a buffer of its length
/// exactly when the pool has room for one: the buffer's address and the keys of the pool.
pub proof fn law_prepared_read_offers_its_buffer(
    conf: ClientConf,
    manager: &mut ClientRdmaManager,
    block: ExtendedBlock,
    off: i64,
    len: i64,
    r: PreparedRead,
)
    requires
        call_ensures(BlockReaderRdma::prepare, (&conf, manager, &block, off, len), r),
        0 <= len <= usize::MAX - 63,
        old(manager)@.wf(),
        old(manager)@.countable(len as usize),
    ensures
        ({
            let n = (len + 63) / 64 * 64;
            let room = old(manager)@.current_offset + n <= old(manager)@.memory.len() || exists|
                i: int,
            |
                0 <= i < old(manager)@.free.len() && (#[trigger] old(manager)@.free[i]).size >= n;
            &&& r.buffer is Some <==> room
            &&& r.request.rdma_target is Some <==> room
            &&& r.request.id == block.id && r.request.off == off && r.request.len == len
            &&& !r.request.short_circuit
            &&& r.request.rdma_target_offset == Some(0u64)
            &&& r.request.enable_read_ahead == conf.enable_read_ahead
            &&& r.request.read_ahead_len == conf.read_ahead_len
            &&& r.request.drop_cache_len == conf.drop_cache_len
            &&& conf.read_chunk_size <= i32::MAX ==> r.request.chunk_size == conf.read_chunk_size
            &&& r.buffer matches Some(b) ==> {
                &&& b@.size == len
                &&& b@.ptr == old(manager)@.base + b@.offset
                &&& b@.offset + len <= old(manager)@.memory.len()
                &&& b.is_sole()
                &&& r.request.rdma_target matches Some(t) && t.ptr == b@.ptr
                    && t.addr_rkey_list@.len() == old(manager)@.descriptor.addr_rkey_list.len()
            }
            &&& final(manager)@.memory == old(manager)@.memory
        }),
{
    let pool = old(manager)@;
    let n = (len + 63) / 64 * 64;
    crate::pool_laws::law_refused_exactly_when_full(pool, len as usize);
    if let Some(t) = r.request.rdma_target {
        assert(t@.addr_rkey_list.len() == t.addr_rkey_list@.len());
    }
}

/// Once the data of a read was asked for in chunks, the position moves on by what came.
pub proof fn law_fetched_chunk_moves_on(reader: &mut BlockReaderRdma, n: usize, cursor: &mut BlockCursor)
    requires
        call_ensures(BlockReaderRdma::fetched, (reader, n), ()),
        call_ensures(BlockCursor::fetched, (cursor, n), ()),
        0 <= old(reader)@.pos <= i64::MAX - n,
        0 <= old(cursor).pos <= i64::MAX - n,
    ensures
        final(reader)@.pos == old(reader)@.pos + n,
        final(reader)@ == (RdmaReaderState { pos: final(reader)@.pos, ..old(reader)@ }),
        final(cursor).pos == old(cursor).pos + n,
        final(cursor).len == old(cursor).len,
        final(cursor).block == old(cursor).block,
        final(cursor).worker_address == old(cursor).worker_address,
{
}

/// A seek goes to any position of the block, its end included, and to no other; it changes
/// nothing but the position.
pub proof fn law_seek_stays_in_block(reader: &mut BlockReaderRdma, pos: i64, r: Result<i64, FsError>)
    requires
        call_ensures(BlockReaderRdma::seek, (reader, pos), r),
    ensures
        r is Ok <==> 0 <= pos <= old(reader)@.len,
        r matches Ok(p) ==> p == pos,
        r matches Err(e) ==> e == (FsError::InvalidSeek { pos }),
        final(reader)@ == (RdmaReaderState {
            pos: if r is Ok {
                pos
            } else {
                old(reader)@.pos
            },
            ..old(reader)@
        }),
{
}

/// The same of a reader that streams.
pub proof fn law_cursor_seek_stays_in_block(cursor: &mut BlockCursor, pos: i64, r: Result<i64, FsError>)
    requires
        call_ensures(BlockCursor::seek, (cursor, pos), r),
    ensures
        r is Ok <==> 0 <= pos <= old(cursor).len,
        r matches Ok(p) ==> p == pos && final(cursor).pos == pos,
        r matches Err(e) ==> e == (FsError::InvalidSeek { pos }) && final(cursor).pos == old(cursor).pos,
        final(cursor).len == old(cursor).len,
        final(cursor).block == old(cursor).block,
        final(cursor).worker_address == old(cursor).worker_address,
{
}

/// What a reader tells of itself is where it stands, how long the block is and what is left.
pub proof fn law_reader_tells_where_it_stands(
    reader: BlockReaderRdma,
    pos: i64,
    len: i64,
    remaining: i64,
    empty: bool,
    seq_id: i32,
    block_id: i64,
    worker: WorkerAddress,
)
    requires
        call_ensures(BlockReaderRdma::pos, (&reader,), pos),
        call_ensures(BlockReaderRdma::len, (&reader,), len),
        call_ensures(BlockReaderRdma::remaining, (&reader,), remaining),
        call_ensures(BlockReaderRdma::is_empty, (&reader,), empty),
        call_ensures(BlockReaderRdma::seq_id, (&reader,), seq_id),
        call_ensures(BlockReaderRdma::block_id, (&reader,), block_id),
        call_ensures(BlockReaderRdma::worker_address, (&reader,), &worker),
    ensures
        pos == reader@.pos,
        len == reader@.len,
        pos + remaining == len,
        empty <==> len == 0,
        seq_id == reader@.seq_id,
        block_id == reader@.block.id,
        worker@ == reader@.worker,
{
}

/// The request that ends a read names its block and its number, and comes next in turn.
pub proof fn law_commit_comes_next(reader: &mut BlockReaderRdma, r: CommitRequest)
    requires
        call_ensures(BlockReaderRdma::complete, (reader,), r),
        old(reader)@.seq_id < i32::MAX,
    ensures
        r.block == old(reader)@.block,
        r.req_id == old(reader)@.req_id,
        r.seq_id == old(reader)@.seq_id + 1,
        final(reader)@ == (RdmaReaderState { seq_id: r.seq_id, ..old(reader)@ }),
{
}

/// A reader whose buffer nobody else holds gives it back when it is closed, and so does a read
/// that was prepared and could not be opened: the pool counts one deallocation more, and as many
/// free bytes more as the buffer occupied. Without a buffer the pool stays as it was.
pub proof fn law_closing_gives_buffer_back(
    reader: BlockReaderRdma,
    manager: &mut ClientRdmaManager,
    r: bool,
)
    requires
        call_ensures(BlockReaderRdma::close, (reader, manager), r),
        reader@.reads_from(old(manager)@),
        old(manager)@.dealloc_count < usize::MAX,
    ensures
        reader@.buffer is None ==> !r,
        reader@.buffer is Some && !reader@.shared ==> r,
        !r ==> final(manager)@ == old(manager)@,
        r && (reader@.buffer matches Some(b)) ==> {
            let b = reader@.buffer->Some_0;
            let freed = (b.size + 63) / 64 * 64;
            &&& final(manager)@.dealloc_count == old(manager)@.dealloc_count + 1
            &&& crate::free_list::total_size(final(manager)@.free) == crate::free_list::total_size(
                old(manager)@.free,
            ) + freed
            &&& final(manager)@.memory == old(manager)@.memory
            &&& final(manager)@.current_offset == old(manager)@.current_offset
        },
{
    if let Some(b) = reader@.buffer {
        crate::free_list::lemma_place_total_size(old(manager)@.free, b.extent());
    }
}

/// The same of a read that was prepared and could not be opened.
pub proof fn law_abandoning_gives_buffer_back(
    prepared: PreparedRead,
    manager: &mut ClientRdmaManager,
    r: bool,
)
    requires
        call_ensures(BlockReaderRdma::abandon, (prepared, manager), r),
        old(manager)@.wf(),
        prepared.buffer matches Some(b) ==> b@.belongs_to(old(manager)@),
        old(manager)@.dealloc_count < usize::MAX,
    ensures
        prepared.buffer is None ==> !r,
        prepared.buffer matches Some(b) && b.is_sole() ==> r,
        !r ==> final(manager)@ == old(manager)@,
        r && prepared.buffer is Some ==> {
            let b = prepared.buffer->Some_0@;
            let freed = (b.size + 63) / 64 * 64;
            &&& final(manager)@.dealloc_count == old(manager)@.dealloc_count + 1
            &&& crate::free_list::total_size(final(manager)@.free) == crate::free_list::total_size(
                old(manager)@.free,
            ) + freed
            &&& final(manager)@.memory == old(manager)@.memory
            &&& final(manager)@.current_offset == old(manager)@.current_offset
        },
{
    if let Some(b) = prepared.buffer {
        crate::free_list::lemma_place_total_size(old(manager)@.free, b@.extent());
    }
}

/// Two addresses name the same worker exactly when number, host name, IP address and both ports
/// agree. What the worker advertises has no say.
pub proof fn law_same_worker_agrees_in_all(a: WorkerAddress, b: WorkerAddress, r: bool)
    requires
        call_ensures(WorkerAddress::same_worker, (&a, &b), r),
    ensures
        r <==> a.worker_id == b.worker_id && a.hostname@ == b.hostname@ && a.ip_addr@ == b.ip_addr@
            && a.rpc_port == b.rpc_port && a.web_port == b.web_port,
        a@.same_worker(b@) <==> a.worker_id == b.worker_id && a.hostname@ == b.hostname@
            && a.ip_addr@ == b.ip_addr@ && a.rpc_port == b.rpc_port && a.web_port == b.web_port,
{
}

/// The addresses of `w` and `v` differ in number, host name, IP address or a port.
pub open spec fn differ(w: WorkerAddress, v: state::WorkerAddressView) -> bool {
    ||| w.worker_id != v.worker_id
    ||| w.hostname@ != v.hostname
    ||| w.ip_addr@ != v.ip_addr
    ||| w.rpc_port != v.rpc_port
    ||| w.web_port != v.web_port
}

/// After a failure every worker of the list that differs from the failed one in number, host
/// name, IP address or a port stays in the list; nothing else does; and they stay in their order.
pub proof fn law_healthy_workers_stay(
    reader: &mut BlockReader,
    error: FsError,
    r: Result<OpenReader, FsError>,
)
    requires
        call_ensures(BlockReader::read_failed, (reader, error), r),
        !(old(reader).inner is Hole),
        old(reader).locs@.len() > 0,
    ensures
        ({
            let failed = old(reader).inner.worker_of();
            let before = old(reader).locs@;
            let after = final(reader).locs@;
            &&& forall|i: int|
                0 <= i < before.len() && differ(#[trigger] before[i], failed) ==> exists|j: int|
                    0 <= j < after.len() && (#[trigger] after[j])@ == before[i]@
            &&& forall|j: int|
                0 <= j < after.len() ==> differ(#[trigger] after[j], failed) && exists|i: int|
                    0 <= i < before.len() && (#[trigger] before[i])@ == after[j]@
            &&& after.len() <= before.len()
            &&& (forall|i: int| 0 <= i < before.len() ==> differ(#[trigger] before[i], failed))
                ==> block_reader::worker_views(after) == block_reader::worker_views(before)
        }),
{
    let failed = old(reader).inner.worker_of();
    let before = old(reader).locs@;
    let after = final(reader).locs@;
    lemma_others_are_left(before, after, failed);
    lemma_left_are_others(before, after, failed);
    lemma_nobody_leaves(before, after, failed);
}

proof fn lemma_others_are_left(
    before: Seq<WorkerAddress>,
    after: Seq<WorkerAddress>,
    failed: state::WorkerAddressView,
)
    requires
        block_reader::worker_views(after) == block_reader::others(
            block_reader::worker_views(before),
            failed,
        ),
    ensures
        after.len() <= before.len(),
        forall|i: int|
            0 <= i < before.len() && differ(#[trigger] before[i], failed) ==> exists|j: int|
                0 <= j < after.len() && (#[trigger] after[j])@ == before[i]@,
{
    let views = block_reader::worker_views(before);
    let left = block_reader::worker_views(after);
    assert(views.len() == before.len() && left.len() == after.len());
    law_failed_worker_is_dropped(views, failed, failed);
    assert forall|i: int|
        0 <= i < before.len() && differ(#[trigger] before[i], failed) implies exists|j: int|
        0 <= j < after.len() && (#[trigger] after[j])@ == before[i]@ by {
        law_failed_worker_is_dropped(views, failed, before[i]@);
        assert(views[i] == before[i]@);
        assert(left.contains(before[i]@));
        let j = choose|j: int| 0 <= j < left.len() && left[j] == before[i]@;
        assert(after[j]@ == before[i]@);
    }
}

proof fn lemma_left_are_others(
    before: Seq<WorkerAddress>,
    after: Seq<WorkerAddress>,
    failed: state::WorkerAddressView,
)
    requires
        block_reader::worker_views(after) == block_reader::others(
            block_reader::worker_views(before),
            failed,
        ),
    ensures
        forall|j: int|
            0 <= j < after.len() ==> differ(#[trigger] after[j], failed) && exists|i: int|
                0 <= i < before.len() && (#[trigger] before[i])@ == after[j]@,
{
    let views = block_reader::worker_views(before);
    let left = block_reader::worker_views(after);
    assert(views.len() == before.len() && left.len() == after.len());
    assert forall|j: int| 0 <= j < after.len() implies differ(#[trigger] after[j], failed)
        && exists|i: int| 0 <= i < before.len() && (#[trigger] before[i])@ == after[j]@ by {
        assert(left[j] == after[j]@);
        assert(left.contains(after[j]@));
        law_failed_worker_is_dropped(views, failed, after[j]@);
        let i = choose|i: int| 0 <= i < views.len() && views[i] == after[j]@;
        assert(before[i]@ == after[j]@);
    }
}

proof fn lemma_nobody_leaves(
    before: Seq<WorkerAddress>,
    after: Seq<WorkerAddress>,
    failed: state::WorkerAddressView,
)
    requires
        block_reader::worker_views(after) == block_reader::others(
            block_reader::worker_views(before),
            failed,
        ),
    ensures
        (forall|i: int| 0 <= i < before.len() ==> differ(#[trigger] before[i], failed))
            ==> block_reader::worker_views(after) == block_reader::worker_views(before),
{
    let views = block_reader::worker_views(before);
    if forall|i: int| 0 <= i < before.len() ==> differ(#[trigger] before[i], failed) {
        assert forall|i: int| 0 <= i < views.len() implies !(#[trigger] views[i]).same_worker(
            failed,
        ) by {
            assert(views[i] == before[i]@);
            assert(differ(before[i], failed));
        }
        lemma_all_others_stay(views, failed);
    }
}

proof fn lemma_all_others_stay(
    list: Seq<state::WorkerAddressView>,
    failed: state::WorkerAddressView,
)
    requires
        forall|i: int| 0 <= i < list.len() ==> !(#[trigger] list[i]).same_worker(failed),
    ensures
        block_reader::others(list, failed) == list,
    decreases list.len(),
{
    reveal(Seq::filter);
    if list.len() > 0 {
        let front = list.drop_last();
        assert forall|i: int| 0 <= i < front.len() implies !(#[trigger] front[i]).same_worker(
            failed,
        ) by {
            assert(front[i] == list[i]);
        }
        lemma_all_others_stay(front, failed);
        assert(front.push(list.last()) =~= list);
    }
}

/// Workers that are left keep their order: taking the failed one out of two lists in a row is
/// taking it out of each.
pub proof fn law_workers_stay_in_order(
    front: Seq<state::WorkerAddressView>,
    back: Seq<state::WorkerAddressView>,
    failed: state::WorkerAddressView,
)
    ensures
        block_reader::others(front + back, failed) == block_reader::others(front, failed)
            + block_reader::others(back, failed),
    decreases back.len(),
{
    reveal(Seq::filter);
    if back.len() == 0 {
        assert(front + back =~= front);
        assert(block_reader::others(front, failed) + block_reader::others(back, failed)
            =~= block_reader::others(front, failed));
    } else {
        assert((front + back).drop_last() =~= front + back.drop_last());
        law_workers_stay_in_order(front, back.drop_last(), failed);
        assert(block_reader::others(front + back, failed) =~= block_reader::others(front, failed)
            + block_reader::others(back, failed));
    }
}

/// A failure is no end of the read while a worker is left: the first of those left is read from
/// next, at the position and with the length of the reader that failed. With none left, a block
/// that was never written reads as a hole, and any other fails and names the workers that failed
/// on this client. The reader itself keeps its place.
pub proof fn law_read_goes_on_with_next_worker(
    reader: &mut BlockReader,
    error: FsError,
    r: Result<OpenReader, FsError>,
)
    requires
        call_ensures(BlockReader::read_failed, (reader, error), r),
        !(old(reader).inner is Hole),
        old(reader).locs@.len() > 0,
    ensures
        r is Ok <==> final(reader).locs@.len() > 0 || old(reader).block.has_alloc_opts,
        r matches Ok(next) ==> {
            &&& next.off == old(reader).inner.pos_of()
            &&& next.len == old(reader).inner.len_of()
            &&& next.block == old(reader).block
            &&& match next.way {
                ReadWay::Hole => final(reader).locs@.len() == 0,
                ReadWay::Local(w) => final(reader).locs@.len() > 0 && w@ == final(reader).locs@[0]@,
                ReadWay::Rdma(w) => final(reader).locs@.len() > 0 && w@ == final(reader).locs@[0]@,
                ReadWay::Remote(w) => final(reader).locs@.len() > 0 && w@ == final(reader).locs@[0]@,
            }
        },
        r matches Err(e) ==> (e matches FsError::NoAvailableWorker { failed_workers }
            && failed_workers@ == old(reader).fs_context.failed_workers@),
        final(reader).inner == old(reader).inner,
        final(reader).block == old(reader).block,
        final(reader).fs_context == old(reader).fs_context,
{
    let left = block_reader::worker_views(final(reader).locs@);
    assert(left.len() == final(reader).locs@.len());
    if left.len() > 0 {
        assert(left[0] == final(reader).locs@[0]@);
    }
}

/// A hole, or a reader without workers, has nowhere to go: its failure is told, with the worker
/// and the reason, and the list stays.
pub proof fn law_last_failure_is_told(
    reader: &mut BlockReader,
    error: FsError,
    r: Result<OpenReader, FsError>,
)
    requires
        call_ensures(BlockReader::read_failed, (reader, error), r),
        old(reader).inner is Hole || old(reader).locs@.len() == 0,
    ensures
        r matches Err(FsError::BlockUnreadable { worker, reason }) && worker@ == old(reader).inner.worker_of() && reason@ == error.text(),
        final(reader).locs == old(reader).locs,
        final(reader).inner == old(reader).inner,
{
}

/// A worker is read from its files exactly where that is allowed and it is on the client's host;
/// else by RDMA exactly where the client has it set up with a manager at hand and the worker
/// advertises it, enabled, at some address; else by TCP. It is always the first worker of the
/// list. Without workers a block that was never written is a hole, and any other fails.
pub proof fn law_way_to_first_worker(
    locs: Vec<WorkerAddress>,
    block: ExtendedBlock,
    ctx: FsContext,
    off: i64,
    len: i64,
    r: Result<OpenReader, FsError>,
)
    requires
        call_ensures(BlockReader::get_reader, (&locs, &block, &ctx, off, len), r),
    ensures
        r is Ok <==> locs@.len() > 0 || block.has_alloc_opts,
        r matches Err(e) ==> (e matches FsError::NoAvailableWorker { failed_workers }
            && failed_workers@ == ctx.failed_workers@),
        r matches Ok(next) ==> next.off == off && next.len == len && next.block == block,
        r is Ok && locs@.len() == 0 ==> r->Ok_0.way is Hole,
        r is Ok && locs@.len() > 0 ==> {
            let first = locs@[0];
            let from_files = ctx.conf.short_circuit && first.hostname@ == ctx.hostname@;
            let by_rdma = ctx.has_rdma && ctx.has_rdma_manager && (
            first.rdma_capability matches Some(c) && c.enabled && c.domain_addresses@.len() > 0);
            match r->Ok_0.way {
                ReadWay::Hole => false,
                ReadWay::Local(w) => from_files && w@ == first@,
                ReadWay::Rdma(w) => !from_files && by_rdma && w@ == first@,
                ReadWay::Remote(w) => !from_files && !by_rdma && w@ == first@,
            }
        },
{
    let views = block_reader::worker_views(locs@);
    assert(views.len() == locs@.len());
    if views.len() > 0 {
        assert(views[0] == locs@[0]@);
        if let Some(c) = locs@[0].rdma_capability {
            assert(c@.domain_addresses.len() == c.domain_addresses@.len());
        }
    }
}

/// Client and worker agree on RDMA exactly where the client has it set up and the worker
/// advertises it, enabled, at some address.
pub proof fn law_rdma_is_agreed(ctx: FsContext, worker: WorkerAddress, r: bool, offered: bool)
    requires
        call_ensures(BlockReader::should_use_rdma, (&ctx, &worker), r),
        call_ensures(WorkerAddress::supports_rdma, (&worker,), offered),
    ensures
        offered <==> (worker.rdma_capability matches Some(c) && c.enabled
            && c.domain_addresses@.len() > 0),
        r <==> ctx.has_rdma && offered,
{
    if let Some(c) = worker.rdma_capability {
        assert(c@.domain_addresses.len() == c.domain_addresses@.len());
    }
}

/// A worker is local exactly where its host name is the client's.
pub proof fn law_local_is_by_host_name(ctx: FsContext, worker: WorkerAddress, r: bool)
    requires
        call_ensures(FsContext::is_local_worker, (&ctx, &worker), r),
    ensures
        r <==> worker.hostname@ == ctx.hostname@,
{
}

/// Ordering the workers of a block exchanges the first one on the client's host with the first
/// of all, where files may be read directly and there is such a one. In every other case, and at
/// every other place, the list stays as it was.
pub proof fn law_first_local_worker_is_moved_up(
    locs: Vec<WorkerAddress>,
    short_circuit: bool,
    hostname: String,
    r: Result<Vec<WorkerAddress>, FsError>,
    k: int,
)
    requires
        call_ensures(BlockReader::sort_locs, (locs, short_circuit, &hostname), r),
        0 <= k <= locs@.len(),
        forall|i: int| 0 <= i < k ==> (#[trigger] locs@[i]).hostname@ != hostname@,
        k < locs@.len() ==> locs@[k].hostname@ == hostname@,
    ensures
        ({
            &&& r matches Ok(list)
            &&& list@.len() == locs@.len()
            &&& forall|i: int|
                0 <= i < list@.len() ==> #[trigger] list@[i] == (if short_circuit && k < locs@.len()
                    && i == 0 {
                    locs@[k]
                } else if short_circuit && k < locs@.len() && i == k {
                    locs@[0]
                } else {
                    locs@[i]
                })
        }),
{
    lemma_nobody_before(locs@, hostname@, k);
}

proof fn lemma_nobody_before(list: Seq<WorkerAddress>, hostname: Seq<char>, k: int)
    requires
        0 <= k <= list.len(),
        forall|i: int| 0 <= i < k ==> (#[trigger] list[i]).hostname@ != hostname,
        k < list.len() ==> list[k].hostname@ == hostname,
    ensures
        block_reader::first_on_host(list, hostname) == k,
    decreases list.len(),
{
    if k > 0 {
        assert(list[0].hostname@ != hostname);
        let rest = list.skip(1);
        assert forall|i: int| 0 <= i < k - 1 implies (#[trigger] rest[i]).hostname@ != hostname by {
            assert(rest[i] == list[i + 1]);
        }
        if k < list.len() {
            assert(rest[k - 1] == list[k]);
        }
        lemma_nobody_before(rest, hostname, k - 1);
    }
}

proof fn lemma_index_on_host(list: Seq<WorkerAddress>, hostname: Seq<char>)
    ensures
        0 <= block_reader::first_on_host(list, hostname) <= list.len(),
    decreases list.len(),
{
    if list.len() > 0 {
        lemma_index_on_host(list.skip(1), hostname);
    }
}

/// A read is planned exactly as the workers are ordered and the first of them is read from, at
/// the offset that was asked for and with the length of the block.
pub proof fn law_plan_orders_and_opens(
    ctx: FsContext,
    located: LocatedBlock,
    off: i64,
    sorted: Result<Vec<WorkerAddress>, FsError>,
    locs: Vec<WorkerAddress>,
    opened: Result<OpenReader, FsError>,
    r: Result<(LocatedBlock, OpenReader), FsError>,
)
    requires
        call_ensures(BlockReader::plan, (&ctx, located, off), r),
        call_ensures(
            BlockReader::sort_locs,
            (located.locs, ctx.conf.short_circuit, &ctx.hostname),
            sorted,
        ),
        sorted == Ok::<Vec<WorkerAddress>, FsError>(locs),
        call_ensures(
            BlockReader::get_reader,
            (&locs, &located.block, &ctx, off, located.block.len),
            opened,
        ),
    ensures
        r is Ok <==> opened is Ok,
        r is Ok <==> located.locs@.len() > 0 || located.block.has_alloc_opts,
        r matches Ok((ordered, first)) ==> {
            &&& ordered.block == located.block
            &&& ordered.locs@ == locs@
            &&& first@ == opened->Ok_0@
            &&& first.off == off
            &&& first.len == located.block.len
            &&& first.block == located.block
        },
        r matches Err(e) ==> (e matches FsError::NoAvailableWorker { failed_workers }
            && failed_workers@ == ctx.failed_workers@),
{
    assert(block_reader::worker_views(locs@).len() == locs@.len());
    lemma_index_on_host(located.locs@, ctx.hostname@);
}

/// A reader that could not be opened by RDMA is opened by TCP, of the same worker, block,
/// position and length; one that could not be opened in another way fails, with its error.
pub proof fn law_only_rdma_falls_back(reader: OpenReader, error: FsError, r: Result<OpenReader, FsError>)
    requires
        call_ensures(OpenReader::failed, (reader, error), r),
    ensures
        r is Ok <==> reader.way is Rdma,
        r matches Ok(next) ==> {
            &&& next.block == reader.block && next.off == reader.off && next.len == reader.len
            &&& next.way matches ReadWay::Remote(w) && w@ == reader.way->Rdma_0@
        },
        r matches Err(e) ==> e == error,
{
}

/// What was opened stands where it was to be opened, reads what it was to read, and reads it in
/// that way from that worker.
pub proof fn law_opened_as_planned(reader: OpenReader, r: ReaderAdapter)
    requires
        call_ensures(OpenReader::opened, (reader,), r),
        !(reader.way is Rdma),
    ensures
        match (reader.way, r) {
            (ReadWay::Hole, ReaderAdapter::Hole(c)) => stands(c, reader)
                && c.worker_address.worker_id == 0,
            (ReadWay::Local(w), ReaderAdapter::Local(c)) => stands(c, reader)
                && c.worker_address@ == w@,
            (ReadWay::Remote(w), ReaderAdapter::Remote(c)) => stands(c, reader)
                && c.worker_address@ == w@,
            _ => false,
        },
{
}

/// The cursor stands where the reader was to be opened.
pub open spec fn stands(c: BlockCursor, reader: OpenReader) -> bool {
    c.pos == reader.off && c.len == reader.len && c.block == reader.block
}

/// The same of a reader that was opened by RDMA; it takes the worker's answer along.
pub proof fn law_opened_by_rdma_as_planned(
    reader: OpenReader,
    prepared: PreparedRead,
    req_id: i64,
    response: BlockReadResponse,
    r: ReaderAdapter,
)
    requires
        call_ensures(OpenReader::opened_by_rdma, (reader, prepared, req_id, &response), r),
        reader.way is Rdma,
    ensures
        r matches ReaderAdapter::Rdma(b) && {
            &&& b@.pos == reader.off && b@.len == reader.len && b@.block == reader.block
            &&& b@.worker == reader.way->Rdma_0@
            &&& b@.req_id == req_id && b@.seq_id == 0
            &&& b@.rdma_enabled <==> response.rdma_transfer == Some(true)
            &&& b@.buffer is Some <==> prepared.buffer is Some
            &&& b@.buffer matches Some(v) ==> v == prepared.buffer->Some_0@
        },
{
}

/// An adapter tells where the reader in it stands, how long its block is, what is left, which
/// block it is and which worker it is read from, whatever the way.
pub proof fn law_adapter_tells_of_its_reader(
    adapter: ReaderAdapter,
    pos: i64,
    len: i64,
    remaining: i64,
    block_id: i64,
    worker: WorkerAddress,
)
    requires
        call_ensures(ReaderAdapter::pos, (&adapter,), pos),
        call_ensures(ReaderAdapter::len, (&adapter,), len),
        call_ensures(ReaderAdapter::remaining, (&adapter,), remaining),
        call_ensures(ReaderAdapter::block_id, (&adapter,), block_id),
        call_ensures(ReaderAdapter::worker_address, (&adapter,), &worker),
    ensures
        pos == adapter.pos_of(),
        len == adapter.len_of(),
        pos + remaining == len,
        worker@ == adapter.worker_of(),
        match adapter {
            ReaderAdapter::Local(c) => pos == c.pos && len == c.len && block_id == c.block.id
                && worker@ == c.worker_address@,
            ReaderAdapter::Remote(c) => pos == c.pos && len == c.len && block_id == c.block.id
                && worker@ == c.worker_address@,
            ReaderAdapter::Hole(c) => pos == c.pos && len == c.len && block_id == c.block.id
                && worker@ == c.worker_address@,
            ReaderAdapter::Rdma(b) => pos == b@.pos && len == b@.len && block_id == b@.block.id
                && worker@ == b@.worker,
        },
{
}

/// A block reader tells the same of the adapter it reads, and is to read on exactly where
/// something is left.
pub proof fn law_block_reader_tells_of_its_adapter(
    reader: BlockReader,
    pos: i64,
    len: i64,
    remaining: i64,
    more: bool,
    empty: bool,
    block_id: i64,
    next: BlockReadStep,
)
    requires
        call_ensures(BlockReader::pos, (&reader,), pos),
        call_ensures(BlockReader::len, (&reader,), len),
        call_ensures(BlockReader::remaining, (&reader,), remaining),
        call_ensures(BlockReader::has_remaining, (&reader,), more),
        call_ensures(BlockReader::is_empty, (&reader,), empty),
        call_ensures(BlockReader::block_id, (&reader,), block_id),
        call_ensures(BlockReader::read, (&reader,), next),
    ensures
        pos == reader.inner.pos_of(),
        len == reader.inner.len_of(),
        pos + remaining == len,
        more <==> pos < len,
        empty <==> len == 0,
        block_id == reader.inner.block_of().id,
        next is ReadAdapter <==> pos < len,
        next is End <==> pos >= len,
{
}

/// A seek of a block reader goes to any position of the block and to no other, and changes
/// nothing but the position of its adapter.
pub proof fn law_block_seek_stays_in_block(reader: &mut BlockReader, pos: i64, r: Result<(), FsError>)
    requires
        call_ensures(BlockReader::seek, (reader, pos), r),
    ensures
        r is Ok <==> 0 <= pos <= old(reader).inner.len_of(),
        r is Ok ==> final(reader).inner.pos_of() == pos,
        r matches Err(e) ==> e == (FsError::InvalidSeek { pos }) && final(reader).inner.pos_of()
            == old(reader).inner.pos_of(),
        final(reader).inner.len_of() == old(reader).inner.len_of(),
        final(reader).inner.block_of() == old(reader).inner.block_of(),
        final(reader).inner.worker_of() == old(reader).inner.worker_of(),
        final(reader).inner is Rdma <==> old(reader).inner is Rdma,
        final(reader).inner is Remote <==> old(reader).inner is Remote,
        final(reader).inner is Local <==> old(reader).inner is Local,
        old(reader).inner matches ReaderAdapter::Rdma(b) ==> (final(reader).inner matches ReaderAdapter::Rdma(c) && c@ == (RdmaReaderState { pos: c@.pos, ..b@ })),
        final(reader).locs == old(reader).locs,
        final(reader).block == old(reader).block,
        final(reader).fs_context == old(reader).fs_context,
{
}

/// The same of a seek of an adapter.
pub proof fn law_adapter_seek_stays_in_block(
    adapter: &mut ReaderAdapter,
    pos: i64,
    r: Result<i64, FsError>,
)
    requires
        call_ensures(ReaderAdapter::seek, (adapter, pos), r),
    ensures
        r is Ok <==> 0 <= pos <= old(adapter).len_of(),
        r matches Ok(p) ==> p == pos && final(adapter).pos_of() == pos,
        r matches Err(e) ==> e == (FsError::InvalidSeek { pos }) && final(adapter).pos_of() == old(adapter).pos_of(),
        final(adapter).len_of() == old(adapter).len_of(),
        final(adapter).block_of() == old(adapter).block_of(),
        final(adapter).worker_of() == old(adapter).worker_of(),
{
}

/// An adapter that was opened in place of one that failed takes its place, and the failed one
/// comes back; a reader that is made over an adapter reads that one. The workers, the block and
/// the client stay.
pub proof fn law_replacement_takes_its_place(
    reader: &mut BlockReader,
    inner: ReaderAdapter,
    r: ReaderAdapter,
)
    requires
        call_ensures(BlockReader::reopened, (reader, inner), r),
    ensures
        r == old(reader).inner,
        final(reader).inner == inner,
        final(reader).locs == old(reader).locs,
        final(reader).block == old(reader).block,
        final(reader).fs_context == old(reader).fs_context,
{
}

/// A block reader is made of the adapter that was opened for it and the workers of the block. That
/// its adapter could not be completed is no failure.
pub proof fn law_block_reader_has_its_parts(
    ctx: Arc<FsContext>,
    located: LocatedBlock,
    off: i64,
    inner: ReaderAdapter,
    r: BlockReader,
    outcome: Result<(), FsError>,
    done: Result<(), FsError>,
)
    requires
        call_ensures(BlockReader::new, (ctx, located, off, inner), r),
        call_ensures(BlockReader::complete, (&r, outcome), done),
    ensures
        r.inner == inner,
        r.locs == located.locs,
        r.block == located.block,
        r.fs_context == ctx,
        done is Ok,
{
}

/// A reader can be asked for data wherever it stands in its block, whatever the length of the
/// block: with a buffer of the pool, or without one as long as requests can be numbered.
pub proof fn law_reader_can_always_be_read(reader: &mut BlockReaderRdma, pool: RdmaMemoryPool)
    requires
        0 <= old(reader)@.pos <= old(reader)@.len,
        pool@.wf(),
        old(reader)@.buffer matches Some(b) ==> b.belongs_to(pool@),
        old(reader)@.seq_id < i32::MAX,
    ensures
        call_requires(BlockReaderRdma::read, (reader, &pool)),
        call_requires(BlockReaderRdma::remaining, (&*old(reader),)),
        call_requires(BlockReaderRdma::complete, (reader,)),
{
}

/// The reader that is opened in place of one that failed is the one that would be opened for the
/// workers that are left, at the position and with the length of the one that failed.
pub proof fn law_replacement_is_chosen_alike(
    reader: &mut BlockReader,
    error: FsError,
    r: Result<OpenReader, FsError>,
    q: Result<OpenReader, FsError>,
)
    requires
        call_ensures(BlockReader::read_failed, (reader, error), r),
        call_ensures(
            BlockReader::get_reader,
            (
                &final(reader).locs,
                &old(reader).block,
                &*old(reader).fs_context,
                old(reader).inner.pos_of(),
                old(reader).inner.len_of(),
            ),
            q,
        ),
        !(old(reader).inner is Hole),
        old(reader).locs@.len() > 0,
    ensures
        r is Ok <==> q is Ok,
        r is Ok ==> r->Ok_0@ == q->Ok_0@,
        r is Ok ==> (r->Ok_0.way is Rdma <==> q->Ok_0.way is Rdma),
        r is Ok ==> (r->Ok_0.way is Local <==> q->Ok_0.way is Local),
        r is Ok ==> (r->Ok_0.way is Remote <==> q->Ok_0.way is Remote),
{
}

} // verus!
