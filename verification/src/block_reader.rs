//! Reader of a block that picks a worker and a way to read, and another worker when one fails.
//!
//! The reader decides; its caller opens connections and files and reports how that ended.

use crate::block_reader_rdma;
use crate::block_reader_rdma::{BlockReaderRdma, PreparedRead};
use crate::error::FsError;
use crate::rdma_read_handler::BlockReadResponse;
use crate::state;
use crate::state::{ExtendedBlock, FsContext, LocatedBlock, WorkerAddress};
use std::sync::Arc;
use vstd::prelude::*;

verus! {

/// The workers of a list, as plain values.
pub open spec fn worker_views(list: Seq<WorkerAddress>) -> Seq<state::WorkerAddressView> {
    list.map_values(|w: WorkerAddress| w@)
}

/// The workers of a list that are not the given one.
pub open spec fn others(
    list: Seq<state::WorkerAddressView>,
    failed: state::WorkerAddressView,
) -> Seq<state::WorkerAddressView> {
    list.filter(|w: state::WorkerAddressView| !w.same_worker(failed))
}

/// Index of the first worker with the given host name; the length of the list where there is
/// none.
pub open spec fn first_on_host(list: Seq<WorkerAddress>, hostname: Seq<char>) -> int
    decreases list.len(),
{
    if list.len() == 0 {
        0
    } else if list[0].hostname@ == hostname {
        0
    } else {
        1 + first_on_host(list.skip(1), hostname)
    }
}

/// The list with two of its members exchanged.
pub open spec fn swapped(list: Seq<WorkerAddress>, i: int, j: int) -> Seq<WorkerAddress> {
    list.update(i, list[j]).update(j, list[i])
}

proof fn lemma_first_on_host(list: Seq<WorkerAddress>, hostname: Seq<char>, i: int)
    requires
        0 <= i <= list.len(),
        forall|k: int| 0 <= k < i ==> (#[trigger] list[k]).hostname@ != hostname,
        i < list.len() ==> list[i].hostname@ == hostname,
    ensures
        first_on_host(list, hostname) == i,
    decreases list.len(),
{
    if list.len() > 0 && i > 0 {
        assert(list[0].hostname@ != hostname);
        assert forall|k: int| 0 <= k < i - 1 implies (#[trigger] list.skip(1)[k]).hostname@
            != hostname by {
            assert(list.skip(1)[k] == list[k + 1]);
        }
        lemma_first_on_host(list.skip(1), hostname, i - 1);
    }
}

/// Where a reader stands in a block that is streamed.
#[derive(Debug)]
pub struct BlockCursor {
    pub block: ExtendedBlock,
    pub worker_address: WorkerAddress,
    pub pos: i64,
    pub len: i64,
}

impl BlockCursor {
    /// Moves to another position in the block.
    pub fn seek(&mut self, pos: i64) -> (r: Result<i64, FsError>)
        ensures
            if 0 <= pos <= old(self).len {
                r == Ok::<i64, FsError>(pos) && *final(self) == (BlockCursor { pos, ..*old(self) })
            } else {
                r == Err::<i64, FsError>(FsError::InvalidSeek { pos }) && *final(self) == *old(self)
            },
    {
        if pos < 0 || pos > self.len {
            return Err(FsError::InvalidSeek { pos });
        }
        self.pos = pos;
        Ok(pos)
    }

    /// Takes note of a chunk that was read.
    pub fn fetched(&mut self, chunk_len: usize)
        requires
            chunk_len <= i64::MAX,
            old(self).pos + chunk_len <= i64::MAX,
        ensures
            *final(self) == (BlockCursor {
                pos: (old(self).pos + chunk_len) as i64,
                ..*old(self)
            }),
    {
        self.pos = self.pos + chunk_len as i64;
    }
}

/// How a block is read.
#[derive(Debug)]
pub enum ReaderAdapter {
    /// From a file of a worker on the same host.
    Local(BlockCursor),
    /// From a worker by TCP.
    Remote(BlockCursor),
    /// From a worker by RDMA.
    Rdma(BlockReaderRdma),
    /// Nowhere: the block was allocated and never written.
    Hole(BlockCursor),
}

impl ReaderAdapter {
    pub open spec fn pos_of(self) -> i64 {
        match self {
            ReaderAdapter::Local(c) => c.pos,
            ReaderAdapter::Remote(c) => c.pos,
            ReaderAdapter::Rdma(r) => r@.pos,
            ReaderAdapter::Hole(c) => c.pos,
        }
    }

    pub open spec fn len_of(self) -> i64 {
        match self {
            ReaderAdapter::Local(c) => c.len,
            ReaderAdapter::Remote(c) => c.len,
            ReaderAdapter::Rdma(r) => r@.len,
            ReaderAdapter::Hole(c) => c.len,
        }
    }

    pub open spec fn block_of(self) -> ExtendedBlock {
        match self {
            ReaderAdapter::Local(c) => c.block,
            ReaderAdapter::Remote(c) => c.block,
            ReaderAdapter::Rdma(r) => r@.block,
            ReaderAdapter::Hole(c) => c.block,
        }
    }

    pub open spec fn worker_of(self) -> state::WorkerAddressView {
        match self {
            ReaderAdapter::Local(c) => c.worker_address@,
            ReaderAdapter::Remote(c) => c.worker_address@,
            ReaderAdapter::Rdma(r) => r@.worker,
            ReaderAdapter::Hole(c) => c.worker_address@,
        }
    }

    /// What is left to read can be counted.
    pub open spec fn countable(self) -> bool {
        i64::MIN <= self.len_of() - self.pos_of() <= i64::MAX
    }

    /// The adapter at another position.
    pub open spec fn moved(self, pos: i64, after: ReaderAdapter) -> bool {
        match (self, after) {
            (ReaderAdapter::Local(c), ReaderAdapter::Local(d)) => d == (BlockCursor { pos, ..c }),
            (ReaderAdapter::Remote(c), ReaderAdapter::Remote(d)) => d == (BlockCursor { pos, ..c }),
            (ReaderAdapter::Hole(c), ReaderAdapter::Hole(d)) => d == (BlockCursor { pos, ..c }),
            (ReaderAdapter::Rdma(r), ReaderAdapter::Rdma(s)) => s@
                == (block_reader_rdma::RdmaReaderState { pos, ..r@ }),
            _ => false,
        }
    }

    pub fn remaining(&self) -> (r: i64)
        requires
            self.countable(),
        ensures
            r == self.len_of() - self.pos_of(),
    {
        match self {
            ReaderAdapter::Local(c) => c.len - c.pos,
            ReaderAdapter::Remote(c) => c.len - c.pos,
            ReaderAdapter::Rdma(r) => r.remaining(),
            ReaderAdapter::Hole(c) => c.len - c.pos,
        }
    }

    /// Moves to another position in the block.
    pub fn seek(&mut self, pos: i64) -> (r: Result<i64, FsError>)
        ensures
            if 0 <= pos <= old(self).len_of() {
                r == Ok::<i64, FsError>(pos) && old(self).moved(pos, *final(self))
            } else {
                r == Err::<i64, FsError>(FsError::InvalidSeek { pos }) && old(self).moved(
                    old(self).pos_of(),
                    *final(self),
                )
            },
    {
        match self {
            ReaderAdapter::Local(c) => c.seek(pos),
            ReaderAdapter::Remote(c) => c.seek(pos),
            ReaderAdapter::Rdma(r) => r.seek(pos),
            ReaderAdapter::Hole(c) => c.seek(pos),
        }
    }

    pub fn pos(&self) -> (r: i64)
        ensures
            r == self.pos_of(),
    {
        match self {
            ReaderAdapter::Local(c) => c.pos,
            ReaderAdapter::Remote(c) => c.pos,
            ReaderAdapter::Rdma(r) => r.pos(),
            ReaderAdapter::Hole(c) => c.pos,
        }
    }

    pub fn len(&self) -> (r: i64)
        ensures
            r == self.len_of(),
    {
        match self {
            ReaderAdapter::Local(c) => c.len,
            ReaderAdapter::Remote(c) => c.len,
            ReaderAdapter::Rdma(r) => r.len(),
            ReaderAdapter::Hole(c) => c.len,
        }
    }

    pub fn block_id(&self) -> (r: i64)
        ensures
            r == self.block_of().id,
    {
        match self {
            ReaderAdapter::Local(c) => c.block.id,
            ReaderAdapter::Remote(c) => c.block.id,
            ReaderAdapter::Rdma(r) => r.block_id(),
            ReaderAdapter::Hole(c) => c.block.id,
        }
    }

    pub fn worker_address(&self) -> (r: &WorkerAddress)
        ensures
            r@ == self.worker_of(),
    {
        match self {
            ReaderAdapter::Local(c) => &c.worker_address,
            ReaderAdapter::Remote(c) => &c.worker_address,
            ReaderAdapter::Rdma(r) => r.worker_address(),
            ReaderAdapter::Hole(c) => &c.worker_address,
        }
    }
}

/// A way to read a block, and the worker to read it from.
#[derive(Debug)]
pub enum ReadWay {
    Hole,
    Local(WorkerAddress),
    Rdma(WorkerAddress),
    Remote(WorkerAddress),
}

/// A way to read a block, as plain values.
pub enum ReadWayView {
    Hole,
    Local(state::WorkerAddressView),
    Rdma(state::WorkerAddressView),
    Remote(state::WorkerAddressView),
}

impl View for ReadWay {
    type V = ReadWayView;

    open spec fn view(&self) -> ReadWayView {
        match *self {
            ReadWay::Hole => ReadWayView::Hole,
            ReadWay::Local(w) => ReadWayView::Local(w@),
            ReadWay::Rdma(w) => ReadWayView::Rdma(w@),
            ReadWay::Remote(w) => ReadWayView::Remote(w@),
        }
    }
}

/// The reader to open next, with the position it is to start at.
#[derive(Debug)]
pub struct OpenReader {
    pub way: ReadWay,
    pub block: ExtendedBlock,
    pub off: i64,
    pub len: i64,
}

/// The reader to open next, as plain values.
pub struct OpenReaderView {
    pub way: ReadWayView,
    pub block: ExtendedBlock,
    pub off: i64,
    pub len: i64,
}

impl View for OpenReader {
    type V = OpenReaderView;

    open spec fn view(&self) -> OpenReaderView {
        OpenReaderView { way: self.way@, block: self.block, off: self.off, len: self.len }
    }
}

impl OpenReaderView {
    /// The adapter reads in this way, from this worker, and stands at this position.
    pub open spec fn opens(self, adapter: ReaderAdapter) -> bool {
        &&& adapter.pos_of() == self.off
        &&& adapter.len_of() == self.len
        &&& adapter.block_of() == self.block
        &&& match self.way {
            ReadWayView::Hole => adapter is Hole && adapter.worker_of() == state::nowhere(),
            ReadWayView::Local(w) => adapter is Local && adapter.worker_of() == w,
            ReadWayView::Rdma(w) => adapter is Rdma && adapter.worker_of() == w,
            ReadWayView::Remote(w) => adapter is Remote && adapter.worker_of() == w,
        }
    }

    /// What to open when this could not be opened: TCP in place of RDMA, at the same position;
    /// nothing in place of anything else.
    pub open spec fn fallback(self) -> Option<OpenReaderView> {
        match self.way {
            ReadWayView::Rdma(w) => Some(OpenReaderView { way: ReadWayView::Remote(w), ..self }),
            _ => None,
        }
    }
}

/// RDMA is used when the client has it set up and the worker offers it.
pub open spec fn rdma_agreed(ctx: FsContext, worker: state::WorkerAddressView) -> bool {
    ctx.has_rdma && worker.supports_rdma()
}

/// The way to read from a worker: its files where it is on the same host, else by RDMA where
/// both sides can, else by TCP.
pub open spec fn way_to(ctx: FsContext, worker: state::WorkerAddressView) -> ReadWayView {
    if ctx.conf.short_circuit && ctx.is_local(worker) {
        ReadWayView::Local(worker)
    } else if rdma_agreed(ctx, worker) && ctx.has_rdma_manager {
        ReadWayView::Rdma(worker)
    } else {
        ReadWayView::Remote(worker)
    }
}

/// The reader to open first for a block on the given workers, at the given position; `None`
/// where there is no worker to read it from.
pub open spec fn first_choice(
    ctx: FsContext,
    locs: Seq<state::WorkerAddressView>,
    block: ExtendedBlock,
    off: i64,
    len: i64,
) -> Option<OpenReaderView> {
    if locs.len() > 0 {
        Some(OpenReaderView { way: way_to(ctx, locs[0]), block, off, len })
    } else if block.has_alloc_opts {
        Some(OpenReaderView { way: ReadWayView::Hole, block, off, len })
    } else {
        None
    }
}

/// The workers of a block in the order in which they are read from: one on the client's host
/// first, where files may be read directly.
pub open spec fn sorted(
    list: Seq<WorkerAddress>,
    short_circuit: bool,
    hostname: Seq<char>,
) -> Seq<WorkerAddress> {
    let i = first_on_host(list, hostname);
    if short_circuit && i < list.len() {
        swapped(list, 0, i)
    } else {
        list
    }
}

/// The error says that no worker is left, and which ones failed on this client.
pub open spec fn no_worker(error: FsError, ctx: FsContext) -> bool {
    error matches FsError::NoAvailableWorker { failed_workers } && failed_workers@
        == ctx.failed_workers@
}

impl OpenReader {
    /// What to open when this could not be opened: TCP in place of RDMA. Any other failure
    /// stands.
    pub fn failed(self, error: FsError) -> (r: Result<OpenReader, FsError>)
        ensures
            match self@.fallback() {
                Some(next) => r is Ok && r->Ok_0@ == next,
                None => r == Err::<OpenReader, FsError>(error),
            },
    {
        match self.way {
            ReadWay::Rdma(w) => Ok(
                OpenReader {
                    way: ReadWay::Remote(w),
                    block: self.block,
                    off: self.off,
                    len: self.len,
                },
            ),
            _ => Err(error),
        }
    }

    /// The adapter once its file or connection is open.
    pub fn opened(self) -> (r: ReaderAdapter)
        requires
            !(self@.way is Rdma),
        ensures
            self@.opens(r),
    {
        let (block, pos, len) = (self.block, self.off, self.len);
        match self.way {
            ReadWay::Local(worker_address) => ReaderAdapter::Local(
                BlockCursor { block, worker_address, pos, len },
            ),
            ReadWay::Rdma(worker_address) | ReadWay::Remote(worker_address) =>
                ReaderAdapter::Remote(BlockCursor { block, worker_address, pos, len }),
            ReadWay::Hole => ReaderAdapter::Hole(
                BlockCursor { block, worker_address: WorkerAddress::new(0, "", "", 0, 0), pos, len },
            ),
        }
    }

    /// The RDMA adapter once the worker has answered the request that was prepared for it.
    pub fn opened_by_rdma(
        self,
        prepared: PreparedRead,
        req_id: i64,
        response: &BlockReadResponse,
    ) -> (r: ReaderAdapter)
        requires
            self@.way is Rdma,
            prepared.request.off == self.off,
            prepared.request.len == self.len,
        ensures
            self@.opens(r),
            r matches ReaderAdapter::Rdma(reader) && reader@
                == (block_reader_rdma::RdmaReaderState {
                buffer: match prepared.buffer {
                    Some(b) => Some(b@),
                    None => None,
                },
                shared: prepared.buffer matches Some(b) && !b.is_sole(),
                block: self.block,
                worker: self@.way->Rdma_0,
                pos: self.off,
                len: self.len,
                req_id,
                seq_id: 0,
                rdma_enabled: response.rdma_transfer == Some(true),
            }),
    {
        let worker = match self.way {
            ReadWay::Rdma(w) | ReadWay::Local(w) | ReadWay::Remote(w) => w,
            ReadWay::Hole => WorkerAddress::new(0, "", "", 0, 0),
        };
        ReaderAdapter::Rdma(BlockReaderRdma::new(prepared, self.block, worker, req_id, response))
    }
}

/// What a reader does when it is asked for data.
#[derive(Debug, Clone, Copy, PartialEq, Eq, Structural)]
pub enum BlockReadStep {
    /// The end was reached: there is no data.
    End,
    /// The adapter is to be read.
    ReadAdapter,
}

/// Reader of a block.
#[derive(Debug)]
pub struct BlockReader {
    pub inner: ReaderAdapter,
    /// The workers that have not failed.
    pub locs: Vec<WorkerAddress>,
    pub block: ExtendedBlock,
    pub fs_context: Arc<FsContext>,
}

impl BlockReader {
    /// Decides how a block is read from `off` on: in which order its workers are tried, and what
    /// to open first. The workers are to come in random order.
    pub fn plan(
        fs_context: &FsContext,
        located: LocatedBlock,
        off: i64,
    ) -> (r: Result<(LocatedBlock, OpenReader), FsError>)
        ensures
            ({
                let locs = sorted(
                    located.locs@,
                    fs_context.conf.short_circuit,
                    fs_context.hostname@,
                );
                match first_choice(
                    *fs_context,
                    worker_views(locs),
                    located.block,
                    off,
                    located.block.len,
                ) {
                    Some(choice) => {
                        &&& r matches Ok((ordered, first))
                        &&& ordered.block == located.block
                        &&& ordered.locs@ == locs
                        &&& first@ == choice
                    },
                    None => r matches Err(e) && no_worker(e, *fs_context),
                }
            }),
    {
        let block = located.block;
        let locs = match Self::sort_locs(
            located.locs,
            fs_context.conf.short_circuit,
            &fs_context.hostname,
        ) {
            Ok(locs) => locs,
            Err(e) => {
                return Err(e);
            },
        };
        match Self::get_reader(&locs, &block, fs_context, off, block.len) {
            Ok(first) => Ok((LocatedBlock { block, locs }, first)),
            Err(e) => Err(e),
        }
    }

    /// A reader of a block from `off` on, over the adapter that was opened for it.
    pub fn new(
        fs_context: Arc<FsContext>,
        located: LocatedBlock,
        off: i64,
        inner: ReaderAdapter,
    ) -> (r: Self)
        requires
            inner.pos_of() == off,
            inner.len_of() == located.block.len,
            inner.block_of() == located.block,
        ensures
            r == (BlockReader { inner, locs: located.locs, block: located.block, fs_context }),
    {
        BlockReader { inner, locs: located.locs, block: located.block, fs_context }
    }

    /// Orders the workers of a block: one on the client's host first, where files may be read
    /// directly; else as they are, which is to be in random order.
    pub fn sort_locs(
        locs: Vec<WorkerAddress>,
        short_circuit: bool,
        hostname: &String,
    ) -> (r: Result<Vec<WorkerAddress>, FsError>)
        ensures
            r is Ok,
            r->Ok_0@ == sorted(locs@, short_circuit, hostname@),
    {
        if locs.is_empty() || !short_circuit {
            return Ok(locs);
        }
        let mut list = locs;
        let mut i: usize = 0;
        while i < list.len() && list[i].hostname != *hostname
            invariant
                list == locs,
                i <= list@.len(),
                forall|k: int| 0 <= k < i ==> (#[trigger] list@[k]).hostname@ != hostname@,
            decreases list@.len() - i,
        {
            i = i + 1;
        }
        proof {
            lemma_first_on_host(locs@, hostname@, i as int);
        }
        if i > 0 && i < list.len() {
            let local = list.remove(i);
            let first = list.remove(0);
            list.insert(0, local);
            list.insert(i, first);
        }
        proof {
            if i < locs@.len() {
                assert(list@ =~= swapped(locs@, 0, i as int));
            }
        }
        Ok(list)
    }

    /// Whether client and worker agree on RDMA.
    pub fn should_use_rdma(fs_context: &FsContext, worker: &WorkerAddress) -> (r: bool)
        ensures
            r == rdma_agreed(*fs_context, worker@),
    {
        if !fs_context.has_rdma {
            return false;
        }
        match &worker.rdma_capability {
            Some(capability) => {
                if !capability.enabled {
                    return false;
                }
                !capability.domain_addresses.is_empty()
            },
            None => false,
        }
    }

    /// The reader to open for a block on the given workers, at `off` and with `len`.
    pub fn get_reader(
        locs: &Vec<WorkerAddress>,
        block: &ExtendedBlock,
        fs_context: &FsContext,
        off: i64,
        len: i64,
    ) -> (r: Result<OpenReader, FsError>)
        ensures
            match first_choice(*fs_context, worker_views(locs@), *block, off, len) {
                Some(choice) => r is Ok && r->Ok_0@ == choice,
                None => r matches Err(e) && no_worker(e, *fs_context),
            },
    {
        let way = if locs.is_empty() {
            if !block.has_alloc_opts {
                let failed_workers = fs_context.failed_workers.clone();
                assert(failed_workers@ =~= fs_context.failed_workers@);
                return Err(FsError::NoAvailableWorker { failed_workers });
            }
            ReadWay::Hole
        } else {
            let loc = &locs[0];
            assert(worker_views(locs@)[0] == loc@);
            if fs_context.conf.short_circuit && fs_context.is_local_worker(loc) {
                ReadWay::Local(loc.clone())
            } else if Self::should_use_rdma(fs_context, loc) && fs_context.has_rdma_manager {
                ReadWay::Rdma(loc.clone())
            } else {
                ReadWay::Remote(loc.clone())
            }
        };
        Ok(OpenReader { way, block: *block, off, len })
    }

    /// What to do for the next piece of data.
    pub fn read(&self) -> (r: BlockReadStep)
        requires
            self.inner.countable(),
        ensures
            r == if self.inner.len_of() > self.inner.pos_of() {
                BlockReadStep::ReadAdapter
            } else {
                BlockReadStep::End
            },
    {
        if !self.has_remaining() {
            return BlockReadStep::End;
        }
        BlockReadStep::ReadAdapter
    }

    /// Takes note that reading the adapter failed. Where another worker is left, says what to
    /// open in its place, at the same position; the worker that failed is not tried again.
    pub fn read_failed(&mut self, error: FsError) -> (r: Result<OpenReader, FsError>)
        ensures
            final(self).inner == old(self).inner,
            final(self).block == old(self).block,
            final(self).fs_context == old(self).fs_context,
            if old(self).inner is Hole || old(self).locs@.len() == 0 {
                &&& r matches Err(FsError::BlockUnreadable { worker, reason })
                &&& worker@ == old(self).inner.worker_of()
                &&& reason@ == error.text()
                &&& final(self).locs == old(self).locs
            } else {
                &&& worker_views(final(self).locs@) == others(
                    worker_views(old(self).locs@),
                    old(self).inner.worker_of(),
                )
                &&& match first_choice(
                    *old(self).fs_context,
                    worker_views(final(self).locs@),
                    old(self).block,
                    old(self).inner.pos_of(),
                    old(self).inner.len_of(),
                ) {
                    Some(choice) => r is Ok && r->Ok_0@ == choice,
                    None => r matches Err(e) && no_worker(e, *old(self).fs_context),
                }
            },
    {
        let hole = match &self.inner {
            ReaderAdapter::Hole(_) => true,
            _ => false,
        };
        if hole || self.locs.is_empty() {
            return Err(
                FsError::BlockUnreadable {
                    worker: self.inner.worker_address().clone(),
                    reason: error.to_string(),
                },
            );
        }
        let mut locs: Vec<WorkerAddress> = Vec::new();
        std::mem::swap(&mut locs, &mut self.locs);
        self.locs = Self::without(locs, self.inner.worker_address());
        Self::get_reader(&self.locs, &self.block, &self.fs_context, self.pos(), self.len())
    }

    /// The workers of a list that are not the given one.
    fn without(list: Vec<WorkerAddress>, failed: &WorkerAddress) -> (r: Vec<WorkerAddress>)
        ensures
            worker_views(r@) == others(worker_views(list@), failed@),
    {
        let ghost all = list@;
        let ghost keep = |w: state::WorkerAddressView| !w.same_worker(failed@);
        let mut kept: Vec<WorkerAddress> = Vec::new();
        proof {
            reveal(Seq::filter);
            assert(worker_views(kept@) =~= worker_views(all).take(0).filter(keep));
        }
        for worker in it: list
            invariant
                it.seq() == all,
                keep == (|w: state::WorkerAddressView| !w.same_worker(failed@)),
                worker_views(kept@) == worker_views(all).take(it.index() as int).filter(keep),
        {
            proof {
                let n = it.index() as int;
                let before = worker_views(all).take(n);
                assert(worker_views(all).take(n + 1) =~= before.push(worker@));
                reveal(Seq::filter);
                assert(before.push(worker@).drop_last() =~= before);
                assert(worker_views(kept@.push(worker)) =~= worker_views(kept@).push(worker@));
            }
            if !worker.same_worker(failed) {
                kept.push(worker);
            }
        }
        assert(worker_views(all).take(all.len() as int) =~= worker_views(all));
        kept
    }

    /// Goes on with an adapter that was opened in place of one that failed, where that one
    /// stood. Returns the one that failed.
    pub fn reopened(&mut self, inner: ReaderAdapter) -> (r: ReaderAdapter)
        requires
            inner.pos_of() == old(self).inner.pos_of(),
            inner.len_of() == old(self).inner.len_of(),
            inner.block_of() == old(self).block,
        ensures
            r == old(self).inner,
            *final(self) == (BlockReader {
                inner,
                locs: old(self).locs,
                block: old(self).block,
                fs_context: old(self).fs_context,
            }),
    {
        let mut other = inner;
        std::mem::swap(&mut other, &mut self.inner);
        other
    }

    /// Ends the read. That the adapter could not be completed is no failure of the read.
    pub fn complete(&self, outcome: Result<(), FsError>) -> (r: Result<(), FsError>)
        ensures
            r is Ok,
    {
        let _ = outcome;
        Ok(())
    }

    pub fn remaining(&self) -> (r: i64)
        requires
            self.inner.countable(),
        ensures
            r == self.inner.len_of() - self.inner.pos_of(),
    {
        self.inner.remaining()
    }

    pub fn has_remaining(&self) -> (r: bool)
        requires
            self.inner.countable(),
        ensures
            r == (self.inner.len_of() > self.inner.pos_of()),
    {
        self.remaining() > 0
    }

    /// Moves to another position in the block.
    pub fn seek(&mut self, pos: i64) -> (r: Result<(), FsError>)
        ensures
            final(self).locs == old(self).locs,
            final(self).block == old(self).block,
            final(self).fs_context == old(self).fs_context,
            if 0 <= pos <= old(self).inner.len_of() {
                r is Ok && old(self).inner.moved(pos, final(self).inner)
            } else {
                r == Err::<(), FsError>(FsError::InvalidSeek { pos }) && old(self).inner.moved(
                    old(self).inner.pos_of(),
                    final(self).inner,
                )
            },
    {
        match self.inner.seek(pos) {
            Ok(_) => Ok(()),
            Err(e) => Err(e),
        }
    }

    pub fn pos(&self) -> (r: i64)
        ensures
            r == self.inner.pos_of(),
    {
        self.inner.pos()
    }

    pub fn len(&self) -> (r: i64)
        ensures
            r == self.inner.len_of(),
    {
        self.inner.len()
    }

    pub fn is_empty(&self) -> (r: bool)
        ensures
            r == (self.inner.len_of() == 0),
    {
        self.len() == 0
    }

    pub fn block_id(&self) -> (r: i64)
        ensures
            r == self.inner.block_of().id,
    {
        self.inner.block_id()
    }
}

} // verus!
