//! Block reads on the worker, by RDMA where both sides can, by TCP otherwise.
//!
//! A read is opened in steps. The handler decides what to do next; its caller performs the
//! disk and network operations and reports how they ended.

use crate::counter;
use crate::counter::{accumulate_u64, count_u64};
use crate::error::FsError;
use crate::free_list;
use crate::memory_pool;
use crate::memory_pool::{RdmaAllocation, RdmaMemoryPool};
use crate::transfer_engine_manager::{TransferEngineManager, WriteRequest};
use crate::types::MemoryRegionDescriptor;
use vstd::prelude::*;

verus! {

/// A read that a client asks for.
#[derive(Debug)]
pub struct ReadContext {
    pub block_id: i64,
    pub off: i64,
    pub len: i64,
    /// Bytes in each chunk that is streamed.
    pub chunk_size: i32,
    /// Where the client wants the data written, if it can take it by RDMA.
    pub rdma_target: Option<MemoryRegionDescriptor>,
    pub rdma_target_offset: u64,
}

/// What the block store knows of a block.
#[derive(Debug, Clone, Copy, PartialEq, Eq, Structural)]
pub struct BlockMeta {
    pub len: i64,
    pub storage_type: i32,
}

/// Answer to a read that was opened.
#[derive(Debug)]
pub struct BlockReadResponse {
    pub id: i64,
    pub len: i64,
    pub path: Option<String>,
    pub storage_type: i32,
    /// Whether the data has been written to the client's memory.
    pub rdma_transfer: Option<bool>,
}

/// Status that a request carries.
#[derive(Debug, Clone, Copy, PartialEq, Eq, Structural)]
pub enum RequestStatus {
    Rpc,
    Open,
    Running,
    Complete,
    Cancel,
}

/// Metrics of a worker's reads.
#[derive(Debug, Clone, Copy, PartialEq, Eq, Structural)]
pub struct WorkerMetrics {
    /// 1 once a read has been tried by RDMA.
    pub rdma_enabled: u64,
    pub rdma_transfers_total: u64,
    pub rdma_bytes_written: u64,
    pub rdma_fallback_to_tcp: u64,
    pub read_bytes: u64,
    pub read_count: u64,
}

impl WorkerMetrics {
    pub open spec fn fell_back(self) -> WorkerMetrics {
        WorkerMetrics {
            rdma_fallback_to_tcp: counter::next_u64(self.rdma_fallback_to_tcp),
            ..self
        }
    }

    pub open spec fn transferred(self, bytes: int) -> WorkerMetrics {
        WorkerMetrics {
            rdma_transfers_total: counter::next_u64(self.rdma_transfers_total),
            rdma_bytes_written: counter::plus_u64(self.rdma_bytes_written, bytes as u64),
            ..self
        }
    }

    pub open spec fn streamed(self, bytes: int) -> WorkerMetrics {
        WorkerMetrics {
            read_bytes: counter::plus_u64(self.read_bytes, bytes as u64),
            read_count: counter::next_u64(self.read_count),
            ..self
        }
    }

    pub fn new() -> (r: Self)
        ensures
            r == (WorkerMetrics {
                rdma_enabled: 0,
                rdma_transfers_total: 0,
                rdma_bytes_written: 0,
                rdma_fallback_to_tcp: 0,
                read_bytes: 0,
                read_count: 0,
            }),
    {
        WorkerMetrics {
            rdma_enabled: 0,
            rdma_transfers_total: 0,
            rdma_bytes_written: 0,
            rdma_fallback_to_tcp: 0,
            read_bytes: 0,
            read_count: 0,
        }
    }

    fn count_fallback(&mut self)
        ensures
            *final(self) == old(self).fell_back(),
    {
        self.rdma_fallback_to_tcp = count_u64(self.rdma_fallback_to_tcp);
    }
}

/// How a staging buffer is filled: `IoUring` and `Pread` read past the page cache, `Buffered`
/// through it.
#[derive(Debug, Clone, Copy, PartialEq, Eq, Structural)]
pub enum ReadSource {
    IoUring,
    Pread,
    Buffered,
}

impl ReadSource {
    /// What to try when this fails.
    pub open spec fn next(self) -> Option<ReadSource> {
        match self {
            ReadSource::IoUring => Some(ReadSource::Pread),
            ReadSource::Pread => Some(ReadSource::Buffered),
            ReadSource::Buffered => None,
        }
    }

    /// What to try first.
    pub open spec fn first_of(io_uring: bool) -> ReadSource {
        if io_uring {
            ReadSource::IoUring
        } else {
            ReadSource::Pread
        }
    }

    /// What to try first.
    pub fn first(io_uring: bool) -> (r: ReadSource)
        ensures
            r == ReadSource::first_of(io_uring),
    {
        if io_uring {
            ReadSource::IoUring
        } else {
            ReadSource::Pread
        }
    }

    /// What to try when this fails.
    pub fn fallback(self) -> (r: Option<ReadSource>)
        ensures
            r == self.next(),
    {
        match self {
            ReadSource::IoUring => Some(ReadSource::Pread),
            ReadSource::Pread => Some(ReadSource::Buffered),
            ReadSource::Buffered => None,
        }
    }
}

/// What a direct read of the disk came to, given what the system call returned and the text
/// of its error. A read that stops short still counts.
pub fn read_direct_to_rdma(returned: isize, reason: String) -> (r: Result<usize, FsError>)
    ensures
        returned < 0 ==> r == Err::<usize, FsError>(FsError::DirectRead { reason }),
        returned >= 0 ==> r == Ok::<usize, FsError>(returned as usize),
{
    if returned < 0 {
        return Err(FsError::DirectRead { reason });
    }
    Ok(returned as usize)
}

/// What a read of the disk by io_uring came to, given the result of its completion and the
/// text of its error. A read that stops short still counts.
pub fn read_direct_to_rdma_uring(completed: i32, reason: String) -> (r: Result<usize, FsError>)
    ensures
        completed < 0 ==> r == Err::<usize, FsError>(FsError::UringRead { reason }),
        completed >= 0 ==> r == Ok::<usize, FsError>(completed as usize),
{
    if completed < 0 {
        return Err(FsError::UringRead { reason });
    }
    Ok(completed as usize)
}

/// A read that is being opened.
#[derive(Debug)]
pub struct PendingOpen {
    pub context: ReadContext,
    pub meta: BlockMeta,
}

impl PendingOpen {
    /// Where the file is to be read from.
    pub fn file_offset(&self) -> (r: u64)
        ensures
            r == self.context.off as u64,
    {
        #[verifier::truncate]
        (self.context.off as u64)
    }

    /// How much a buffered read of the file is to fetch.
    pub fn buffered_len(&self) -> (r: i32)
        ensures
            r == self.context.len as i32,
    {
        #[verifier::truncate]
        (self.context.len as i32)
    }

    /// The answer to the client.
    pub open spec fn response(self, by_rdma: bool) -> BlockReadResponse {
        BlockReadResponse {
            id: self.context.block_id,
            len: self.meta.len,
            path: None,
            storage_type: self.meta.storage_type,
            rdma_transfer: Some(by_rdma),
        }
    }

    fn answer(&self, by_rdma: bool) -> (r: BlockReadResponse)
        ensures
            r == self.response(by_rdma),
    {
        BlockReadResponse {
            id: self.context.block_id,
            len: self.meta.len,
            path: None,
            storage_type: self.meta.storage_type,
            rdma_transfer: Some(by_rdma),
        }
    }
}

/// How a read is to be opened.
#[derive(Debug)]
pub enum OpenStep {
    /// Transfer the data by RDMA.
    Transfer(PendingOpen),
    /// Open the file for streaming.
    OpenFile(PendingOpen),
}

/// A transfer with a staging buffer that is to be filled from `source`.
#[derive(Debug)]
pub struct StagedTransfer {
    pub pending: PendingOpen,
    pub staging: RdmaAllocation,
    pub source: ReadSource,
}

impl StagedTransfer {
    /// The write that carries the first `bytes_read` bytes of the staging buffer to the client.
    pub fn write_request(&self, bytes_read: usize, manager: &TransferEngineManager) -> (r:
        WriteRequest)
        requires
            self.pending.context.rdma_target is Some,
            manager@.num_domains as u8 != 0,
        ensures
            r.src_handle == self.staging@.handle,
            r.src_offset == self.staging@.offset,
            r.length == bytes_read,
            r.dst@ == self.pending.context.rdma_target->Some_0@,
            r.dst_offset == self.pending.context.rdma_target_offset,
            r.num_shards == manager@.num_domains as u8,
    {
        let target = match &self.pending.context.rdma_target {
            Some(d) => d.clone(),
            None => MemoryRegionDescriptor::new(0, Vec::new()),
        };
        manager.write_request(
            self.staging.handle(),
            self.staging.offset() as u64,
            bytes_read as u64,
            target,
            self.pending.context.rdma_target_offset,
        )
    }
}

/// What a transfer needs next, or how it ended.
#[derive(Debug)]
pub enum TransferStep {
    /// Fill the staging buffer from the source.
    Fill(StagedTransfer),
    /// Submit the write of the given number of bytes.
    Submit(StagedTransfer, usize),
    /// The data is with the client.
    Done(BlockReadResponse),
    /// The transfer failed: open the file for streaming instead.
    FallBack(PendingOpen, FsError),
}

/// A chunk that is to be read from an open file.
#[derive(Debug, Clone, Copy, PartialEq, Eq, Structural)]
pub struct RegionRead {
    pub file: u64,
    pub send_file: bool,
    pub chunk_size: i32,
}

/// What a request asks of the read handler.
#[derive(Debug, Clone, Copy, PartialEq, Eq, Structural)]
pub enum ReadRequest {
    Open,
    Read,
    Complete,
}

/// Read handler of a worker.
#[derive(Debug)]
pub struct RdmaReadHandler {
    /// Whether the worker has a transfer engine.
    pub has_rdma_manager: bool,
    /// The read that is open.
    pub context: Option<ReadContext>,
    /// The file that it is streamed from.
    pub file: Option<u64>,
    pub rdma_inline_threshold: usize,
    pub enable_send_file: bool,
}

impl RdmaReadHandler {
    /// RDMA is used when the worker has it, the read is large enough, and the client gave a
    /// target.
    pub open spec fn uses_rdma(self, context: ReadContext) -> bool {
        &&& self.has_rdma_manager
        &&& context.len >= self.rdma_inline_threshold as i64
        &&& context.rdma_target is Some
    }

    /// The handler once the data of a read is with the client.
    pub open spec fn opened_by_rdma(self, context: ReadContext) -> RdmaReadHandler {
        RdmaReadHandler { context: Some(context), ..self }
    }

    /// The handler once the file of a read is open.
    pub open spec fn opened_by_tcp(self, context: ReadContext, file: u64) -> RdmaReadHandler {
        RdmaReadHandler { context: Some(context), file: Some(file), ..self }
    }

    /// The handler once a read is completed.
    pub open spec fn completed(self) -> RdmaReadHandler {
        RdmaReadHandler { context: None, file: None, ..self }
    }

    /// What a request for a chunk is answered.
    pub open spec fn chunk(self, req_id: i64) -> Result<RegionRead, FsError> {
        match (self.file, self.context) {
            (Some(file), Some(context)) => Ok(
                RegionRead {
                    file,
                    send_file: self.enable_send_file,
                    chunk_size: context.chunk_size,
                },
            ),
            _ => Err(
                FsError::ReadNotOpen {
                    req_id,
                    file: self.file is Some,
                    context: self.context is Some,
                },
            ),
        }
    }

    /// What a request to complete is answered.
    pub open spec fn completion(self, req_id: i64) -> Result<(), FsError> {
        if self.context is Some {
            Ok(())
        } else {
            Err(FsError::CompleteNotOpen { req_id, file: self.file is Some })
        }
    }

    /// A handler without an open read.
    pub fn new(
        has_rdma_manager: bool,
        rdma_inline_threshold: usize,
        enable_send_file: bool,
    ) -> (r: Self)
        ensures
            r == (RdmaReadHandler {
                has_rdma_manager,
                context: None,
                file: None,
                rdma_inline_threshold,
                enable_send_file,
            }),
    {
        RdmaReadHandler {
            has_rdma_manager,
            context: None,
            file: None,
            rdma_inline_threshold,
            enable_send_file,
        }
    }

    /// Whether to use RDMA for a read.
    pub fn should_use_rdma(&self, context: &ReadContext) -> (r: bool)
        ensures
            r == self.uses_rdma(*context),
    {
        if !self.has_rdma_manager {
            return false;
        }
        let threshold: i64 = #[verifier::truncate]
        (self.rdma_inline_threshold as i64);
        if context.len < threshold {
            return false;
        }
        context.rdma_target.is_some()
    }

    /// Starts to open a read of a block.
    pub fn open(
        &self,
        context: ReadContext,
        meta: BlockMeta,
        metrics: &mut WorkerMetrics,
    ) -> (r: Result<OpenStep, FsError>)
        ensures
            r == if context.off > meta.len {
                Err(FsError::OffsetBeyondBlock { off: context.off, len: meta.len })
            } else if self.uses_rdma(context) {
                Ok(OpenStep::Transfer(PendingOpen { context, meta }))
            } else {
                Ok(OpenStep::OpenFile(PendingOpen { context, meta }))
            },
            *final(metrics) == if context.off <= meta.len && self.uses_rdma(context) {
                WorkerMetrics { rdma_enabled: 1, ..*old(metrics) }
            } else {
                *old(metrics)
            },
    {
        if context.off > meta.len {
            return Err(FsError::OffsetBeyondBlock { off: context.off, len: meta.len });
        }
        if self.should_use_rdma(&context) {
            metrics.rdma_enabled = 1;
            Ok(OpenStep::Transfer(PendingOpen { context, meta }))
        } else {
            Ok(OpenStep::OpenFile(PendingOpen { context, meta }))
        }
    }

    /// Allocates the staging buffer of a transfer. Where the pool has no room, the read falls
    /// back, which counts as the failure of the allocation and of the transfer.
    pub fn begin_transfer(
        &self,
        pending: PendingOpen,
        io_uring: bool,
        pool: &mut RdmaMemoryPool,
        metrics: &mut WorkerMetrics,
    ) -> (r: TransferStep)
        requires
            old(pool)@.wf(),
            old(pool)@.countable(pending.context.len as usize),
        ensures
            final(pool)@.wf(),
            final(pool)@ == old(pool)@.allocate(pending.context.len as usize).0,
            match old(pool)@.allocate(pending.context.len as usize).1 {
                Some(offset) => {
                    &&& r matches TransferStep::Fill(t)
                    &&& t.pending == pending
                    &&& t.source == ReadSource::first_of(io_uring)
                    &&& t.staging@.offset == offset
                    &&& t.staging@.size == pending.context.len as usize
                    &&& t.staging@.belongs_to(final(pool)@)
                    &&& *final(metrics) == *old(metrics)
                },
                None => {
                    &&& r == TransferStep::FallBack(
                        pending,
                        FsError::Pool(
                            memory_pool::PoolExhausted {
                                total: old(pool)@.total() as usize,
                                requested: free_list::round_up(
                                    (pending.context.len as usize) as int,
                                ) as usize,
                                current_offset: old(pool)@.current_offset,
                            },
                        ),
                    )
                    &&& *final(metrics) == old(metrics).fell_back().fell_back()
                },
            },
    {
        let size: usize = #[verifier::truncate]
        (pending.context.len as usize);
        match pool.allocate(size) {
            Ok(staging) => TransferStep::Fill(
                StagedTransfer { pending, staging, source: ReadSource::first(io_uring) },
            ),
            Err(e) => {
                metrics.count_fallback();
                metrics.count_fallback();
                TransferStep::FallBack(pending, FsError::Pool(e))
            },
        }
    }

    /// Takes note of how filling the staging buffer ended. A source that failed is followed by
    /// the next; after the last one the staging buffer is given back and the read falls back.
    pub fn staging_filled(
        &self,
        transfer: StagedTransfer,
        outcome: Result<usize, FsError>,
        pool: &mut RdmaMemoryPool,
        metrics: &mut WorkerMetrics,
    ) -> (r: TransferStep)
        requires
            old(pool)@.wf(),
            transfer.staging@.belongs_to(old(pool)@),
        ensures
            final(pool)@.wf(),
            match (outcome, transfer.source.next()) {
                (Ok(bytes_read), _) => {
                    &&& r == TransferStep::Submit(transfer, bytes_read)
                    &&& final(pool)@ == old(pool)@
                    &&& *final(metrics) == *old(metrics)
                },
                (Err(_), Some(source)) => {
                    &&& r == TransferStep::Fill(StagedTransfer { source, ..transfer })
                    &&& final(pool)@ == old(pool)@
                    &&& *final(metrics) == *old(metrics)
                },
                (Err(e), None) => {
                    &&& r == TransferStep::FallBack(transfer.pending, e)
                    &&& final(pool)@ == old(pool)@.deallocate(transfer.staging@.extent())
                    &&& *final(metrics) == old(metrics).fell_back()
                },
            },
    {
        match outcome {
            Ok(bytes_read) => TransferStep::Submit(transfer, bytes_read),
            Err(e) => match transfer.source.fallback() {
                Some(source) => TransferStep::Fill(
                    StagedTransfer { pending: transfer.pending, staging: transfer.staging, source },
                ),
                None => {
                    pool.deallocate(transfer.staging);
                    metrics.count_fallback();
                    TransferStep::FallBack(transfer.pending, e)
                },
            },
        }
    }

    /// Takes note of how the write of `bytes_read` bytes ended. The staging buffer is given
    /// back either way.
    pub fn transfer_submitted(
        &mut self,
        transfer: StagedTransfer,
        bytes_read: usize,
        outcome: Result<(), String>,
        pool: &mut RdmaMemoryPool,
        metrics: &mut WorkerMetrics,
    ) -> (r: TransferStep)
        requires
            old(pool)@.wf(),
            transfer.staging@.belongs_to(old(pool)@),
        ensures
            final(pool)@.wf(),
            final(pool)@ == old(pool)@.deallocate(transfer.staging@.extent()),
            match outcome {
                Ok(_) => {
                    &&& r == TransferStep::Done(transfer.pending.response(true))
                    &&& *final(self) == old(self).opened_by_rdma(transfer.pending.context)
                    &&& *final(metrics) == old(metrics).transferred(bytes_read as int)
                },
                Err(reason) => {
                    &&& r == TransferStep::FallBack(transfer.pending, FsError::Outside { reason })
                    &&& *final(self) == *old(self)
                    &&& *final(metrics) == old(metrics).fell_back()
                },
            },
    {
        pool.deallocate(transfer.staging);
        match outcome {
            Ok(_) => {
                metrics.rdma_transfers_total = count_u64(metrics.rdma_transfers_total);
                metrics.rdma_bytes_written =
                    accumulate_u64(metrics.rdma_bytes_written, bytes_read as u64);
                let response = transfer.pending.answer(true);
                self.context = Some(transfer.pending.context);
                TransferStep::Done(response)
            },
            Err(reason) => {
                metrics.count_fallback();
                TransferStep::FallBack(transfer.pending, FsError::Outside { reason })
            },
        }
    }

    /// Takes note of how opening the file ended, and so whether the read is open.
    pub fn file_opened(
        &mut self,
        pending: PendingOpen,
        outcome: Result<u64, FsError>,
    ) -> (r: Result<BlockReadResponse, FsError>)
        ensures
            match outcome {
                Ok(file) => {
                    &&& r == Ok::<BlockReadResponse, FsError>(pending.response(false))
                    &&& *final(self) == old(self).opened_by_tcp(pending.context, file)
                },
                Err(e) => {
                    &&& r == Err::<BlockReadResponse, FsError>(e)
                    &&& *final(self) == *old(self)
                },
            },
    {
        match outcome {
            Ok(file) => {
                let response = pending.answer(false);
                self.file = Some(file);
                self.context = Some(pending.context);
                Ok(response)
            },
            Err(e) => Err(e),
        }
    }

    /// The chunk to read next.
    pub fn read(&self, req_id: i64) -> (r: Result<RegionRead, FsError>)
        ensures
            r == self.chunk(req_id),
    {
        match (&self.file, &self.context) {
            (Some(file), Some(context)) => Ok(
                RegionRead {
                    file: *file,
                    send_file: self.enable_send_file,
                    chunk_size: context.chunk_size,
                },
            ),
            _ => Err(
                FsError::ReadNotOpen {
                    req_id,
                    file: self.file.is_some(),
                    context: self.context.is_some(),
                },
            ),
        }
    }

    /// Takes note of a chunk that was read.
    pub fn region_read(&self, len: usize, metrics: &mut WorkerMetrics)
        ensures
            *final(metrics) == old(metrics).streamed(len as int),
    {
        metrics.read_bytes = accumulate_u64(metrics.read_bytes, len as u64);
        metrics.read_count = count_u64(metrics.read_count);
    }

    /// Ends the read.
    pub fn complete(&mut self, req_id: i64) -> (r: Result<(), FsError>)
        ensures
            r == old(self).completion(req_id),
            *final(self) == if r is Ok {
                old(self).completed()
            } else {
                *old(self)
            },
    {
        if self.context.is_none() {
            return Err(FsError::CompleteNotOpen { req_id, file: self.file.is_some() });
        }
        self.context = None;
        self.file = None;
        Ok(())
    }

    /// What a request with the given status asks for.
    pub fn handle(&self, status: RequestStatus) -> (r: Result<ReadRequest, FsError>)
        ensures
            r == match status {
                RequestStatus::Open => Ok(ReadRequest::Open),
                RequestStatus::Running => Ok(ReadRequest::Read),
                RequestStatus::Complete => Ok(ReadRequest::Complete),
                _ => Err(FsError::UnsupportedRequest),
            },
    {
        match status {
            RequestStatus::Open => Ok(ReadRequest::Open),
            RequestStatus::Running => Ok(ReadRequest::Read),
            RequestStatus::Complete => Ok(ReadRequest::Complete),
            _ => Err(FsError::UnsupportedRequest),
        }
    }
}

} // verus!
