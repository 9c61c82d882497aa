//! Block reads on the client that take the data by RDMA.
//!
//! The reader decides what to ask of the worker; its caller sends the requests and reports the
//! answers.

use crate::client_rdma_manager::{ClientRdmaManager, RdmaBuffer};
use crate::conversions;
use crate::error::FsError;
use crate::memory_pool;
use crate::memory_pool::RdmaMemoryPool;
use crate::proto;
use crate::proto::RdmaMemoryRegionDescriptorProto;
use crate::rdma_read_handler::BlockReadResponse;
use crate::shared_bytes;
use crate::shared_bytes::bytes_from_owner;
use crate::state;
use crate::state::{ClientConf, ExtendedBlock, WorkerAddress};
use crate::types;
use bytes::Bytes;
use vstd::prelude::*;

verus! {

/// Request to open a read.
#[derive(Debug)]
pub struct BlockReadRequest {
    pub id: i64,
    pub off: i64,
    pub len: i64,
    pub chunk_size: i32,
    pub short_circuit: bool,
    pub enable_read_ahead: bool,
    pub read_ahead_len: i64,
    pub drop_cache_len: i64,
    /// Where the data is to be written, if there is a buffer for it.
    pub rdma_target: Option<RdmaMemoryRegionDescriptorProto>,
    pub rdma_target_offset: Option<u64>,
}

/// A read that is about to be opened, with the buffer for its data.
#[derive(Debug)]
pub struct PreparedRead {
    pub buffer: Option<RdmaBuffer>,
    pub request: BlockReadRequest,
}

impl PreparedRead {
    /// What the worker is told of the buffer.
    pub open spec fn target(self, pool: memory_pool::PoolState) -> Option<
        proto::DescriptorProtoView,
    > {
        match self.buffer {
            Some(b) => Some(
                conversions::descriptor_to_wire(
                    types::DescriptorView {
                        ptr: b@.ptr,
                        addr_rkey_list: pool.descriptor.addr_rkey_list,
                    },
                ),
            ),
            None => None,
        }
    }
}

/// What an RDMA reader needs to go on.
#[derive(Debug)]
pub enum ReadStep {
    /// Data that is there.
    Chunk(Bytes),
    /// The worker has to be asked for a chunk.
    Fetch { req_id: i64, seq_id: i32 },
}

/// Request to end a read.
#[derive(Debug, Clone, Copy, PartialEq, Eq, Structural)]
pub struct CommitRequest {
    pub block: ExtendedBlock,
    pub req_id: i64,
    pub seq_id: i32,
}

/// What a [`BlockReaderRdma`] is, as plain values.
#[verifier::ext_equal]
pub struct RdmaReaderState {
    pub buffer: Option<memory_pool::AllocationView>,
    /// A handle to the buffer was given to others.
    pub shared: bool,
    pub block: ExtendedBlock,
    pub worker: state::WorkerAddressView,
    pub pos: i64,
    pub len: i64,
    pub req_id: i64,
    pub seq_id: i32,
    pub rdma_enabled: bool,
}

impl RdmaReaderState {
    /// What is left to read can be counted.
    pub open spec fn countable(self) -> bool {
        i64::MIN <= self.len - self.pos <= i64::MAX
    }

    /// The buffer is of this pool.
    pub open spec fn reads_from(self, pool: memory_pool::PoolState) -> bool {
        &&& pool.wf()
        &&& self.buffer matches Some(b) ==> b.belongs_to(pool)
    }

    /// Bytes of the buffer that can be handed out at the position.
    pub open spec fn buffered(self) -> int {
        match self.buffer {
            Some(b) => if self.pos < 0 || self.pos >= b.size {
                0
            } else if self.len - self.pos <= b.size - self.pos {
                self.len - self.pos
            } else {
                b.size - self.pos
            },
            None => 0,
        }
    }

    /// The data was put into the buffer.
    pub open spec fn has_data(self) -> bool {
        self.rdma_enabled && self.buffer is Some
    }

    /// The bytes of the buffer that are handed out at the position.
    pub open spec fn window(self, memory: Seq<u8>) -> Seq<u8> {
        let start = self.buffer.unwrap().offset + self.pos;
        memory.subrange(start, start + self.buffered())
    }
}

/// Reader of a block that takes the data by RDMA where the worker agrees, by TCP otherwise.
#[derive(Debug)]
pub struct BlockReaderRdma {
    buffer: Option<RdmaBuffer>,
    block: ExtendedBlock,
    worker_address: WorkerAddress,
    pos: i64,
    len: i64,
    req_id: i64,
    seq_id: i32,
    rdma_enabled: bool,
}

impl View for BlockReaderRdma {
    type V = RdmaReaderState;

    closed spec fn view(&self) -> RdmaReaderState {
        RdmaReaderState {
            buffer: match self.buffer {
                Some(b) => Some(b@),
                None => None,
            },
            shared: self.buffer matches Some(b) && !b.is_sole(),
            block: self.block,
            worker: self.worker_address@,
            pos: self.pos,
            len: self.len,
            req_id: self.req_id,
            seq_id: self.seq_id,
            rdma_enabled: self.rdma_enabled,
        }
    }
}

impl BlockReaderRdma {
    /// Allocates a buffer for `len` bytes and writes the request to open the read. Without
    /// room for a buffer the request names no target, and the worker will not use RDMA.
    pub fn prepare(
        conf: &ClientConf,
        manager: &mut ClientRdmaManager,
        block: &ExtendedBlock,
        off: i64,
        len: i64,
    ) -> (r: PreparedRead)
        requires
            old(manager)@.wf(),
            old(manager)@.countable(len as usize),
        ensures
            final(manager)@.wf(),
            final(manager)@ == old(manager)@.allocate(len as usize).0,
            r.buffer is Some <==> old(manager)@.allocate(len as usize).1 is Some,
            r.buffer matches Some(b) ==> {
                &&& Some(b@.offset) == old(manager)@.allocate(len as usize).1
                &&& b@.size == len as usize
                &&& b@.belongs_to(final(manager)@)
                &&& b.is_sole()
            },
            r.request.id == block.id,
            r.request.off == off,
            r.request.len == len,
            r.request.chunk_size == conf.read_chunk_size as i32,
            !r.request.short_circuit,
            r.request.enable_read_ahead == conf.enable_read_ahead,
            r.request.read_ahead_len == conf.read_ahead_len,
            r.request.drop_cache_len == conf.drop_cache_len,
            r.request.rdma_target_offset == Some(0u64),
            match r.request.rdma_target {
                Some(t) => r.target(old(manager)@) == Some(t@),
                None => r.target(old(manager)@) is None,
            },
    {
        let size: usize = #[verifier::truncate]
        (len as usize);
        let buffer = match RdmaBuffer::allocate(manager.memory_pool_mut(), size) {
            Ok(b) => Some(b),
            Err(_) => None,
        };
        let rdma_target = match &buffer {
            Some(b) => Some(
                RdmaMemoryRegionDescriptorProto::from(b.descriptor(manager.memory_pool())),
            ),
            None => None,
        };
        PreparedRead {
            buffer,
            request: BlockReadRequest {
                id: block.id,
                off,
                len,
                chunk_size: #[verifier::truncate]
                (conf.read_chunk_size as i32),
                short_circuit: false,
                enable_read_ahead: conf.enable_read_ahead,
                read_ahead_len: conf.read_ahead_len,
                drop_cache_len: conf.drop_cache_len,
                rdma_target,
                rdma_target_offset: Some(0),
            },
        }
    }

    /// The reader once the worker has answered the request. The data is in the buffer where
    /// the worker says so.
    pub fn new(
        prepared: PreparedRead,
        block: ExtendedBlock,
        worker_address: WorkerAddress,
        req_id: i64,
        response: &BlockReadResponse,
    ) -> (r: Self)
        ensures
            r@ == (RdmaReaderState {
                buffer: match prepared.buffer {
                    Some(b) => Some(b@),
                    None => None,
                },
                shared: prepared.buffer matches Some(b) && !b.is_sole(),
                block,
                worker: worker_address@,
                pos: prepared.request.off,
                len: prepared.request.len,
                req_id,
                seq_id: 0,
                rdma_enabled: response.rdma_transfer == Some(true),
            }),
    {
        let rdma_enabled = match response.rdma_transfer {
            Some(by_rdma) => by_rdma,
            None => false,
        };
        BlockReaderRdma {
            buffer: prepared.buffer,
            block,
            worker_address,
            pos: prepared.request.off,
            len: prepared.request.len,
            req_id,
            seq_id: 0,
            rdma_enabled,
        }
    }

    /// Gives the buffer of a read up that could not be opened. Returns whether the pool got
    /// memory back, which it does unless others were given a handle to the buffer.
    pub fn abandon(prepared: PreparedRead, manager: &mut ClientRdmaManager) -> (r: bool)
        requires
            old(manager)@.wf(),
            prepared.buffer matches Some(b) ==> b@.belongs_to(old(manager)@),
        ensures
            final(manager)@.wf(),
            prepared.buffer is None ==> !r,
            prepared.buffer matches Some(b) && b.is_sole() ==> r,
            final(manager)@ == if r {
                old(manager)@.deallocate(prepared.buffer->Some_0@.extent())
            } else {
                old(manager)@
            },
    {
        match prepared.buffer {
            Some(b) => b.release(manager.memory_pool_mut()),
            None => false,
        }
    }

    /// Ends the use of the reader and gives its buffer up. Returns whether the pool got memory
    /// back, which it does unless others were given a handle to the buffer.
    pub fn close(self, manager: &mut ClientRdmaManager) -> (r: bool)
        requires
            self@.reads_from(old(manager)@),
        ensures
            final(manager)@.wf(),
            self@.buffer is None ==> !r,
            self@.buffer is Some && !self@.shared ==> r,
            final(manager)@ == if r {
                old(manager)@.deallocate(self@.buffer->Some_0.extent())
            } else {
                old(manager)@
            },
    {
        match self.buffer {
            Some(b) => b.release(manager.memory_pool_mut()),
            None => false,
        }
    }

    fn next_seq_id(&mut self) -> (r: i32)
        requires
            old(self)@.seq_id < i32::MAX,
        ensures
            r == old(self)@.seq_id + 1,
            final(self)@ == (RdmaReaderState { seq_id: r, ..old(self)@ }),
    {
        self.seq_id = self.seq_id + 1;
        self.seq_id
    }

    /// Number of the last request that was made for the read.
    pub fn seq_id(&self) -> (r: i32)
        ensures
            r == self@.seq_id,
    {
        self.seq_id
    }

    /// Position in the block.
    pub fn pos(&self) -> (r: i64)
        ensures
            r == self@.pos,
    {
        self.pos
    }

    /// Length of the block.
    pub fn len(&self) -> (r: i64)
        ensures
            r == self@.len,
    {
        self.len
    }

    pub fn is_empty(&self) -> (r: bool)
        ensures
            r == (self@.len == 0),
    {
        self.len() == 0
    }

    /// Bytes from the position to the end.
    pub fn remaining(&self) -> (r: i64)
        requires
            self@.countable(),
        ensures
            r == self@.len - self@.pos,
    {
        self.len - self.pos
    }

    /// Moves to another position in the block.
    pub fn seek(&mut self, pos: i64) -> (r: Result<i64, FsError>)
        ensures
            0 <= pos <= old(self)@.len ==> {
                &&& r == Ok::<i64, FsError>(pos)
                &&& final(self)@ == (RdmaReaderState { pos, ..old(self)@ })
                &&& final(self)@.countable()
            },
            !(0 <= pos <= old(self)@.len) ==> {
                &&& r == Err::<i64, FsError>(FsError::InvalidSeek { pos })
                &&& final(self)@ == old(self)@
            },
    {
        if pos < 0 || pos > self.len {
            return Err(FsError::InvalidSeek { pos });
        }
        self.pos = pos;
        Ok(self.pos)
    }

    /// Reads on: hands out what is in the buffer, or says what to ask the worker for.
    pub fn read(&mut self, pool: &RdmaMemoryPool) -> (r: Result<ReadStep, FsError>)
        requires
            old(self)@.countable(),
            old(self)@.reads_from(pool@),
            old(self)@.pos < old(self)@.len && !old(self)@.has_data() ==> old(self)@.seq_id
                < i32::MAX,
        ensures
            ({
                let s = old(self)@;
                if s.len <= s.pos {
                    &&& r == Err::<ReadStep, FsError>(FsError::NoReadableData)
                    &&& final(self)@ == s
                } else if s.has_data() && s.buffered() == 0 {
                    &&& r == Err::<ReadStep, FsError>(FsError::BufferDrained)
                    &&& final(self)@ == s
                } else if s.has_data() {
                    &&& r matches Ok(ReadStep::Chunk(data))
                    &&& shared_bytes::bytes_content(data) == s.window(pool@.memory)
                    &&& final(self)@ == (RdmaReaderState { pos: (s.pos + s.buffered()) as i64, ..s })
                } else {
                    &&& r == Ok::<ReadStep, FsError>(
                        ReadStep::Fetch { req_id: s.req_id, seq_id: (s.seq_id + 1) as i32 },
                    )
                    &&& final(self)@ == (RdmaReaderState { seq_id: (s.seq_id + 1) as i32, ..s })
                }
            }),
    {
        let remaining = self.remaining();
        if remaining <= 0 {
            return Err(FsError::NoReadableData);
        }
        if self.rdma_enabled {
            if let Some(buffer) = &self.buffer {
                let size: i64 = buffer.size() as i64;
                let buffer_remaining: i64 = if self.pos < 0 || self.pos >= size {
                    0
                } else {
                    size - self.pos
                };
                let chunk_size: i64 = if remaining <= buffer_remaining {
                    remaining
                } else {
                    buffer_remaining
                };
                if chunk_size == 0 {
                    return Err(FsError::BufferDrained);
                }
                let from: usize = self.pos as usize;
                let to: usize = from + chunk_size as usize;
                let all = buffer.as_slice(pool);
                let chunk = vstd::slice::slice_subrange(all, from, to);
                proof {
                    assert(chunk@ =~= old(self)@.window(pool@.memory));
                }
                let owned = vstd::slice::slice_to_vec(chunk);
                self.pos = self.pos + chunk_size;
                return Ok(ReadStep::Chunk(bytes_from_owner(owned)));
            }
        }
        let seq_id = self.next_seq_id();
        Ok(ReadStep::Fetch { req_id: self.req_id, seq_id })
    }

    /// Takes note of a chunk that the worker sent.
    pub fn fetched(&mut self, chunk_len: usize)
        requires
            chunk_len <= i64::MAX,
            old(self)@.pos + chunk_len <= i64::MAX,
        ensures
            final(self)@ == (RdmaReaderState {
                pos: (old(self)@.pos + chunk_len) as i64,
                ..old(self)@
            }),
    {
        self.pos = self.pos + chunk_len as i64;
    }

    /// The request that ends the read.
    pub fn complete(&mut self) -> (r: CommitRequest)
        requires
            old(self)@.seq_id < i32::MAX,
        ensures
            r == (CommitRequest {
                block: old(self)@.block,
                req_id: old(self)@.req_id,
                seq_id: (old(self)@.seq_id + 1) as i32,
            }),
            final(self)@ == (RdmaReaderState {
                seq_id: (old(self)@.seq_id + 1) as i32,
                ..old(self)@
            }),
    {
        let seq_id = self.next_seq_id();
        CommitRequest { block: self.block, req_id: self.req_id, seq_id }
    }

    pub fn block_id(&self) -> (r: i64)
        ensures
            r == self@.block.id,
    {
        self.block.id
    }

    pub fn worker_address(&self) -> (r: &WorkerAddress)
        ensures
            r@ == self@.worker,
    {
        &self.worker_address
    }
}

} // verus!
