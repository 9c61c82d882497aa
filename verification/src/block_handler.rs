//! Handlers of block requests.

use crate::error::FsError;
use crate::rdma_read_handler::RdmaReadHandler;
use vstd::prelude::*;

verus! {

/// What a request is about.
#[derive(Debug, Clone, Copy, PartialEq, Eq, Structural)]
pub enum RpcCode {
    ReadBlock,
    WriteBlock,
    WriteBlocksBatch,
    SubmitTask,
    CancelJob,
    SubmitBlockReplicationJob,
    /// Any other request, by its number.
    Other(u8),
}

/// What handlers are made with.
#[derive(Debug, Clone, Copy, PartialEq, Eq, Structural)]
pub struct HandlerConf {
    /// Whether the worker has a transfer engine.
    pub has_rdma_manager: bool,
    pub rdma_inline_threshold: usize,
    pub enable_send_file: bool,
}

/// Handler of block requests. Those that only stream are known by a number.
#[derive(Debug)]
pub enum BlockHandler {
    Writer(u64),
    Reader(u64),
    BatchWriter(u64),
    RdmaReader(RdmaReadHandler),
}

impl BlockHandler {
    /// The handler is of the type that the request needs.
    pub open spec fn serves(self, code: RpcCode) -> bool {
        match code {
            RpcCode::ReadBlock => self is Reader || self is RdmaReader,
            RpcCode::WriteBlock => self is Writer,
            RpcCode::WriteBlocksBatch => self is BatchWriter,
            _ => false,
        }
    }

    /// The handler has nothing open.
    pub open spec fn is_reset(self) -> bool {
        self matches BlockHandler::RdmaReader(r) ==> r.context is None && r.file is None
    }

    /// The handler with nothing open.
    pub open spec fn reset_state(self) -> BlockHandler {
        match self {
            BlockHandler::RdmaReader(r) => BlockHandler::RdmaReader(r.completed()),
            _ => self,
        }
    }

    /// There is a type of handler for the request.
    pub open spec fn supported(code: RpcCode) -> bool {
        code == RpcCode::ReadBlock || code == RpcCode::WriteBlock || code
            == RpcCode::WriteBlocksBatch
    }

    /// A new handler for a request that is supported. Reads get an RDMA reader where the
    /// worker has a transfer engine.
    pub open spec fn made(code: RpcCode, id: u64, conf: HandlerConf) -> BlockHandler {
        match code {
            RpcCode::WriteBlock => BlockHandler::Writer(id),
            RpcCode::WriteBlocksBatch => BlockHandler::BatchWriter(id),
            _ => if conf.has_rdma_manager {
                BlockHandler::RdmaReader(
                    RdmaReadHandler {
                        has_rdma_manager: true,
                        context: None,
                        file: None,
                        rdma_inline_threshold: conf.rdma_inline_threshold,
                        enable_send_file: conf.enable_send_file,
                    },
                )
            } else {
                BlockHandler::Reader(id)
            },
        }
    }

    /// Ends whatever the handler has open.
    pub fn reset(self) -> (r: Self)
        ensures
            r == self.reset_state(),
            r.is_reset(),
    {
        match self {
            BlockHandler::RdmaReader(reader) => BlockHandler::RdmaReader(
                RdmaReadHandler {
                    has_rdma_manager: reader.has_rdma_manager,
                    context: None,
                    file: None,
                    rdma_inline_threshold: reader.rdma_inline_threshold,
                    enable_send_file: reader.enable_send_file,
                },
            ),
            other => other,
        }
    }

    /// A new handler for a request.
    pub fn new(code: RpcCode, id: u64, conf: HandlerConf) -> (r: Result<Self, FsError>)
        ensures
            r == if BlockHandler::supported(code) {
                Ok(BlockHandler::made(code, id, conf))
            } else {
                Err(FsError::UnsupportedCode { code })
            },
    {
        match code {
            RpcCode::WriteBlock => Ok(BlockHandler::Writer(id)),
            RpcCode::WriteBlocksBatch => Ok(BlockHandler::BatchWriter(id)),
            RpcCode::ReadBlock => if conf.has_rdma_manager {
                Ok(
                    BlockHandler::RdmaReader(
                        RdmaReadHandler::new(
                            true,
                            conf.rdma_inline_threshold,
                            conf.enable_send_file,
                        ),
                    ),
                )
            } else {
                Ok(BlockHandler::Reader(id))
            },
            _ => Err(FsError::UnsupportedCode { code }),
        }
    }
}

} // verus!
