//! Errors of the read path.

use crate::block_handler::RpcCode;
use crate::memory_pool::PoolExhausted;
use crate::state::WorkerAddress;
use crate::text;
use crate::text::{push_bool, push_decimal, push_list, push_signed_decimal};
use vstd::prelude::*;
use vstd::string::*;

verus! {

/// Why an operation of the read path failed.
#[derive(Debug)]
pub enum FsError {
    /// The reader stands at its end.
    NoReadableData,
    /// The RDMA buffer holds nothing at the reader's position.
    BufferDrained,
    /// A position outside the block.
    InvalidSeek { pos: i64 },
    /// Data that does not fit into the buffer it is copied to.
    BufferTooSmall { have: usize, need: usize },
    /// A file region where bytes were expected.
    UnexpectedIoSlice,
    /// No data where some was expected.
    EmptyDataSlice,
    /// A read that starts past the end of the block.
    OffsetBeyondBlock { off: i64, len: i64 },
    /// A chunk was asked for without an open file or request.
    ReadNotOpen { req_id: i64, file: bool, context: bool },
    /// A request was completed that is not open.
    CompleteNotOpen { req_id: i64, file: bool },
    /// A request status that the read handler does not serve.
    UnsupportedRequest,
    /// There is no handler for the request.
    NotInitialized,
    /// No handler type serves the request.
    UnsupportedCode { code: RpcCode },
    /// No replica is left to try. The workers that failed on this client are named.
    NoAvailableWorker { failed_workers: Vec<u32> },
    /// A block could not be read from a worker, and there is no other one.
    BlockUnreadable { worker: WorkerAddress, reason: String },
    /// The memory pool is exhausted.
    Pool(PoolExhausted),
    /// A direct read of the disk failed, with the system's error text.
    DirectRead { reason: String },
    /// A read of the disk by io_uring failed, with the system's error text.
    UringRead { reason: String },
    /// The transfer engine or a peer failed, with its error text.
    Outside { reason: String },
}

impl FsError {
    /// The error as text.
    pub open spec fn text(self) -> Seq<char> {
        match self {
            FsError::NoReadableData => "No readable data"@,
            FsError::BufferDrained => "No data remaining in RDMA buffer"@,
            FsError::InvalidSeek { pos } => "Invalid seek position: "@ + text::signed_decimal(
                pos as int,
            ),
            FsError::BufferTooSmall { have, need } => "Buffer too small: "@ + text::decimal(
                have as nat,
            ) + " < "@ + text::decimal(need as nat),
            FsError::UnexpectedIoSlice => "Unexpected IOSlice in buffered read fallback"@,
            FsError::EmptyDataSlice => "Empty DataSlice returned"@,
            FsError::OffsetBeyondBlock { off, len } =>
                "The length of the requested data exceeds the maximum length of the block file, request off "@
                + text::signed_decimal(off as int) + ", file len "@ + text::signed_decimal(
                len as int,
            ),
            FsError::ReadNotOpen { req_id, file, context } =>
                "RDMA read() - ERROR: file or context is None for req_id: "@
                + text::signed_decimal(req_id as int) + ". file: "@ + text::bool_text(file)
                + ", context: "@ + text::bool_text(context),
            FsError::CompleteNotOpen { req_id, file } =>
                "RDMA complete() - ERROR: context is None for req_id: "@ + text::signed_decimal(
                req_id as int,
            )
                + ". This means open() either failed or was never called successfully. file present: "@
                + text::bool_text(file),
            FsError::UnsupportedRequest => "Unsupported request type for RDMA read handler"@,
            FsError::NotInitialized => "The request is not initialized"@,
            FsError::UnsupportedCode { .. } => "Unsupported request type"@,
            FsError::NoAvailableWorker { failed_workers } =>
                "There is no available worker, locs: [], failed workers: ["@ + text::listed(
                failed_workers@,
            ) + "]"@,
            FsError::BlockUnreadable { worker, reason } => "failed to read block on "@
                + worker.hostname@ + ": "@ + reason@,
            FsError::Pool(e) => e.text(),
            FsError::DirectRead { reason } => "Direct I/O read failed: "@ + reason@,
            FsError::UringRead { reason } => "io_uring read failed: "@ + reason@,
            FsError::Outside { reason } => reason@,
        }
    }

    /// The error as text.
    pub fn to_string(&self) -> (r: String)
        ensures
            r@ == self.text(),
    {
        match self {
            FsError::NoReadableData => "No readable data".to_owned(),
            FsError::BufferDrained => "No data remaining in RDMA buffer".to_owned(),
            FsError::InvalidSeek { pos } => {
                let mut out = "Invalid seek position: ".to_owned();
                push_signed_decimal(&mut out, *pos);
                out
            },
            FsError::BufferTooSmall { have, need } => {
                let mut out = "Buffer too small: ".to_owned();
                push_decimal(&mut out, *have as u64);
                out.append(" < ");
                push_decimal(&mut out, *need as u64);
                out
            },
            FsError::UnexpectedIoSlice => "Unexpected IOSlice in buffered read fallback".to_owned(),
            FsError::EmptyDataSlice => "Empty DataSlice returned".to_owned(),
            FsError::OffsetBeyondBlock { off, len } => {
                let mut out =
                    "The length of the requested data exceeds the maximum length of the block file, request off ".to_owned();
                push_signed_decimal(&mut out, *off);
                out.append(", file len ");
                push_signed_decimal(&mut out, *len);
                out
            },
            FsError::ReadNotOpen { req_id, file, context } => {
                let mut out =
                    "RDMA read() - ERROR: file or context is None for req_id: ".to_owned();
                push_signed_decimal(&mut out, *req_id);
                out.append(". file: ");
                push_bool(&mut out, *file);
                out.append(", context: ");
                push_bool(&mut out, *context);
                out
            },
            FsError::CompleteNotOpen { req_id, file } => {
                let mut out = "RDMA complete() - ERROR: context is None for req_id: ".to_owned();
                push_signed_decimal(&mut out, *req_id);
                out.append(
                    ". This means open() either failed or was never called successfully. file present: ",
                );
                push_bool(&mut out, *file);
                out
            },
            FsError::UnsupportedRequest =>
                "Unsupported request type for RDMA read handler".to_owned(),
            FsError::NotInitialized => "The request is not initialized".to_owned(),
            FsError::UnsupportedCode { .. } => "Unsupported request type".to_owned(),
            FsError::NoAvailableWorker { failed_workers } => {
                let mut out =
                    "There is no available worker, locs: [], failed workers: [".to_owned();
                push_list(&mut out, failed_workers);
                out.append("]");
                out
            },
            FsError::BlockUnreadable { worker, reason } => {
                let mut out = "failed to read block on ".to_owned();
                out.append(worker.hostname.as_str());
                out.append(": ");
                out.append(reason.as_str());
                out
            },
            FsError::Pool(e) => e.to_string(),
            FsError::DirectRead { reason } => text::join("Direct I/O read failed: ", reason.as_str()),
            FsError::UringRead { reason } => text::join("io_uring read failed: ", reason.as_str()),
            FsError::Outside { reason } => reason.clone(),
        }
    }
}

/// The text of an error says what failed, with the values that it carries.
pub proof fn law_error_says_what_failed(e: FsError, r: String)
    requires
        call_ensures(FsError::to_string, (&e,), r),
    ensures
        match e {
            FsError::NoReadableData => r@ == "No readable data"@,
            FsError::BufferDrained => r@ == "No data remaining in RDMA buffer"@,
            FsError::InvalidSeek { pos } => r@ == "Invalid seek position: "@ + number(pos as int),
            FsError::BufferTooSmall { have, need } => r@ == "Buffer too small: "@ + number(
                have as int,
            ) + " < "@ + number(need as int),
            FsError::UnexpectedIoSlice => r@ == "Unexpected IOSlice in buffered read fallback"@,
            FsError::EmptyDataSlice => r@ == "Empty DataSlice returned"@,
            FsError::OffsetBeyondBlock { off, len } => r@
                == "The length of the requested data exceeds the maximum length of the block file, request off "@
                + number(off as int) + ", file len "@ + number(len as int),
            FsError::ReadNotOpen { req_id, file, context } => r@
                == "RDMA read() - ERROR: file or context is None for req_id: "@ + number(
                req_id as int,
            ) + ". file: "@ + (if file {
                "true"@
            } else {
                "false"@
            }) + ", context: "@ + (if context {
                "true"@
            } else {
                "false"@
            }),
            FsError::CompleteNotOpen { req_id, file } => r@
                == "RDMA complete() - ERROR: context is None for req_id: "@ + number(req_id as int)
                + ". This means open() either failed or was never called successfully. file present: "@
                + (if file {
                "true"@
            } else {
                "false"@
            }),
            FsError::UnsupportedRequest => r@
                == "Unsupported request type for RDMA read handler"@,
            FsError::NotInitialized => r@ == "The request is not initialized"@,
            FsError::UnsupportedCode { .. } => r@ == "Unsupported request type"@,
            FsError::NoAvailableWorker { failed_workers } => r@
                == "There is no available worker, locs: [], failed workers: ["@ + text::listed(
                failed_workers@,
            ) + "]"@,
            FsError::BlockUnreadable { worker, reason } => r@ == "failed to read block on "@
                + worker.hostname@ + ": "@ + reason@,
            FsError::Pool(p) => r@ == "RDMA memory pool exhausted (total: "@ + number(
                p.total as int,
            ) + ", requested: "@ + number(p.requested as int) + ", current_offset: "@ + number(
                p.current_offset as int,
            ) + ")"@,
            FsError::DirectRead { reason } => r@ == "Direct I/O read failed: "@ + reason@,
            FsError::UringRead { reason } => r@ == "io_uring read failed: "@ + reason@,
            FsError::Outside { reason } => r@ == reason@,
        },
{
}

/// A number as it is written, with a minus in front where it is below zero.
pub open spec fn number(n: int) -> Seq<char> {
    if n < 0 {
        seq!['-'] + text::decimal((-n) as nat)
    } else {
        text::decimal(n as nat)
    }
}

/// The text of a refused request says the same as the error that carries it.
pub proof fn law_refusal_says_what_was_asked(p: PoolExhausted, r: String, s: String)
    requires
        call_ensures(PoolExhausted::to_string, (&p,), r),
        call_ensures(FsError::to_string, (&FsError::Pool(p),), s),
    ensures
        r@ == s@,
{
}

} // verus!
