//! Data as the storage and transport layers hand it over.

use crate::error::FsError;
use crate::shared_bytes;
use crate::shared_bytes::bytes_as_slice;
use bytes::Bytes;
use vstd::prelude::*;

verus! {

/// A piece of data, or where it lies.
#[derive(Debug)]
pub enum DataSlice {
    /// An owned buffer.
    Buffer(Vec<u8>),
    /// A copy of mapped memory.
    MemSlice(Vec<u8>),
    /// A shared buffer.
    Bytes(Bytes),
    /// A region of a file that the kernel is to send.
    IOSlice { off: i64, len: usize },
    /// Nothing.
    Empty,
}

impl DataSlice {
    /// The bytes that are in memory; a file region has none there.
    pub open spec fn content(self) -> Option<Seq<u8>> {
        match self {
            DataSlice::Buffer(v) => Some(v@),
            DataSlice::MemSlice(v) => Some(v@),
            DataSlice::Bytes(b) => Some(shared_bytes::bytes_content(b)),
            DataSlice::IOSlice { .. } => None,
            DataSlice::Empty => Some(Seq::<u8>::empty()),
        }
    }

    /// Number of bytes.
    pub open spec fn size(self) -> int {
        match self {
            DataSlice::IOSlice { len, .. } => len as int,
            _ => self.content().unwrap().len() as int,
        }
    }

    /// Number of bytes.
    pub fn len(&self) -> (r: usize)
        ensures
            r == self.size(),
    {
        match self {
            DataSlice::Buffer(v) => v.len(),
            DataSlice::MemSlice(v) => v.len(),
            DataSlice::Bytes(b) => bytes_as_slice(b).len(),
            DataSlice::IOSlice { len, .. } => *len,
            DataSlice::Empty => 0,
        }
    }

    /// No data.
    pub fn empty() -> (r: Self)
        ensures
            r == DataSlice::Empty,
    {
        DataSlice::Empty
    }
}

/// Copies `data` to the start of `buffer`. Returns how many bytes those are.
fn copy_to_front(data: &[u8], buffer: &mut [u8]) -> (r: Result<usize, FsError>)
    ensures
        data@.len() <= old(buffer)@.len() ==> {
            &&& r == Ok::<usize, FsError>(data@.len() as usize)
            &&& final(buffer)@ == data@ + old(buffer)@.skip(data@.len() as int)
        },
        data@.len() > old(buffer)@.len() ==> {
            &&& r == Err::<usize, FsError>(
                FsError::BufferTooSmall {
                    have: old(buffer)@.len() as usize,
                    need: data@.len() as usize,
                },
            )
            &&& final(buffer)@ == old(buffer)@
        },
{
    if data.len() > buffer.len() {
        return Err(FsError::BufferTooSmall { have: buffer.len(), need: data.len() });
    }
    let ghost before = buffer@;
    let mut i: usize = 0;
    while i < data.len()
        invariant
            i <= data@.len() <= before.len(),
            buffer@ == data@.take(i as int) + before.skip(i as int),
        decreases data@.len() - i,
    {
        buffer[i] = data[i];
        i = i + 1;
        assert(buffer@ =~= data@.take(i as int) + before.skip(i as int));
    }
    assert(data@.take(i as int) =~= data@);
    Ok(data.len())
}

/// Copies what a buffered read of a file returned to the start of an RDMA buffer. Returns how
/// many bytes those are.
pub fn read_buffered_to_rdma(data: &DataSlice, buffer: &mut [u8]) -> (r: Result<usize, FsError>)
    ensures
        match *data {
            DataSlice::IOSlice { .. } => {
                &&& r == Err::<usize, FsError>(FsError::UnexpectedIoSlice)
                &&& final(buffer)@ == old(buffer)@
            },
            DataSlice::Empty => {
                &&& r == Err::<usize, FsError>(FsError::EmptyDataSlice)
                &&& final(buffer)@ == old(buffer)@
            },
            _ => {
                let bytes = data.content().unwrap();
                if bytes.len() <= old(buffer)@.len() {
                    &&& r == Ok::<usize, FsError>(bytes.len() as usize)
                    &&& final(buffer)@ == bytes + old(buffer)@.skip(bytes.len() as int)
                } else {
                    &&& r == Err::<usize, FsError>(
                        FsError::BufferTooSmall {
                            have: old(buffer)@.len() as usize,
                            need: bytes.len() as usize,
                        },
                    )
                    &&& final(buffer)@ == old(buffer)@
                }
            },
        },
{
    match data {
        DataSlice::Buffer(v) => copy_to_front(v.as_slice(), buffer),
        DataSlice::MemSlice(v) => copy_to_front(v.as_slice(), buffer),
        DataSlice::Bytes(b) => copy_to_front(bytes_as_slice(b), buffer),
        DataSlice::IOSlice { .. } => Err(FsError::UnexpectedIoSlice),
        DataSlice::Empty => Err(FsError::EmptyDataSlice),
    }
}

} // verus!
