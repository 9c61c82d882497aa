//! The unbounded queue of the `crossbeam` crate, as the handler pool uses it.
//!
//! Each function here has the queue to itself where it changes it.

use crate::block_handler::BlockHandler;
use crossbeam::queue::SegQueue;
use vstd::prelude::*;

verus! {

/// The queue type of the `crossbeam` crate.
#[verifier::external_type_specification]
#[verifier::external_body]
#[verifier::reject_recursive_types(T)]
pub struct ExSegQueue<T>(crossbeam::queue::SegQueue<T>);

/// The handlers in a queue, the next to leave first.
pub uninterp spec fn queued(q: SegQueue<BlockHandler>) -> Seq<BlockHandler>;

/// `SegQueue::new`: a queue with nothing in it.
#[verifier::external_body]
pub(crate) fn queue_new() -> (r: SegQueue<BlockHandler>)
    ensures
        queued(r) == Seq::<BlockHandler>::empty(),
{
    SegQueue::new()
}

/// `SegQueue::push`: puts a handler at the end.
#[verifier::external_body]
pub(crate) fn queue_push(q: &mut SegQueue<BlockHandler>, handler: BlockHandler)
    ensures
        queued(*final(q)) == queued(*old(q)).push(handler),
{
    q.push(handler)
}

/// `SegQueue::pop`: takes the first handler out, if there is one.
#[verifier::external_body]
pub(crate) fn queue_pop(q: &mut SegQueue<BlockHandler>) -> (r: Option<BlockHandler>)
    ensures
        queued(*old(q)).len() == 0 ==> r is None && queued(*final(q)) == queued(*old(q)),
        queued(*old(q)).len() > 0 ==> r == Some(queued(*old(q))[0]) && queued(*final(q)) == queued(
            *old(q),
        ).drop_first(),
{
    q.pop()
}

/// `SegQueue::len`: the number of handlers.
#[verifier::external_body]
pub(crate) fn queue_len(q: &SegQueue<BlockHandler>) -> (r: usize)
    ensures
        r == queued(*q).len(),
{
    q.len()
}

} // verus!
