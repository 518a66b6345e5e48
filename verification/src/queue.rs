//! The bounded FIFO queue of `crossbeam_queue` that the schedulers and the
//! executor use, seen through a model of its contents.
use vstd::prelude::*;
use crossbeam_queue::ArrayQueue;

verus! {

/// `crossbeam_queue::ArrayQueue`, held opaquely.
#[verifier::external_type_specification]
#[verifier::external_body]
#[verifier::reject_recursive_types(T)]
pub struct ExArrayQueue<T>(ArrayQueue<T>);

/// The items a queue holds, from its head (next to be popped) to its tail.
pub uninterp spec fn queue_items(q: ArrayQueue<u64>) -> Seq<u64>;

/// The capacity a queue was created with.
pub uninterp spec fn queue_capacity(q: ArrayQueue<u64>) -> nat;

/// Calls `ArrayQueue::new`: an empty queue with the given capacity.
/// The crate panics on a zero capacity and when the buffer of 16-byte slots
/// would exceed `isize::MAX` bytes; `requires` leaves both out.
#[verifier::external_body]
pub(crate) fn queue_new(cap: usize) -> (q: ArrayQueue<u64>)
    requires
        0 < cap,
        cap * 16 <= isize::MAX,
    ensures
        queue_items(q) == Seq::<u64>::empty(),
        queue_capacity(q) == cap,
{
    ArrayQueue::new(cap)
}

/// Calls `ArrayQueue::push`: appends at the tail unless the queue holds
/// `capacity` items, in which case the value comes back as the error and the
/// queue is unchanged.
#[verifier::external_body]
pub(crate) fn queue_push(q: &mut ArrayQueue<u64>, v: u64) -> (r: Result<(), u64>)
    ensures
        queue_capacity(*final(q)) == queue_capacity(*old(q)),
        queue_items(*old(q)).len() < queue_capacity(*old(q)) ==> r is Ok && queue_items(*final(q))
            == queue_items(*old(q)).push(v),
        queue_items(*old(q)).len() >= queue_capacity(*old(q)) ==> (r matches Err(e) && e == v)
            && queue_items(*final(q)) == queue_items(*old(q)),
{
    q.push(v)
}

/// Calls `ArrayQueue::pop`: removes and returns the head, or `None` when the
/// queue is empty.
#[verifier::external_body]
pub(crate) fn queue_pop(q: &mut ArrayQueue<u64>) -> (r: Option<u64>)
    ensures
        queue_capacity(*final(q)) == queue_capacity(*old(q)),
        queue_items(*old(q)).len() == 0 ==> r is None && queue_items(*final(q)) == queue_items(
            *old(q),
        ),
        queue_items(*old(q)).len() > 0 ==> r == Some(queue_items(*old(q))[0]) && queue_items(
            *final(q),
        ) == queue_items(*old(q)).drop_first(),
{
    q.pop()
}

/// Calls `ArrayQueue::len`: the number of items the queue holds.
#[verifier::external_body]
pub(crate) fn queue_len(q: &ArrayQueue<u64>) -> (r: usize)
    ensures
        r == queue_items(*q).len(),
{
    q.len()
}

} // verus!
