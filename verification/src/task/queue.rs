//! The bounded FIFO queues of the scheduler, kept in `crossbeam_queue::ArrayQueue`.
//!
//! The queues are fields of the scheduler's context and never leave it, and
//! every function here that changes one takes it by `&mut`: nothing else
//! pushes or pops meanwhile, so a queue behaves as a plain bounded sequence.
//! What the functions of this file promise is what `ArrayQueue` does for a
//! single owner; none of it is proved here.
use crossbeam_queue::ArrayQueue;
use vstd::prelude::*;

verus! {

#[verifier::external_type_specification]
#[verifier::external_body]
#[verifier::reject_recursive_types(T)]
pub struct ExArrayQueue<T>(ArrayQueue<T>);

/// The largest capacity that this library makes a queue with.
pub const MAX_QUEUE_CAPACITY: usize = 65536;

/// The task identifiers that a ready queue holds, oldest first.
pub uninterp spec fn id_queue_items(queue: ArrayQueue<u64>) -> Seq<u64>;

/// The capacity that a ready queue was made with.
pub uninterp spec fn id_queue_capacity(queue: ArrayQueue<u64>) -> nat;

/// The scancodes that a scancode queue holds, oldest first.
pub uninterp spec fn byte_queue_items(queue: ArrayQueue<u8>) -> Seq<u8>;

/// The capacity that a scancode queue was made with.
pub uninterp spec fn byte_queue_capacity(queue: ArrayQueue<u8>) -> nat;

/// `ArrayQueue::new`: an empty queue of the capacity asked for. The call
/// panics on a capacity of zero, which `requires` leaves out.
#[verifier::external_body]
pub(crate) fn id_queue_new(capacity: usize) -> (queue: ArrayQueue<u64>)
    requires
        0 < capacity <= MAX_QUEUE_CAPACITY,
    ensures
        id_queue_items(queue) == Seq::<u64>::empty(),
        id_queue_capacity(queue) == capacity,
{
    ArrayQueue::new(capacity)
}

/// `ArrayQueue::push`: the value goes to the back of a queue that has room;
/// a full queue stays as it is and hands the value back.
#[verifier::external_body]
pub(crate) fn id_queue_push(queue: &mut ArrayQueue<u64>, id: u64) -> (r: Result<(), u64>)
    ensures
        id_queue_capacity(*final(queue)) == id_queue_capacity(*old(queue)),
        id_queue_items(*old(queue)).len() < id_queue_capacity(*old(queue)) ==> r is Ok
            && id_queue_items(*final(queue)) == id_queue_items(*old(queue)).push(id),
        id_queue_items(*old(queue)).len() >= id_queue_capacity(*old(queue)) ==> (r matches Err(back) && back == id)
            && id_queue_items(*final(queue)) == id_queue_items(*old(queue)),
{
    queue.push(id)
}

/// `ArrayQueue::pop`: the oldest value leaves the queue; an empty queue
/// gives `None`.
#[verifier::external_body]
pub(crate) fn id_queue_pop(queue: &mut ArrayQueue<u64>) -> (r: Option<u64>)
    ensures
        id_queue_capacity(*final(queue)) == id_queue_capacity(*old(queue)),
        id_queue_items(*old(queue)).len() == 0 ==> r is None && id_queue_items(*final(queue))
            == id_queue_items(*old(queue)),
        id_queue_items(*old(queue)).len() > 0 ==> r == Some(id_queue_items(*old(queue))[0])
            && id_queue_items(*final(queue)) == id_queue_items(*old(queue)).drop_first(),
{
    queue.pop()
}

/// `ArrayQueue::is_empty`: whether the queue holds nothing.
#[verifier::external_body]
pub(crate) fn id_queue_is_empty(queue: &ArrayQueue<u64>) -> (r: bool)
    ensures
        r == (id_queue_items(*queue).len() == 0),
{
    queue.is_empty()
}

/// `ArrayQueue::is_full`: whether the queue holds as many values as its
/// capacity.
#[verifier::external_body]
pub(crate) fn id_queue_is_full(queue: &ArrayQueue<u64>) -> (r: bool)
    ensures
        r == (id_queue_items(*queue).len() == id_queue_capacity(*queue)),
{
    queue.is_full()
}

/// `ArrayQueue::len`: the number of values in the queue.
#[verifier::external_body]
pub(crate) fn id_queue_len(queue: &ArrayQueue<u64>) -> (r: usize)
    ensures
        r == id_queue_items(*queue).len(),
{
    queue.len()
}

/// `ArrayQueue::new`: an empty queue of the capacity asked for. The call
/// panics on a capacity of zero, which `requires` leaves out.
#[verifier::external_body]
pub(crate) fn byte_queue_new(capacity: usize) -> (queue: ArrayQueue<u8>)
    requires
        0 < capacity <= MAX_QUEUE_CAPACITY,
    ensures
        byte_queue_items(queue) == Seq::<u8>::empty(),
        byte_queue_capacity(queue) == capacity,
{
    ArrayQueue::new(capacity)
}

/// `ArrayQueue::push`: the value goes to the back of a queue that has room;
/// a full queue stays as it is and hands the value back.
#[verifier::external_body]
pub(crate) fn byte_queue_push(queue: &mut ArrayQueue<u8>, byte: u8) -> (r: Result<(), u8>)
    ensures
        byte_queue_capacity(*final(queue)) == byte_queue_capacity(*old(queue)),
        byte_queue_items(*old(queue)).len() < byte_queue_capacity(*old(queue)) ==> r is Ok
            && byte_queue_items(*final(queue)) == byte_queue_items(*old(queue)).push(byte),
        byte_queue_items(*old(queue)).len() >= byte_queue_capacity(*old(queue)) ==> (r matches Err(back) && back == byte)
            && byte_queue_items(*final(queue)) == byte_queue_items(*old(queue)),
{
    queue.push(byte)
}

/// `ArrayQueue::pop`: the oldest value leaves the queue; an empty queue
/// gives `None`.
#[verifier::external_body]
pub(crate) fn byte_queue_pop(queue: &mut ArrayQueue<u8>) -> (r: Option<u8>)
    ensures
        byte_queue_capacity(*final(queue)) == byte_queue_capacity(*old(queue)),
        byte_queue_items(*old(queue)).len() == 0 ==> r is None && byte_queue_items(*final(queue))
            == byte_queue_items(*old(queue)),
        byte_queue_items(*old(queue)).len() > 0 ==> r == Some(byte_queue_items(*old(queue))[0])
            && byte_queue_items(*final(queue)) == byte_queue_items(*old(queue)).drop_first(),
{
    queue.pop()
}

/// `ArrayQueue::len`: the number of values in the queue.
#[verifier::external_body]
pub(crate) fn byte_queue_len(queue: &ArrayQueue<u8>) -> (r: usize)
    ensures
        r == byte_queue_items(*queue).len(),
{
    queue.len()
}

} // verus!
