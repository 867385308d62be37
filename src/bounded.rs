//! The bounded queues of the scheduler: crossbeam's `ArrayQueue`, used through
//! its exclusive-access operations, holding task ids (the ready queue) or
//! scancodes (the event queue).

use vstd::prelude::*;
use crossbeam_queue::ArrayQueue;

verus! {

/// `crossbeam_queue::ArrayQueue`, a bounded FIFO queue; what it holds is
/// known through `ready_items` and `event_items` below.
#[verifier::external_type_specification]
#[verifier::external_body]
#[verifier::reject_recursive_types(T)]
pub struct ExArrayQueue<T>(ArrayQueue<T>);

/// The task ids held by a ready queue, oldest first.
pub uninterp spec fn ready_items(q: ArrayQueue<u64>) -> Seq<u64>;

/// The capacity a ready queue was made with.
pub uninterp spec fn ready_capacity(q: ArrayQueue<u64>) -> nat;

/// The scancodes held by an event queue, oldest first.
pub uninterp spec fn event_items(q: ArrayQueue<u8>) -> Seq<u8>;

/// The capacity an event queue was made with.
pub uninterp spec fn event_capacity(q: ArrayQueue<u8>) -> nat;

/// Largest capacity accepted: `ArrayQueue::new` panics when one more than the
/// capacity has no power of two in `usize`.
pub const MAX_QUEUE_CAPACITY: usize = 0x7fff_ffff;

/// Relies on `ArrayQueue::new`: an empty queue of the given capacity
/// (it panics on zero and on a capacity whose lap would overflow).
#[verifier::external_body]
pub(crate) fn new_ready_queue(cap: usize) -> (q: ArrayQueue<u64>)
    requires
        0 < cap <= MAX_QUEUE_CAPACITY,
    ensures
        ready_items(q) == Seq::<u64>::empty(),
        ready_capacity(q) == cap as nat,
{
    ArrayQueue::new(cap)
}

/// Relies on `ArrayQueue::push_mut`: appends at the tail unless the queue is
/// full, in which case the value comes back as the error.
#[verifier::external_body]
pub(crate) fn ready_push(q: &mut ArrayQueue<u64>, v: u64) -> (r: Result<(), u64>)
    ensures
        ready_capacity(*final(q)) == ready_capacity(*old(q)),
        ready_items(*old(q)).len() < ready_capacity(*old(q)) ==> r is Ok && ready_items(*final(q))
            == ready_items(*old(q)).push(v),
        ready_items(*old(q)).len() >= ready_capacity(*old(q)) ==> r is Err && r->Err_0 == v
            && ready_items(*final(q)) == ready_items(*old(q)),
{
    q.push_mut(v)
}

/// Relies on `ArrayQueue::pop_mut`: removes and returns the oldest element,
/// or `None` when the queue is empty.
#[verifier::external_body]
pub(crate) fn ready_pop(q: &mut ArrayQueue<u64>) -> (r: Option<u64>)
    ensures
        ready_capacity(*final(q)) == ready_capacity(*old(q)),
        ready_items(*old(q)).len() == 0 ==> r is None && ready_items(*final(q)) == ready_items(
            *old(q),
        ),
        ready_items(*old(q)).len() > 0 ==> r == Some(ready_items(*old(q))[0]) && ready_items(
            *final(q),
        ) == ready_items(*old(q)).drop_first(),
{
    q.pop_mut()
}

/// Relies on `ArrayQueue::is_empty`: whether the queue holds no element.
#[verifier::external_body]
pub(crate) fn ready_is_empty(q: &ArrayQueue<u64>) -> (r: bool)
    ensures
        r == (ready_items(*q).len() == 0),
{
    q.is_empty()
}

/// Relies on `ArrayQueue::len`: the number of elements held.
#[verifier::external_body]
pub(crate) fn ready_len(q: &ArrayQueue<u64>) -> (r: usize)
    ensures
        r as nat == ready_items(*q).len(),
{
    q.len()
}

/// Relies on `ArrayQueue::capacity`: the capacity the queue was made with.
#[verifier::external_body]
pub(crate) fn ready_cap(q: &ArrayQueue<u64>) -> (r: usize)
    ensures
        r as nat == ready_capacity(*q),
{
    q.capacity()
}

/// Relies on `ArrayQueue::new`, as `new_ready_queue` does.
#[verifier::external_body]
pub(crate) fn new_event_queue(cap: usize) -> (q: ArrayQueue<u8>)
    requires
        0 < cap <= MAX_QUEUE_CAPACITY,
    ensures
        event_items(q) == Seq::<u8>::empty(),
        event_capacity(q) == cap as nat,
{
    ArrayQueue::new(cap)
}

/// Relies on `ArrayQueue::push_mut`, as `ready_push` does.
#[verifier::external_body]
pub(crate) fn event_push(q: &mut ArrayQueue<u8>, v: u8) -> (r: Result<(), u8>)
    ensures
        event_capacity(*final(q)) == event_capacity(*old(q)),
        event_items(*old(q)).len() < event_capacity(*old(q)) ==> r is Ok && event_items(*final(q))
            == event_items(*old(q)).push(v),
        event_items(*old(q)).len() >= event_capacity(*old(q)) ==> r is Err && r->Err_0 == v
            && event_items(*final(q)) == event_items(*old(q)),
{
    q.push_mut(v)
}

/// Relies on `ArrayQueue::pop_mut`, as `ready_pop` does.
#[verifier::external_body]
pub(crate) fn event_pop(q: &mut ArrayQueue<u8>) -> (r: Option<u8>)
    ensures
        event_capacity(*final(q)) == event_capacity(*old(q)),
        event_items(*old(q)).len() == 0 ==> r is None && event_items(*final(q)) == event_items(
            *old(q),
        ),
        event_items(*old(q)).len() > 0 ==> r == Some(event_items(*old(q))[0]) && event_items(
            *final(q),
        ) == event_items(*old(q)).drop_first(),
{
    q.pop_mut()
}

} // verus!

verus! {

/// Relies on `ArrayQueue::capacity`, as `ready_cap` does.
#[verifier::external_body]
pub(crate) fn event_cap(q: &ArrayQueue<u8>) -> (r: usize)
    ensures
        r as nat == event_capacity(*q),
{
    q.capacity()
}

/// Relies on `ArrayQueue::len`, as `ready_len` does.
#[verifier::external_body]
pub(crate) fn event_len(q: &ArrayQueue<u8>) -> (r: usize)
    ensures
        r as nat == event_items(*q).len(),
{
    q.len()
}

} // verus!
