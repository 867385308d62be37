//! The event queue between the keyboard interrupt and the task that reads
//! scancodes: a bounded queue of bytes and a single slot for the handle of the
//! task waiting on it.

use vstd::prelude::*;
use crossbeam_queue::ArrayQueue;
use crate::bounded::{event_items, event_capacity, new_event_queue, event_push, event_pop, MAX_QUEUE_CAPACITY};
use crate::task::WakeHandle;

verus! {

/// The abstract state of a `ScancodeQueue`.
pub struct ScancodeView {
    pub items: Seq<u8>,
    pub capacity: nat,
    pub waiter: Option<WakeHandle>,
}

/// Outcome of publishing a scancode.
#[derive(Debug, Clone, Copy, PartialEq, Eq, Structural)]
pub enum Publish {
    /// Queued; the handle that was waiting, if any, is to be woken.
    Queued(Option<WakeHandle>),
    /// The queue was full and the scancode was dropped.
    Dropped,
}

impl ScancodeView {
    pub open spec fn wf(self) -> bool {
        0 < self.capacity && self.items.len() <= self.capacity
    }

    /// After `publish(code)`: queued and the waiter taken, unless full.
    pub open spec fn published(self, code: u8) -> (ScancodeView, Publish) {
        if self.items.len() < self.capacity {
            (
                ScancodeView { items: self.items.push(code), capacity: self.capacity, waiter: None },
                Publish::Queued(self.waiter),
            )
        } else {
            (self, Publish::Dropped)
        }
    }

    /// After `try_pop`: the oldest scancode leaves, if there is one.
    pub open spec fn popped(self) -> (ScancodeView, Option<u8>) {
        if self.items.len() > 0 {
            (
                ScancodeView {
                    items: self.items.drop_first(),
                    capacity: self.capacity,
                    waiter: self.waiter,
                },
                Some(self.items[0]),
            )
        } else {
            (self, None)
        }
    }

    /// After `register(h)`: `h` replaces whatever handle was waiting.
    pub open spec fn registered(self, h: WakeHandle) -> ScancodeView {
        ScancodeView { items: self.items, capacity: self.capacity, waiter: Some(h) }
    }

    /// Every scancode consumed, and `h` waiting for the next one.
    pub open spec fn drained(self, h: WakeHandle) -> ScancodeView {
        ScancodeView { items: Seq::empty(), capacity: self.capacity, waiter: Some(h) }
    }
}

pub struct ScancodeQueue {
    queue: ArrayQueue<u8>,
    waiter: Option<WakeHandle>,
}

impl View for ScancodeQueue {
    type V = ScancodeView;

    closed spec fn view(&self) -> ScancodeView {
        ScancodeView {
            items: event_items(self.queue),
            capacity: event_capacity(self.queue),
            waiter: self.waiter,
        }
    }
}

impl ScancodeQueue {
    pub fn new(capacity: usize) -> (q: ScancodeQueue)
        requires
            0 < capacity <= MAX_QUEUE_CAPACITY,
        ensures
            q@ == (ScancodeView { items: Seq::empty(), capacity: capacity as nat, waiter: None }),
    {
        ScancodeQueue { queue: new_event_queue(capacity), waiter: None }
    }

    /// Interrupt side: queues the scancode and takes the waiting handle, so
    /// that the caller wakes it; a full queue drops the scancode instead.
    pub fn publish(&mut self, code: u8) -> (r: Publish)
        ensures
            (final(self)@, r) == old(self)@.published(code),
    {
        match event_push(&mut self.queue, code) {
            Ok(()) => {
                let w = self.take_waiter();
                Publish::Queued(w)
            },
            Err(_) => Publish::Dropped,
        }
    }

    /// Task side: takes the oldest scancode, if any.
    pub fn try_pop(&mut self) -> (r: Option<u8>)
        ensures
            (final(self)@, r) == old(self)@.popped(),
    {
        event_pop(&mut self.queue)
    }

    /// Task side: leaves `h` to be woken by the next publish.
    pub fn register(&mut self, h: WakeHandle)
        ensures
            final(self)@ == old(self)@.registered(h),
    {
        self.waiter = Some(h);
    }

    /// Empties the wake slot, returning what it held.
    pub fn take_waiter(&mut self) -> (r: Option<WakeHandle>)
        ensures
            r == old(self)@.waiter,
            final(self)@ == (ScancodeView { waiter: None, ..old(self)@ }),
    {
        self.waiter.take()
    }

    pub fn len(&self) -> (r: usize)
        ensures
            r as nat == self@.items.len(),
    {
        crate::bounded::event_len(&self.queue)
    }

    pub fn capacity(&self) -> (r: usize)
        ensures
            r as nat == self@.capacity,
    {
        crate::bounded::event_cap(&self.queue)
    }

    pub fn waiter(&self) -> (r: Option<WakeHandle>)
        ensures
            r == self@.waiter,
    {
        self.waiter
    }
}

/// A scancode published after the reader found the queue empty, and before its
/// second look, is found by that second look, whether it lands before or after
/// the reader's registration.
pub proof fn lemma_no_missed_wakeup(v: ScancodeView, h: WakeHandle, code: u8, before_register: bool)
    requires
        v.wf(),
        v.popped().1 is None,
    ensures
        ({
            let w = if before_register {
                v.published(code).0.registered(h)
            } else {
                v.registered(h).published(code).0
            };
            w.popped().1 == Some(code)
        }),
{
}

} // verus!
