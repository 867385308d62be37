//! The executor: the task table, the ready queue and the wake-handle cache,
//! together with the event queue the keyboard interrupt feeds, the output sink
//! and the processor's interrupt state.

use vstd::prelude::*;
use std::collections::BTreeMap;
use crossbeam_queue::ArrayQueue;
use crate::bounded::{ready_items, ready_capacity, new_ready_queue, ready_push, ready_pop, ready_is_empty, ready_len, ready_cap, MAX_QUEUE_CAPACITY};
use crate::task::{Task, WakeHandle, Progress, Output};
use crate::keyboard::keys_output;
use crate::scancode::{ScancodeQueue, ScancodeView, Publish};
use crate::pic::PicIRQ;

verus! {

broadcast use vstd::std_specs::btree::group_btree_axioms;

/// Capacity of the ready queue of `Executor::new`.
pub const READY_CAPACITY: usize = 100;

/// Capacity of the event queue of `Executor::new`.
pub const SCANCODE_CAPACITY: usize = 100;

/// The processor as the scheduler sees it: the interrupt flag, whether it is
/// halted, the keyboard interrupts held back while masked (with the scancode
/// each carries), and the vectors acknowledged to the interrupt controller.
struct Cpu {
    interrupts_enabled: bool,
    halted: bool,
    pending: Vec<u8>,
    acknowledged: Vec<u8>,
}

/// The ids a drain pass advances, in order: it pops every id of `ready`,
/// skips those without a live task, and retires a task that finishes.
pub open spec fn polled_ids(ready: Seq<u64>, live: Set<u64>, finishing: Set<u64>) -> Seq<u64>
    decreases ready.len(),
{
    if ready.len() == 0 {
        Seq::empty()
    } else {
        let id = ready[0];
        if live.contains(id) {
            let rest = if finishing.contains(id) {
                live.remove(id)
            } else {
                live
            };
            seq![id] + polled_ids(ready.drop_first(), rest, finishing)
        } else {
            polled_ids(ready.drop_first(), live, finishing)
        }
    }
}

/// The last id of `trace` whose task does not finish, if any.
pub open spec fn last_waiting(trace: Seq<u64>, finishing: Set<u64>) -> Option<u64>
    decreases trace.len(),
{
    if trace.len() == 0 {
        None
    } else if !finishing.contains(trace.last()) {
        Some(trace.last())
    } else {
        last_waiting(trace.drop_last(), finishing)
    }
}

/// The first id of `trace` whose task does not finish, if any: the task
/// that meets the scancodes queued when the pass began.
pub open spec fn first_waiting(trace: Seq<u64>, finishing: Set<u64>) -> Option<u64>
    decreases trace.len(),
{
    if trace.len() == 0 {
        None
    } else {
        match first_waiting(trace.drop_last(), finishing) {
            Some(id) => Some(id),
            None => if finishing.contains(trace.last()) {
                None
            } else {
                Some(trace.last())
            },
        }
    }
}

/// What a drain pass that advanced `trace` emits, given the tasks and the
/// queued scancodes at its start: a greeting for each finishing task, and the
/// keys that the first waiting task decodes from the queued scancodes; a
/// waiting task advanced later finds the queue empty and emits nothing.
pub open spec fn drain_output(
    trace: Seq<u64>,
    finishing: Set<u64>,
    tasks: Map<u64, Task>,
    items: Seq<u8>,
) -> Seq<Output>
    decreases trace.len(),
{
    if trace.len() == 0 {
        Seq::empty()
    } else {
        let prev = trace.drop_last();
        let id = trace.last();
        drain_output(prev, finishing, tasks, items) + if finishing.contains(id) {
            seq![Output::Greeting]
        } else if first_waiting(prev, finishing) is None {
            keys_output(tasks[id].fed(), items)
        } else {
            Seq::empty()
        }
    }
}

/// Publishing one scancode: the new queue state, the ids woken and the
/// diagnostics emitted.
pub open spec fn publish_effect(v: ScancodeView, code: u8) -> (ScancodeView, Seq<u64>, Seq<Output>) {
    let (w, r) = v.published(code);
    match r {
        Publish::Queued(Some(h)) => (w, seq![h.task_id], Seq::empty()),
        Publish::Queued(None) => (w, Seq::empty(), Seq::empty()),
        Publish::Dropped => (w, Seq::empty(), seq![Output::Dropped(code)]),
    }
}

/// Publishing each of `codes` in order.
pub open spec fn deliver_all(v: ScancodeView, codes: Seq<u8>) -> (ScancodeView, Seq<u64>, Seq<Output>)
    decreases codes.len(),
{
    if codes.len() == 0 {
        (v, Seq::empty(), Seq::empty())
    } else {
        let (v1, w1, o1) = deliver_all(v, codes.drop_last());
        let (v2, w2, o2) = publish_effect(v1, codes.last());
        (v2, w1 + w2, o1 + o2)
    }
}

pub struct Executor {
    tasks: BTreeMap<u64, Task>,
    wakers: BTreeMap<u64, WakeHandle>,
    ready: ArrayQueue<u64>,
    scancodes: ScancodeQueue,
    output: Vec<Output>,
    cpu: Cpu,
}

impl Executor {
    /// The task table, by id.
    pub closed spec fn task_map(&self) -> Map<u64, Task> {
        self.tasks@
    }

    /// The wake-handle cache, by id.
    pub closed spec fn waker_map(&self) -> Map<u64, WakeHandle> {
        self.wakers@
    }

    /// The ready queue, oldest first.
    pub closed spec fn ready_ids(&self) -> Seq<u64> {
        ready_items(self.ready)
    }

    pub closed spec fn ready_limit(&self) -> nat {
        ready_capacity(self.ready)
    }

    pub closed spec fn scancode_view(&self) -> ScancodeView {
        self.scancodes@
    }

    /// Everything handed to the output sink so far.
    pub closed spec fn outputs(&self) -> Seq<Output> {
        self.output@
    }

    pub closed spec fn interrupts_enabled(&self) -> bool {
        self.cpu.interrupts_enabled
    }

    pub closed spec fn halted(&self) -> bool {
        self.cpu.halted
    }

    pub closed spec fn pending(&self) -> Seq<u8> {
        self.cpu.pending@
    }

    pub closed spec fn acknowledged(&self) -> Seq<u8> {
        self.cpu.acknowledged@
    }

    /// Ids of the live tasks that finish on their next advance.
    pub open spec fn finishing(&self) -> Set<u64> {
        Set::new(|id: u64| self.task_map().contains_key(id) && self.task_map()[id].finishes())
    }

    pub open spec fn wf(&self) -> bool {
        &&& 0 < self.ready_limit()
        &&& self.ready_ids().len() <= self.ready_limit()
        &&& self.scancode_view().wf()
        &&& forall|id: u64| #[trigger]
            self.task_map().contains_key(id) ==> self.task_map()[id].spec_id().0 == id
        &&& forall|id: u64| #[trigger]
            self.waker_map().contains_key(id) ==> self.task_map().contains_key(id)
                && self.waker_map()[id].task_id == id
        &&& self.interrupts_enabled() ==> self.pending().len() == 0
    }

    /// The ready queue has room for every id that publishing `codes` wakes.
    pub open spec fn room_for(&self, codes: Seq<u8>) -> bool {
        self.ready_ids().len() + deliver_all(self.scancode_view(), codes).1.len()
            <= self.ready_limit()
    }

    /// The processor state and the output are as in `other`.
    pub open spec fn same_machine(&self, other: &Self) -> bool {
        &&& self.interrupts_enabled() == other.interrupts_enabled()
        &&& self.halted() == other.halted()
        &&& self.pending() == other.pending()
        &&& self.acknowledged() == other.acknowledged()
        &&& self.ready_limit() == other.ready_limit()
    }

    /// `self` is `old` after `spawn(task)`.
    pub open spec fn spawned_from(&self, old: &Self, task: Task) -> bool {
        &&& self.wf()
        &&& self.task_map() == old.task_map().insert(task.spec_id().0, task)
        &&& self.ready_ids() == old.ready_ids().push(task.spec_id().0)
        &&& self.waker_map() == old.waker_map()
        &&& self.scancode_view() == old.scancode_view()
        &&& self.outputs() == old.outputs()
        &&& self.same_machine(old)
    }

    /// `self` is `old` after `wake(h)`.
    pub open spec fn woken_from(&self, old: &Self, h: WakeHandle) -> bool {
        &&& self.wf()
        &&& self.ready_ids() == old.ready_ids().push(h.task_id)
        &&& self.task_map() == old.task_map()
        &&& self.waker_map() == old.waker_map()
        &&& self.scancode_view() == old.scancode_view()
        &&& self.outputs() == old.outputs()
        &&& self.same_machine(old)
    }

    /// `self` is `old` after `interrupt(code)`.
    pub open spec fn interrupted_from(&self, old: &Self, code: u8) -> bool {
        &&& self.wf()
        &&& old.interrupts_enabled() ==> {
            &&& self.serviced(old, seq![code])
            &&& self.interrupts_enabled()
            &&& !self.halted()
            &&& self.pending() == old.pending()
        }
        &&& !old.interrupts_enabled() ==> {
            &&& self.pending() == old.pending().push(code)
            &&& self.scancode_view() == old.scancode_view()
            &&& self.ready_ids() == old.ready_ids()
            &&& self.outputs() == old.outputs()
            &&& self.task_map() == old.task_map()
            &&& self.waker_map() == old.waker_map()
            &&& !self.interrupts_enabled()
            &&& self.halted() == old.halted()
            &&& self.acknowledged() == old.acknowledged()
            &&& self.ready_limit() == old.ready_limit()
        }
    }

    /// `self` is `old` after `enter_idle()`.
    pub open spec fn idle_entered_from(&self, old: &Self) -> bool {
        &&& self.wf()
        &&& !self.interrupts_enabled()
        &&& self.halted() == old.halted()
        &&& self.pending() == old.pending()
        &&& self.acknowledged() == old.acknowledged()
        &&& self.scancode_view() == old.scancode_view()
        &&& self.ready_ids() == old.ready_ids()
        &&& self.ready_limit() == old.ready_limit()
        &&& self.outputs() == old.outputs()
        &&& self.task_map() == old.task_map()
        &&& self.waker_map() == old.waker_map()
    }

    /// `self` is `old` after `finish_idle()`.
    pub open spec fn idle_finished_from(&self, old: &Self) -> bool {
        &&& self.wf()
        &&& self.interrupts_enabled()
        &&& self.pending() == Seq::<u8>::empty()
        &&& self.halted() == (old.ready_ids().len() == 0 && old.pending().len() == 0)
        &&& self.serviced(old, old.pending())
    }

    /// An executor with ready queue and event queue of the given capacities,
    /// no task, interrupts enabled.
    pub fn with_capacity(ready_capacity: usize, scancode_capacity: usize) -> (e: Executor)
        requires
            0 < ready_capacity <= MAX_QUEUE_CAPACITY,
            0 < scancode_capacity <= MAX_QUEUE_CAPACITY,
        ensures
            e.wf(),
            e.task_map() == Map::<u64, Task>::empty(),
            e.waker_map() == Map::<u64, WakeHandle>::empty(),
            e.ready_ids() == Seq::<u64>::empty(),
            e.ready_limit() == ready_capacity as nat,
            e.scancode_view() == (ScancodeView {
                items: Seq::empty(),
                capacity: scancode_capacity as nat,
                waiter: None,
            }),
            e.outputs() == Seq::<Output>::empty(),
            e.interrupts_enabled(),
            !e.halted(),
            e.pending() == Seq::<u8>::empty(),
            e.acknowledged() == Seq::<u8>::empty(),
    {
        Executor {
            tasks: BTreeMap::new(),
            wakers: BTreeMap::new(),
            ready: new_ready_queue(ready_capacity),
            scancodes: ScancodeQueue::new(scancode_capacity),
            output: Vec::new(),
            cpu: Cpu {
                interrupts_enabled: true,
                halted: false,
                pending: Vec::new(),
                acknowledged: Vec::new(),
            },
        }
    }

    pub fn new() -> (e: Executor)
        ensures
            e.wf(),
            e.task_map() == Map::<u64, Task>::empty(),
            e.waker_map() == Map::<u64, WakeHandle>::empty(),
            e.ready_ids() == Seq::<u64>::empty(),
            e.ready_limit() == READY_CAPACITY as nat,
            e.scancode_view() == (ScancodeView {
                items: Seq::empty(),
                capacity: SCANCODE_CAPACITY as nat,
                waiter: None,
            }),
            e.outputs() == Seq::<Output>::empty(),
            e.interrupts_enabled(),
            !e.halted(),
            e.pending() == Seq::<u8>::empty(),
            e.acknowledged() == Seq::<u8>::empty(),
    {
        Executor::with_capacity(READY_CAPACITY, SCANCODE_CAPACITY)
    }

    /// Whether another id fits in the ready queue.
    pub fn has_room(&self) -> (r: bool)
        requires
            self.wf(),
        ensures
            r == (self.ready_ids().len() < self.ready_limit()),
    {
        ready_len(&self.ready) < ready_cap(&self.ready)
    }

    /// Everything handed to the output sink so far.
    pub fn output(&self) -> (r: &Vec<Output>)
        ensures
            r@ == self.outputs(),
    {
        &self.output
    }

    pub fn scancodes(&self) -> (r: &ScancodeQueue)
        ensures
            r@ == self.scancode_view(),
    {
        &self.scancodes
    }

    pub fn ready_count(&self) -> (r: usize)
        ensures
            r as nat == self.ready_ids().len(),
    {
        ready_len(&self.ready)
    }

    pub fn is_halted(&self) -> (r: bool)
        ensures
            r == self.halted(),
    {
        self.cpu.halted
    }

    pub fn interrupts_on(&self) -> (r: bool)
        ensures
            r == self.interrupts_enabled(),
    {
        self.cpu.interrupts_enabled
    }

    pub fn pending_count(&self) -> (r: usize)
        ensures
            r as nat == self.pending().len(),
    {
        self.cpu.pending.len()
    }

    /// Vectors acknowledged to the interrupt controller, in order.
    pub fn acknowledged_vectors(&self) -> (r: &Vec<u8>)
        ensures
            r@ == self.acknowledged(),
    {
        &self.cpu.acknowledged
    }

    /// Whether a wake handle is cached for the task.
    pub fn has_waker(&self, id: u64) -> (r: bool)
        ensures
            r == self.waker_map().contains_key(id),
    {
        self.wakers.contains_key(&id)
    }

    /// Whether `publish(code)` may be called: it wakes a waiting task only
    /// when the scancode is queued, and that wake needs room in the ready
    /// queue.
    pub fn can_publish(&self, code: u8) -> (r: bool)
        requires
            self.wf(),
        ensures
            r == self.room_for_publish(code),
    {
        let wakes = self.scancodes.waiter().is_some() && self.scancodes.len()
            < self.scancodes.capacity();
        if wakes {
            self.has_room()
        } else {
            true
        }
    }

    pub fn contains_task(&self, id: u64) -> (r: bool)
        ensures
            r == self.task_map().contains_key(id),
    {
        self.tasks.contains_key(&id)
    }

    /// Adds the task to the table and marks it ready.
    pub fn spawn(&mut self, task: Task)
        requires
            old(self).wf(),
            !old(self).task_map().contains_key(task.spec_id().0),
            old(self).ready_ids().len() < old(self).ready_limit(),
        ensures
            final(self).spawned_from(old(self), task),
    {
        let id = task.id().as_u64();
        self.tasks.insert(id, task);
        let _ = ready_push(&mut self.ready, id);
        assert(self.waker_map() == old(self).waker_map());
        assert(self.task_map() == old(self).task_map().insert(id, task));
    }

    /// What a wake handle does: marks its task ready again.
    pub fn wake(&mut self, h: WakeHandle)
        requires
            old(self).wf(),
            old(self).ready_ids().len() < old(self).ready_limit(),
        ensures
            final(self).woken_from(old(self), h),
    {
        let _ = ready_push(&mut self.ready, h.task_id);
        assert(self.waker_map() == old(self).waker_map());
        assert(self.task_map() == old(self).task_map());
    }

    /// The ready queue has room for the id that publishing `code` wakes.
    pub open spec fn room_for_publish(&self, code: u8) -> bool {
        self.ready_ids().len() + publish_effect(self.scancode_view(), code).1.len()
            <= self.ready_limit()
    }

    /// `self` is `old` after the keyboard interrupt handler ran once for each
    /// of `codes`: each scancode published, each interrupt acknowledged.
    pub open spec fn serviced(&self, old: &Self, codes: Seq<u8>) -> bool {
        let (v, w, o) = deliver_all(old.scancode_view(), codes);
        &&& self.scancode_view() == v
        &&& self.ready_ids() == old.ready_ids() + w
        &&& self.outputs() == old.outputs() + o
        &&& self.acknowledged() == old.acknowledged() + Seq::new(
            codes.len(),
            |i: int| PicIRQ::Keyboard.vector(),
        )
        &&& self.task_map() == old.task_map()
        &&& self.waker_map() == old.waker_map()
        &&& self.ready_limit() == old.ready_limit()
    }

    /// Interrupt side: queues the scancode and wakes the task waiting on the
    /// event queue; a full queue drops the scancode and emits a diagnostic.
    pub fn publish(&mut self, code: u8) -> (r: Publish)
        requires
            old(self).wf(),
            old(self).room_for_publish(code),
        ensures
            final(self).wf(),
            r == old(self).scancode_view().published(code).1,
            final(self).scancode_view() == publish_effect(old(self).scancode_view(), code).0,
            final(self).ready_ids() == old(self).ready_ids() + publish_effect(
                old(self).scancode_view(),
                code,
            ).1,
            final(self).outputs() == old(self).outputs() + publish_effect(
                old(self).scancode_view(),
                code,
            ).2,
            final(self).task_map() == old(self).task_map(),
            final(self).waker_map() == old(self).waker_map(),
            final(self).same_machine(old(self)),
    {
        let r = self.scancodes.publish(code);
        match r {
            Publish::Queued(Some(h)) => {
                let _ = ready_push(&mut self.ready, h.task_id);
                assert(self.ready_ids() =~= old(self).ready_ids() + seq![h.task_id]);
            },
            Publish::Queued(None) => {
                assert(self.ready_ids() =~= old(self).ready_ids() + Seq::<u64>::empty());
            },
            Publish::Dropped => {
                self.output.push(Output::Dropped(code));
                assert(self.outputs() =~= old(self).outputs() + seq![Output::Dropped(code)]);
            },
        }
        assert(self.waker_map() == old(self).waker_map());
        assert(self.task_map() == old(self).task_map());
        assert(self.outputs() =~= old(self).outputs() + publish_effect(
            old(self).scancode_view(),
            code,
        ).2);
        r
    }

    /// The keyboard interrupt handler: publishes the scancode read from the
    /// controller's data port, then acknowledges the interrupt.
    fn keyboard_handler(&mut self, code: u8)
        requires
            old(self).wf(),
            old(self).room_for_publish(code),
        ensures
            final(self).wf(),
            final(self).scancode_view() == publish_effect(old(self).scancode_view(), code).0,
            final(self).ready_ids() == old(self).ready_ids() + publish_effect(
                old(self).scancode_view(),
                code,
            ).1,
            final(self).outputs() == old(self).outputs() + publish_effect(
                old(self).scancode_view(),
                code,
            ).2,
            final(self).acknowledged() == old(self).acknowledged().push(PicIRQ::Keyboard.vector()),
            final(self).task_map() == old(self).task_map(),
            final(self).waker_map() == old(self).waker_map(),
            final(self).interrupts_enabled() == old(self).interrupts_enabled(),
            final(self).halted() == old(self).halted(),
            final(self).pending() == old(self).pending(),
            final(self).ready_limit() == old(self).ready_limit(),
    {
        self.publish(code);
        self.cpu.acknowledged.push(PicIRQ::Keyboard.as_u8());
        assert(self.waker_map() == old(self).waker_map());
        assert(self.task_map() == old(self).task_map());
    }

    /// A keyboard interrupt carrying `code`. With interrupts enabled the
    /// handler runs at once and a halted processor resumes; while they are
    /// masked the interrupt is held back until they are enabled again.
    pub fn interrupt(&mut self, code: u8)
        requires
            old(self).wf(),
            old(self).interrupts_enabled() ==> old(self).room_for_publish(code),
        ensures
            final(self).interrupted_from(old(self), code),
    {
        if self.cpu.interrupts_enabled {
            self.keyboard_handler(code);
            self.cpu.halted = false;
            proof {
                lemma_deliver_step(old(self).scancode_view(), seq![code], 0);
                assert(seq![code].subrange(0, 1) =~= seq![code]);
                assert(seq![code].subrange(0, 0) =~= Seq::<u8>::empty());
                assert(self.acknowledged() =~= old(self).acknowledged() + Seq::new(
                    1,
                    |i: int| PicIRQ::Keyboard.vector(),
                ));
                let e = publish_effect(old(self).scancode_view(), code);
                assert(Seq::<u64>::empty() + e.1 =~= e.1);
                assert(Seq::<Output>::empty() + e.2 =~= e.2);
            }
        } else {
            self.cpu.pending.push(code);
        }
        assert(self.waker_map() == old(self).waker_map());
        assert(self.task_map() == old(self).task_map());
    }

    /// First step of the idle phase: masks interrupts.
    pub fn enter_idle(&mut self)
        requires
            old(self).wf(),
        ensures
            final(self).idle_entered_from(old(self)),
    {
        self.cpu.interrupts_enabled = false;
        assert(self.waker_map() == old(self).waker_map());
        assert(self.task_map() == old(self).task_map());
    }

    /// Second step of the idle phase, with interrupts masked: if the ready
    /// queue is still empty, enables interrupts and halts in one step, so that
    /// an interrupt held back in the meantime wakes the processor at once;
    /// otherwise only enables them. Held-back interrupts are then serviced.
    pub fn finish_idle(&mut self)
        requires
            old(self).wf(),
            !old(self).interrupts_enabled(),
            old(self).room_for(old(self).pending()),
        ensures
            final(self).idle_finished_from(old(self)),
    {
        let mut held: Vec<u8> = Vec::new();
        std::mem::swap(&mut held, &mut self.cpu.pending);
        if ready_is_empty(&self.ready) {
            self.cpu.interrupts_enabled = true;
            self.cpu.halted = held.len() == 0;
        } else {
            self.cpu.interrupts_enabled = true;
            self.cpu.halted = false;
        }
        let ghost halted = self.cpu.halted;
        let ghost v0 = old(self).scancode_view();
        proof {
            assert(held@.subrange(0, 0) =~= Seq::<u8>::empty());
            assert(self.ready_ids() =~= old(self).ready_ids() + Seq::<u64>::empty());
            assert(self.outputs() =~= old(self).outputs() + Seq::<Output>::empty());
            assert(self.acknowledged() =~= old(self).acknowledged() + Seq::new(
                0,
                |i: int| PicIRQ::Keyboard.vector(),
            ));
            assert(self.waker_map() == old(self).waker_map());
            assert(self.task_map() == old(self).task_map());
        }
        let mut i: usize = 0;
        while i < held.len()
            invariant
                self.wf(),
                held@ == old(self).pending(),
                i <= held@.len(),
                self.interrupts_enabled(),
                self.pending() == Seq::<u8>::empty(),
                self.halted() == halted,
                v0 == old(self).scancode_view(),
                old(self).ready_ids().len() + deliver_all(v0, held@).1.len()
                    <= old(self).ready_limit(),
                self.serviced(old(self), held@.subrange(0, i as int)),
            decreases held@.len() - i,
        {
            let code = held[i];
            proof {
                lemma_deliver_step(v0, held@, i as int);
                lemma_deliver_grows(v0, held@, i as int + 1);
            }
            self.keyboard_handler(code);
            proof {
                let d = deliver_all(v0, held@.subrange(0, i as int));
                let e = publish_effect(d.0, code);
                assert(self.ready_ids() =~= old(self).ready_ids() + (d.1 + e.1));
                assert(self.outputs() =~= old(self).outputs() + (d.2 + e.2));
                assert(self.acknowledged() =~= old(self).acknowledged() + Seq::new(
                    (i + 1) as nat,
                    |j: int| PicIRQ::Keyboard.vector(),
                ));
            }
            i = i + 1;
        }
        proof {
            assert(held@.subrange(0, held@.len() as int) =~= held@);
        }
    }

    /// The idle phase: masks interrupts, looks at the ready queue again, and
    /// halts only if it is still empty, by enabling interrupts and halting in
    /// one step (`finish_idle`), never by enabling and then halting apart.
    pub fn sleep_if_idle(&mut self)
        requires
            old(self).wf(),
            old(self).interrupts_enabled(),
        ensures
            exists|masked: Executor|
                #![trigger masked.idle_entered_from(old(self))]
                masked.idle_entered_from(old(self)) && final(self).idle_finished_from(&masked),
            final(self).wf(),
            final(self).interrupts_enabled(),
            final(self).halted() == (old(self).ready_ids().len() == 0),
            final(self).pending() == old(self).pending(),
            final(self).acknowledged() == old(self).acknowledged(),
            final(self).scancode_view() == old(self).scancode_view(),
            final(self).ready_ids() == old(self).ready_ids(),
            final(self).ready_limit() == old(self).ready_limit(),
            final(self).outputs() == old(self).outputs(),
            final(self).task_map() == old(self).task_map(),
            final(self).waker_map() == old(self).waker_map(),
    {
        self.enter_idle();
        let ghost masked = *self;
        proof {
            assert(deliver_all(self.scancode_view(), self.pending()).1 =~= Seq::<u64>::empty());
        }
        self.finish_idle();
        proof {
            assert(masked.idle_entered_from(old(self)) && self.idle_finished_from(&masked));
            assert(self.ready_ids() =~= old(self).ready_ids());
            assert(self.outputs() =~= old(self).outputs());
            assert(self.acknowledged() =~= old(self).acknowledged());
        }
    }

    /// `self` is `old` after a drain pass that advanced the tasks of `trace`,
    /// in that order: every id of the ready queue was taken, ids without a
    /// live task were skipped, a task that finished left the table and the
    /// wake-handle cache, and a task that waits kept its entry and its cached
    /// handle.
    pub open spec fn drained_from(&self, old: &Self, trace: Seq<u64>) -> bool {
        let fin = old.finishing();
        let ready = old.ready_ids();
        let retired = Set::new(|id: u64| ready.contains(id) && fin.contains(id));
        &&& self.wf()
        &&& self.ready_ids() == Seq::<u64>::empty()
        &&& self.ready_limit() == old.ready_limit()
        &&& trace == polled_ids(ready, old.task_map().dom(), fin)
        &&& self.task_map().dom() == old.task_map().dom().difference(retired)
        &&& forall|id: u64| #[trigger]
            self.task_map().contains_key(id) ==> self.task_map()[id].finishes()
                == old.task_map()[id].finishes()
        &&& forall|id: u64| #[trigger]
            self.task_map().contains_key(id) && !ready.contains(id) ==> self.task_map()[id]
                == old.task_map()[id]
        &&& forall|id: u64| #[trigger]
            self.waker_map().contains_key(id) <==> self.task_map().contains_key(id) && (
            old.waker_map().contains_key(id) || ready.contains(id))
        &&& match last_waiting(trace, fin) {
            Some(id) => self.scancode_view() == old.scancode_view().drained(
                WakeHandle { task_id: id },
            ),
            None => self.scancode_view() == old.scancode_view(),
        }
        &&& self.outputs() == old.outputs() + drain_output(
            trace,
            fin,
            old.task_map(),
            old.scancode_view().items,
        )
        &&& forall|id: u64| #[trigger]
            self.task_map().contains_key(id) ==> self.task_map()[id].fed() == old.task_map()[id].fed()
                + if first_waiting(trace, fin) == Some(id) {
                old.scancode_view().items
            } else {
                Seq::<u8>::empty()
            }
    }

    /// The drain phase: advances the task of each ready id until the ready
    /// queue is empty, and returns the ids advanced, in order. An id queued
    /// twice advances a waiting task twice, once per copy; a finished task's
    /// later copies are skipped.
    pub fn run_ready_tasks(&mut self) -> (trace: Vec<u64>)
        requires
            old(self).wf(),
        ensures
            final(self).drained_from(old(self), trace@),
            final(self).interrupts_enabled() == old(self).interrupts_enabled(),
            final(self).halted() == old(self).halted(),
            final(self).pending() == old(self).pending(),
            final(self).acknowledged() == old(self).acknowledged(),
    {
        let ghost fin = old(self).finishing();
        let ghost ready0 = old(self).ready_ids();
        let ghost live0 = old(self).task_map().dom();
        let ghost mut taken: Seq<u64> = Seq::empty();
        let mut trace: Vec<u64> = Vec::new();
        proof {
            assert(ready0 =~= taken + self.ready_ids());
            assert(live0 =~= live0.difference(
                Set::new(|id: u64| taken.contains(id) && fin.contains(id)),
            ));
            assert(trace@ + polled_ids(self.ready_ids(), live0, fin) =~= polled_ids(
                ready0,
                live0,
                fin,
            ));
            assert(self.outputs() =~= old(self).outputs() + Seq::<Output>::empty());
        }
        while !ready_is_empty(&self.ready)
            invariant
                self.wf(),
                fin == old(self).finishing(),
                ready0 == old(self).ready_ids(),
                live0 == old(self).task_map().dom(),
                self.ready_limit() == old(self).ready_limit(),
                ready0 == taken + self.ready_ids(),
                trace@ + polled_ids(self.ready_ids(), self.task_map().dom(), fin) == polled_ids(
                    ready0,
                    live0,
                    fin,
                ),
                self.task_map().dom() == live0.difference(
                    Set::new(|id: u64| taken.contains(id) && fin.contains(id)),
                ),
                forall|id: u64| #[trigger]
                    self.task_map().contains_key(id) ==> self.task_map()[id].finishes()
                        == old(self).task_map()[id].finishes(),
                forall|id: u64| #[trigger]
                    self.task_map().contains_key(id) && !taken.contains(id) ==> self.task_map()[id]
                        == old(self).task_map()[id],
                forall|id: u64| #[trigger]
                    self.waker_map().contains_key(id) <==> self.task_map().contains_key(id) && (
                    old(self).waker_map().contains_key(id) || taken.contains(id)),
                match last_waiting(trace@, fin) {
                    Some(id) => self.scancode_view() == old(self).scancode_view().drained(
                        WakeHandle { task_id: id },
                    ),
                    None => self.scancode_view() == old(self).scancode_view(),
                },
                (first_waiting(trace@, fin) is None) == (last_waiting(trace@, fin) is None),
                self.outputs() == old(self).outputs() + drain_output(
                    trace@,
                    fin,
                    old(self).task_map(),
                    old(self).scancode_view().items,
                ),
                forall|id: u64| #[trigger]
                    self.task_map().contains_key(id) ==> self.task_map()[id].fed() == old(
                        self,
                    ).task_map()[id].fed() + if first_waiting(trace@, fin) == Some(id) {
                        old(self).scancode_view().items
                    } else {
                        Seq::<u8>::empty()
                    },
                self.interrupts_enabled() == old(self).interrupts_enabled(),
                self.halted() == old(self).halted(),
                self.pending() == old(self).pending(),
                self.acknowledged() == old(self).acknowledged(),
            decreases self.ready_ids().len(),
        {
            let ghost tm0 = self.task_map();
            let ghost wm0 = self.waker_map();
            let ghost sv0 = self.scancode_view();
            let ghost out0 = self.outputs();
            let ghost r0 = self.ready_ids();
            let ghost tr0 = trace@;
            let id = ready_pop(&mut self.ready).unwrap();
            let ghost taken1 = taken.push(id);
            proof {
                lemma_push_contains(taken, id);
                assert(r0 == seq![id] + self.ready_ids());
                assert(ready0 =~= taken1 + self.ready_ids());
            }
            match self.tasks.remove(&id) {
                None => {
                    proof {
                        assert(!tm0.dom().contains(id));
                        assert(self.task_map() =~= tm0);
                        assert(self.task_map().dom() =~= live0.difference(
                            Set::new(|x: u64| taken1.contains(x) && fin.contains(x)),
                        ));
                        assert(self.waker_map() == wm0);
                    }
                },
                Some(mut task) => {
                    proof {
                        assert(tm0.dom().contains(id));
                        assert(task == tm0[id]);
                        assert(self.task_map() == tm0.remove(id));
                    }
                    let waker = match self.wakers.get(&id) {
                        Some(w) => *w,
                        None => {
                            let w = WakeHandle::new(id);
                            self.wakers.insert(id, w);
                            w
                        },
                    };
                    proof {
                        assert(waker.task_id == id);
                        assert(self.waker_map() =~= wm0.insert(id, waker));
                    }
                    let progress = task.poll(&mut self.scancodes, &mut self.output, waker);
                    let ghost wm1 = self.waker_map();
                    match progress {
                        Progress::Completed => {
                            self.wakers.remove(&id);
                            proof {
                                assert(self.task_map() == tm0.remove(id));
                                assert(self.waker_map() == wm1.remove(id));
                            }
                        },
                        Progress::Suspended => {
                            self.tasks.insert(id, task);
                            proof {
                                assert(self.task_map() == tm0.remove(id).insert(id, task));
                                assert(self.waker_map() == wm1);
                            }
                        },
                    }
                    trace.push(id);
                    proof {
                        assert(fin.contains(id) == tm0[id].finishes());
                        lemma_last_waiting_push(tr0, id, fin);
                        assert(trace@ + polled_ids(self.ready_ids(), self.task_map().dom(), fin)
                            =~= tr0 + polled_ids(r0, tm0.dom(), fin));
                        assert(self.task_map().dom() =~= live0.difference(
                            Set::new(|x: u64| taken1.contains(x) && fin.contains(x)),
                        ));
                        let items0 = old(self).scancode_view().items;
                        let tasks0 = old(self).task_map();
                        lemma_first_waiting_push(tr0, id, fin);
                        lemma_drain_output_push(tr0, id, fin, tasks0, items0);
                        assert(tm0[id].fed() == tasks0[id].fed() + if first_waiting(tr0, fin) == Some(
                            id,
                        ) {
                            items0
                        } else {
                            Seq::<u8>::empty()
                        });
                        if !fin.contains(id) {
                            if first_waiting(tr0, fin) is None {
                                assert(sv0 == old(self).scancode_view());
                                assert(tm0[id].fed() =~= tasks0[id].fed());
                            } else {
                                assert(sv0.items =~= Seq::<u8>::empty());
                                assert(keys_output(tm0[id].fed(), sv0.items) =~= Seq::<Output>::empty());
                                assert(self.task_map()[id].fed() =~= tm0[id].fed());
                            }
                        }
                        assert(self.outputs() =~= old(self).outputs() + drain_output(
                            trace@,
                            fin,
                            tasks0,
                            items0,
                        ));
                    }
                },
            }
            proof {
                taken = taken1;
            }
        }
        proof {
            assert(self.ready_ids() =~= Seq::<u64>::empty());
            assert(taken =~= ready0);
            assert(Set::new(|x: u64| taken.contains(x) && fin.contains(x)) =~= Set::new(
                |x: u64| ready0.contains(x) && fin.contains(x),
            ));
            assert(trace@ =~= trace@ + polled_ids(self.ready_ids(), self.task_map().dom(), fin));
        }
        trace
    }

    /// Drives the scheduler until the processor halts: drains the ready
    /// queue, then runs the idle phase, which halts since nothing is ready.
    /// An interrupt resumes the processor; the caller then runs it again.
    pub fn run(&mut self) -> (trace: Vec<u64>)
        requires
            old(self).wf(),
            old(self).interrupts_enabled(),
        ensures
            final(self).drained_from(old(self), trace@),
            final(self).interrupts_enabled(),
            final(self).halted(),
            final(self).pending() == old(self).pending(),
            final(self).acknowledged() == old(self).acknowledged(),
    {
        let trace = self.run_ready_tasks();
        self.sleep_if_idle();
        trace
    }
}

proof fn lemma_push_contains<T>(s: Seq<T>, a: T)
    ensures
        forall|x: T| #[trigger] s.push(a).contains(x) <==> (s.contains(x) || x == a),
{
    assert forall|x: T| #[trigger] s.push(a).contains(x) implies (s.contains(x) || x == a) by {
        let k = choose|k: int| 0 <= k < s.push(a).len() && s.push(a)[k] == x;
        if k < s.len() {
            assert(s[k] == x);
        }
    }
    assert forall|x: T| (s.contains(x) || x == a) implies #[trigger] s.push(a).contains(x) by {
        if x == a {
            assert(s.push(a)[s.len() as int] == x);
        } else {
            let k = choose|k: int| 0 <= k < s.len() && s[k] == x;
            assert(s.push(a)[k] == x);
        }
    }
}

proof fn lemma_first_waiting_push(trace: Seq<u64>, id: u64, fin: Set<u64>)
    ensures
        first_waiting(trace.push(id), fin) == match first_waiting(trace, fin) {
            Some(x) => Some(x),
            None => if fin.contains(id) {
                None
            } else {
                Some(id)
            },
        },
{
    assert(trace.push(id).drop_last() =~= trace);
}

proof fn lemma_drain_output_push(
    trace: Seq<u64>,
    id: u64,
    fin: Set<u64>,
    tasks: Map<u64, Task>,
    items: Seq<u8>,
)
    ensures
        drain_output(trace.push(id), fin, tasks, items) == drain_output(trace, fin, tasks, items)
            + if fin.contains(id) {
            seq![Output::Greeting]
        } else if first_waiting(trace, fin) is None {
            keys_output(tasks[id].fed(), items)
        } else {
            Seq::empty()
        },
{
    assert(trace.push(id).drop_last() =~= trace);
}

proof fn lemma_last_waiting_push(trace: Seq<u64>, id: u64, fin: Set<u64>)
    ensures
        last_waiting(trace.push(id), fin) == if fin.contains(id) {
            last_waiting(trace, fin)
        } else {
            Some(id)
        },
{
    assert(trace.push(id).drop_last() =~= trace);
}

/// Publishing the first `i + 1` scancodes is publishing the first `i`, then
/// the next one.
pub proof fn lemma_deliver_step(v: ScancodeView, codes: Seq<u8>, i: int)
    requires
        0 <= i < codes.len(),
    ensures
        ({
            let d = deliver_all(v, codes.subrange(0, i));
            let e = publish_effect(d.0, codes[i]);
            deliver_all(v, codes.subrange(0, i + 1)) == (e.0, d.1 + e.1, d.2 + e.2)
        }),
{
    assert(codes.subrange(0, i + 1).drop_last() =~= codes.subrange(0, i));
}

/// Publishing more scancodes wakes no fewer ids.
pub proof fn lemma_deliver_grows(v: ScancodeView, codes: Seq<u8>, j: int)
    requires
        0 <= j <= codes.len(),
    ensures
        deliver_all(v, codes.subrange(0, j)).1.len() <= deliver_all(v, codes).1.len(),
    decreases codes.len(),
{
    if j == codes.len() {
        assert(codes.subrange(0, j) =~= codes);
    } else {
        lemma_deliver_grows(v, codes.drop_last(), j);
        assert(codes.drop_last().subrange(0, j) =~= codes.subrange(0, j));
    }
}

} // verus!
