//! Tasks: an identity together with a resumable computation.

use vstd::prelude::*;
use crate::task_id::{TaskId, TaskIds};
use crate::scancode::ScancodeQueue;
use crate::keyboard::{KeyboardTask, keys_output};

verus! {

/// Resumes one task by putting its id back in the ready queue.
#[derive(Debug, Clone, Copy, PartialEq, Eq, Structural)]
pub struct WakeHandle {
    pub task_id: u64,
}

impl WakeHandle {
    pub fn new(task_id: u64) -> (h: WakeHandle)
        ensures
            h.task_id == task_id,
    {
        WakeHandle { task_id }
    }
}

/// What advancing a task reports.
#[derive(Debug, Clone, Copy, PartialEq, Eq, Structural)]
pub enum Progress {
    /// The task waits to be woken.
    Suspended,
    /// The task has finished; it is never advanced again.
    Completed,
}

/// What tasks and the interrupt bridge hand to the output sink. The sink
/// decides how each item is shown.
#[derive(Debug, Clone, PartialEq, Eq)]
pub enum Output {
    /// The start-up task announces that scheduling has begun.
    Greeting,
    /// A key that decoded to a character.
    Char(char),
    /// A key without a character, by the name of its key code.
    RawKey(String),
    /// Diagnostic: the event queue was full and this scancode was dropped.
    Dropped(u8),
}

/// The computations a task can run.
pub enum Work {
    /// Emits the greeting and finishes on its first advance.
    Greeting,
    /// Reads scancodes, decodes them and emits the keys; never finishes.
    Keyboard(KeyboardTask),
}

impl Work {
    /// The scancodes the computation has decoded so far.
    pub open spec fn fed(&self) -> Seq<u8> {
        match self {
            Work::Greeting => Seq::empty(),
            Work::Keyboard(k) => k.fed(),
        }
    }

    pub fn greeting() -> (w: Work)
        ensures
            w is Greeting,
    {
        Work::Greeting
    }

    pub fn keyboard() -> (w: Work)
        ensures
            w is Keyboard,
            w.fed() == Seq::<u8>::empty(),
    {
        Work::Keyboard(KeyboardTask::new())
    }
}

pub struct Task {
    id: TaskId,
    work: Work,
}

impl Task {
    pub closed spec fn spec_id(&self) -> TaskId {
        self.id
    }

    /// The task finishes on its first advance.
    pub closed spec fn finishes(&self) -> bool {
        self.work is Greeting
    }

    /// The scancodes the task has decoded so far.
    pub closed spec fn fed(&self) -> Seq<u8> {
        self.work.fed()
    }

    /// Wraps a computation with a fresh identity.
    pub fn new(ids: &mut TaskIds, work: Work) -> (t: Task)
        requires
            old(ids).next_value() < u64::MAX,
        ensures
            t.spec_id().0 == old(ids).next_value(),
            !old(ids).issued().contains(t.spec_id().0),
            final(ids).issued() == old(ids).issued().insert(t.spec_id().0),
            final(ids).next_value() == old(ids).next_value() + 1,
            t.finishes() == (work is Greeting),
            t.fed() == work.fed(),
    {
        let id = ids.next_id();
        Task { id, work }
    }

    pub fn id(&self) -> (r: TaskId)
        ensures
            r == self.spec_id(),
    {
        self.id
    }

    pub fn is_finishing(&self) -> (r: bool)
        ensures
            r == self.finishes(),
    {
        match self.work {
            Work::Greeting => true,
            Work::Keyboard(_) => false,
        }
    }

    /// Advances the computation until it finishes or waits. `waker` is the
    /// handle it registers when it waits for input.
    pub fn poll(&mut self, queue: &mut ScancodeQueue, out: &mut Vec<Output>, waker: WakeHandle) -> (r:
        Progress)
        requires
            old(queue)@.wf(),
        ensures
            final(self).spec_id() == old(self).spec_id(),
            final(self).finishes() == old(self).finishes(),
            old(self).finishes() ==> r == Progress::Completed && final(queue)@ == old(queue)@
                && final(out)@ == old(out)@.push(Output::Greeting),
            old(self).finishes() ==> final(self).fed() == old(self).fed(),
            !old(self).finishes() ==> r == Progress::Suspended && final(queue)@ == old(
                queue,
            )@.drained(waker) && final(self).fed() == old(self).fed() + old(queue)@.items
                && final(out)@ == old(out)@ + keys_output(old(self).fed(), old(queue)@.items),
    {
        match &mut self.work {
            Work::Greeting => {
                out.push(Output::Greeting);
                Progress::Completed
            },
            Work::Keyboard(k) => k.poll(queue, out, waker),
        }
    }
}

} // verus!
