//! Start-up of the scheduler.

use vstd::prelude::*;
use crate::executor::Executor;
use crate::task::{Task, Work, WakeHandle, Output};
use crate::task_id::TaskIds;

verus! {

broadcast use vstd::std_specs::btree::group_btree_axioms;

/// Starts scheduling: spawns the start-up task (id 0) and the keyboard task
/// (id 1) and drives the executor until the processor halts. By then the
/// greeting has been emitted, the start-up task has finished, and the keyboard
/// task waits for its first scancode. A keyboard interrupt resumes the
/// processor; the caller then runs the executor again.
pub fn run() -> (e: Executor)
    ensures
        e.wf(),
        e.halted(),
        e.interrupts_enabled(),
        e.outputs() == seq![Output::Greeting],
        e.task_map().dom() == set![1u64],
        !e.task_map()[1].finishes(),
        e.ready_ids() == Seq::<u64>::empty(),
        e.scancode_view().items == Seq::<u8>::empty(),
        e.scancode_view().waiter == Some(WakeHandle { task_id: 1 }),
{
    let mut ids = TaskIds::new();
    let mut executor = Executor::new();
    let first = Task::new(&mut ids, Work::greeting());
    executor.spawn(first);
    let keyboard = Task::new(&mut ids, Work::keyboard());
    executor.spawn(keyboard);
    let ghost s = executor;
    let trace = executor.run();
    proof {
        reveal_with_fuel(crate::executor::polled_ids, 3);
        reveal_with_fuel(crate::executor::last_waiting, 3);
        assert(s.ready_ids() =~= seq![0u64, 1u64]);
        assert(s.finishing().contains(0));
        assert(!s.finishing().contains(1));
        assert(s.ready_ids().drop_first() =~= seq![1u64]);
        assert(seq![1u64].drop_first() =~= Seq::<u64>::empty());
        assert(trace@ =~= seq![0u64, 1u64]);
        assert(seq![0u64, 1u64].drop_last() =~= seq![0u64]);
        assert(seq![0u64].drop_last() =~= Seq::<u64>::empty());
        assert(executor.task_map().dom() =~= set![1u64]);
        assert(executor.task_map().contains_key(1));
        reveal_with_fuel(crate::executor::drain_output, 3);
        reveal_with_fuel(crate::executor::first_waiting, 3);
        assert(s.scancode_view().items =~= Seq::<u8>::empty());
        assert(executor.outputs() =~= seq![Output::Greeting]);
    }
    executor
}

/// The kernel's entry point once memory and interrupts are set up.
pub fn kernel_main() -> (e: Executor)
    ensures
        e.wf(),
        e.halted(),
        e.interrupts_enabled(),
        e.outputs() == seq![Output::Greeting],
        e.task_map().dom() == set![1u64],
        !e.task_map()[1].finishes(),
        e.ready_ids() == Seq::<u64>::empty(),
        e.scancode_view().items == Seq::<u8>::empty(),
        e.scancode_view().waiter == Some(WakeHandle { task_id: 1 }),
{
    run()
}

} // verus!
