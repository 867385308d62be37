//! Properties of the scheduler that span several operations, proved from the
//! operations' contracts.

use vstd::prelude::*;
use crate::executor::{Executor, polled_ids, deliver_all, drain_output, first_waiting};
use crate::keyboard::keys_output;
use crate::task::{Task, WakeHandle};

verus! {

broadcast use vstd::std_specs::btree::group_btree_axioms;

/// Every id a drain pass advances was in the ready queue and had a live task.
pub proof fn lemma_polled_were_ready_and_live(ready: Seq<u64>, live: Set<u64>, fin: Set<u64>, id: u64)
    requires
        polled_ids(ready, live, fin).contains(id),
    ensures
        ready.contains(id),
        live.contains(id),
    decreases ready.len(),
{
    let first = ready[0];
    let rest = if live.contains(first) && fin.contains(first) {
        live.remove(first)
    } else {
        live
    };
    if first == id {
        assert(ready[0] == id);
        if !live.contains(first) {
            lemma_polled_were_ready_and_live(ready.drop_first(), rest, fin, id);
        }
    } else {
        let p = polled_ids(ready.drop_first(), rest, fin);
        if live.contains(first) {
            let k = choose|k: int| 0 <= k < polled_ids(ready, live, fin).len() && polled_ids(
                ready,
                live,
                fin,
            )[k] == id;
            assert(p[k - 1] == id);
        }
        lemma_polled_were_ready_and_live(ready.drop_first(), rest, fin, id);
        let j = choose|j: int| 0 <= j < ready.drop_first().len() && ready.drop_first()[j] == id;
        assert(ready[j + 1] == id);
    }
}

/// The live set after a drain pass over `ready`: each finishing task met is
/// retired.
pub open spec fn live_after(ready: Seq<u64>, live: Set<u64>, fin: Set<u64>) -> Set<u64> {
    live.difference(Set::new(|x: u64| ready.contains(x) && fin.contains(x)))
}

/// A drain pass over `a + b` is one over `a`, then one over `b` with what is
/// left live.
pub proof fn lemma_polled_split(a: Seq<u64>, b: Seq<u64>, live: Set<u64>, fin: Set<u64>)
    ensures
        polled_ids(a + b, live, fin) == polled_ids(a, live, fin) + polled_ids(
            b,
            live_after(a, live, fin),
            fin,
        ),
    decreases a.len(),
{
    if a.len() == 0 {
        assert(a + b =~= b);
        assert(live_after(a, live, fin) =~= live);
        assert(polled_ids(a, live, fin) + polled_ids(b, live, fin) =~= polled_ids(b, live, fin));
    } else {
        let x = a[0];
        let rest = if live.contains(x) && fin.contains(x) {
            live.remove(x)
        } else {
            live
        };
        assert((a + b)[0] == x);
        assert((a + b).drop_first() =~= a.drop_first() + b);
        lemma_polled_split(a.drop_first(), b, rest, fin);
        assert forall|y: u64| #[trigger] a.contains(y) <==> (y == x || a.drop_first().contains(y)) by {
            if a.contains(y) && y != x {
                let k = choose|k: int| 0 <= k < a.len() && a[k] == y;
                assert(a.drop_first()[k - 1] == y);
            }
            if a.drop_first().contains(y) {
                let k = choose|k: int| 0 <= k < a.drop_first().len() && a.drop_first()[k] == y;
                assert(a[k + 1] == y);
            }
            if y == x {
                assert(a[0] == y);
            }
        }
        assert(live_after(a.drop_first(), rest, fin) =~= live_after(a, live, fin));
        if live.contains(x) {
            assert(polled_ids(a + b, live, fin) =~= polled_ids(a, live, fin) + polled_ids(
                b,
                live_after(a, live, fin),
                fin,
            ));
        }
    }
}

/// A task that finishes on its first advance, spawned and woken once more
/// before the next drain pass, is advanced exactly once by that pass, after
/// the ids that were ready before it, and leaves the table.
pub proof fn lemma_wake_before_poll(
    s0: Executor,
    task: Task,
    s1: Executor,
    s2: Executor,
    s3: Executor,
    trace: Seq<u64>,
)
    requires
        s0.wf(),
        !s0.task_map().contains_key(task.spec_id().0),
        !s0.ready_ids().contains(task.spec_id().0),
        task.finishes(),
        s1.spawned_from(&s0, task),
        s2.woken_from(&s1, WakeHandle { task_id: task.spec_id().0 }),
        s3.drained_from(&s2, trace),
    ensures
        trace.len() > 0,
        trace.last() == task.spec_id().0,
        !trace.drop_last().contains(task.spec_id().0),
        !s3.task_map().contains_key(task.spec_id().0),
        !s3.waker_map().contains_key(task.spec_id().0),
{
    reveal_with_fuel(polled_ids, 3);
    let id = task.spec_id().0;
    let live = s2.task_map().dom();
    let fin = s2.finishing();
    let r0 = s0.ready_ids();
    assert(s2.task_map()[id] == task);
    assert(fin.contains(id));
    assert(s2.ready_ids() =~= r0 + seq![id, id]);
    lemma_polled_split(r0, seq![id, id], live, fin);
    let after = live_after(r0, live, fin);
    assert(after.contains(id));
    assert(seq![id, id].drop_first() =~= seq![id]);
    assert(seq![id].drop_first() =~= Seq::<u64>::empty());
    assert(!after.remove(id).contains(id));
    assert(polled_ids(seq![id], after.remove(id), fin) =~= Seq::<u64>::empty());
    assert(polled_ids(seq![id, id], after, fin) =~= seq![id]);
    let p0 = polled_ids(r0, live, fin);
    assert(trace =~= p0.push(id));
    assert(trace.drop_last() =~= p0);
    if p0.contains(id) {
        lemma_polled_were_ready_and_live(r0, live, fin, id);
    }
    assert(s2.ready_ids().contains(id)) by {
        assert(s2.ready_ids()[r0.len() as int] == id);
    }
}

/// Once a task's advance completes, its id is neither in the table nor in the
/// wake-handle cache; a later wake of that id is discarded by the next drain
/// pass, which advances nothing for it.
pub proof fn lemma_completion_cleanup(
    s0: Executor,
    s1: Executor,
    trace: Seq<u64>,
    id: u64,
    s2: Executor,
    s3: Executor,
    trace2: Seq<u64>,
)
    requires
        s0.wf(),
        s1.drained_from(&s0, trace),
        trace.contains(id),
        s0.finishing().contains(id),
        s2.woken_from(&s1, WakeHandle { task_id: id }),
        s3.drained_from(&s2, trace2),
    ensures
        !s1.task_map().contains_key(id),
        !s1.waker_map().contains_key(id),
        !trace2.contains(id),
        !s3.task_map().contains_key(id),
        !s3.waker_map().contains_key(id),
{
    lemma_polled_were_ready_and_live(s0.ready_ids(), s0.task_map().dom(), s0.finishing(), id);
    assert(!s1.task_map().dom().contains(id));
    if trace2.contains(id) {
        lemma_polled_were_ready_and_live(s2.ready_ids(), s2.task_map().dom(), s2.finishing(), id);
    }
    assert(!s3.task_map().dom().contains(id));
}

/// With nothing ready and no interrupt held back, the idle phase halts the
/// processor.
pub proof fn lemma_idle_halts(s0: Executor, s1: Executor, s2: Executor)
    requires
        s0.wf(),
        s0.interrupts_enabled(),
        s0.ready_ids().len() == 0,
        s1.idle_entered_from(&s0),
        s2.idle_finished_from(&s1),
    ensures
        s2.halted(),
        s2.interrupts_enabled(),
{
}

/// A keyboard interrupt that arrives while the idle phase has interrupts
/// masked is serviced as the phase ends: the processor does not halt, the
/// next drain pass advances exactly the task that was waiting for input, and
/// that task decodes the queued scancodes, the new one last, and emits the keys
/// they give, once each.
pub proof fn lemma_idle_interrupt_resumes(
    s0: Executor,
    s1: Executor,
    code: u8,
    s2: Executor,
    s3: Executor,
    s4: Executor,
    trace: Seq<u64>,
    k: u64,
)
    requires
        s0.wf(),
        s0.interrupts_enabled(),
        s0.ready_ids().len() == 0,
        s0.scancode_view().waiter == Some(WakeHandle { task_id: k }),
        s0.scancode_view().items.len() < s0.scancode_view().capacity,
        s0.task_map().contains_key(k),
        !s0.finishing().contains(k),
        s1.idle_entered_from(&s0),
        s2.interrupted_from(&s1, code),
        s3.idle_finished_from(&s2),
        s4.drained_from(&s3, trace),
    ensures
        !s3.halted(),
        s3.scancode_view().items == s0.scancode_view().items.push(code),
        trace == seq![k],
        s4.outputs() == s3.outputs() + keys_output(
            s0.task_map()[k].fed(),
            s0.scancode_view().items.push(code),
        ),
        s4.task_map()[k].fed() == s0.task_map()[k].fed() + s0.scancode_view().items.push(code),
{
    reveal_with_fuel(polled_ids, 2);
    reveal_with_fuel(deliver_all, 2);
    assert(s2.pending() =~= seq![code]);
    assert(seq![code].drop_last() =~= Seq::<u8>::empty());
    assert(seq![code].last() == code);
    assert(s2.scancode_view() == s0.scancode_view());
    assert(deliver_all(s2.scancode_view(), seq![code]).1 =~= seq![k]);
    assert(s3.ready_ids() =~= seq![k]);
    assert(!s3.finishing().contains(k));
    assert(seq![k].drop_first() =~= Seq::<u64>::empty());
    assert(polled_ids(s3.ready_ids(), s3.task_map().dom(), s3.finishing()) =~= seq![k]);
    reveal_with_fuel(drain_output, 2);
    reveal_with_fuel(first_waiting, 2);
    assert(seq![k].drop_last() =~= Seq::<u64>::empty());
    assert(first_waiting(trace, s3.finishing()) == Some(k));
    assert(s4.task_map().contains_key(k));
    assert(drain_output(trace, s3.finishing(), s3.task_map(), s3.scancode_view().items)
        =~= keys_output(s0.task_map()[k].fed(), s0.scancode_view().items.push(code)));
}

} // verus!
