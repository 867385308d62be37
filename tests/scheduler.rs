use lnos::boot::{kernel_main, run};
use lnos::executor::Executor;
use lnos::pic::PicIRQ;
use lnos::scancode::Publish;
use lnos::task::{Output, Progress, Task, WakeHandle, Work};
use lnos::task_id::TaskIds;

fn greeting_task(ids: &mut TaskIds) -> Task {
    Task::new(ids, Work::greeting())
}

fn keyboard_task(ids: &mut TaskIds) -> Task {
    Task::new(ids, Work::keyboard())
}

#[test]
fn spawn_then_wake_before_poll_advances_once() {
    let mut ids = TaskIds::new();
    let mut ex = Executor::new();
    let task = greeting_task(&mut ids);
    let id = task.id().as_u64();
    ex.spawn(task);
    ex.wake(WakeHandle::new(id));
    assert_eq!(ex.ready_count(), 2);
    let trace = ex.run_ready_tasks();
    assert_eq!(trace, vec![id]);
    assert_eq!(ex.output(), &vec![Output::Greeting]);
    assert!(!ex.contains_task(id));
    assert_eq!(ex.ready_count(), 0);
}

#[test]
fn completed_task_is_cleaned_up_and_stale_wake_skipped() {
    let mut ids = TaskIds::new();
    let mut ex = Executor::new();
    let task = greeting_task(&mut ids);
    let id = task.id().as_u64();
    ex.spawn(task);
    let trace = ex.run_ready_tasks();
    assert_eq!(trace, vec![id]);
    assert!(!ex.contains_task(id));
    assert!(!ex.has_waker(id));
    ex.wake(WakeHandle::new(id));
    let trace2 = ex.run_ready_tasks();
    assert!(trace2.is_empty());
    assert!(!ex.contains_task(id));
    assert!(!ex.has_waker(id));
    assert_eq!(ex.output(), &vec![Output::Greeting]);
}

#[test]
fn waiting_task_keeps_entry_and_cached_waker() {
    let mut ids = TaskIds::new();
    let mut ex = Executor::new();
    let task = keyboard_task(&mut ids);
    let id = task.id().as_u64();
    ex.spawn(task);
    assert!(!ex.has_waker(id));
    let trace = ex.run_ready_tasks();
    assert_eq!(trace, vec![id]);
    assert!(ex.contains_task(id));
    assert!(ex.has_waker(id));
    assert_eq!(ex.scancodes().waiter(), Some(WakeHandle::new(id)));
    assert!(ex.output().is_empty());
}

#[test]
fn drain_polls_in_fifo_order() {
    let mut ids = TaskIds::new();
    let mut ex = Executor::new();
    let a = greeting_task(&mut ids);
    let b = keyboard_task(&mut ids);
    let c = greeting_task(&mut ids);
    let (ia, ib, ic) = (a.id().as_u64(), b.id().as_u64(), c.id().as_u64());
    ex.spawn(a);
    ex.spawn(b);
    ex.spawn(c);
    let trace = ex.run_ready_tasks();
    assert_eq!(trace, vec![ia, ib, ic]);
    assert!(!ex.contains_task(ia));
    assert!(ex.contains_task(ib));
    assert!(!ex.contains_task(ic));
    assert_eq!(ex.output(), &vec![Output::Greeting, Output::Greeting]);
}

#[test]
fn idle_phase_halts_when_nothing_ready() {
    let mut ex = Executor::new();
    assert!(ex.interrupts_on());
    ex.sleep_if_idle();
    assert!(ex.is_halted());
    assert!(ex.interrupts_on());
}

#[test]
fn idle_phase_does_not_halt_with_work_ready() {
    let mut ids = TaskIds::new();
    let mut ex = Executor::new();
    ex.spawn(greeting_task(&mut ids));
    ex.sleep_if_idle();
    assert!(!ex.is_halted());
    assert!(ex.interrupts_on());
}

#[test]
fn interrupt_in_masked_window_resumes_and_drains_one_task() {
    let mut ids = TaskIds::new();
    let mut ex = Executor::new();
    let kb = keyboard_task(&mut ids);
    let id = kb.id().as_u64();
    ex.spawn(kb);
    assert_eq!(ex.run_ready_tasks(), vec![id]);
    ex.enter_idle();
    assert!(!ex.interrupts_on());
    ex.interrupt(0x1E);
    assert_eq!(ex.pending_count(), 1);
    assert_eq!(ex.scancodes().len(), 0);
    ex.finish_idle();
    assert!(!ex.is_halted());
    assert!(ex.interrupts_on());
    assert_eq!(ex.pending_count(), 0);
    assert_eq!(ex.acknowledged_vectors(), &vec![33u8]);
    assert_eq!(ex.ready_count(), 1);
    let trace = ex.run_ready_tasks();
    assert_eq!(trace, vec![id]);
    assert_eq!(ex.output(), &vec![Output::Char('a')]);
}

#[test]
fn interrupt_while_halted_wakes_processor() {
    let mut ids = TaskIds::new();
    let mut ex = Executor::new();
    let kb = keyboard_task(&mut ids);
    ex.spawn(kb);
    ex.run();
    assert!(ex.is_halted());
    ex.interrupt(0x1E);
    assert!(!ex.is_halted());
    assert_eq!(ex.acknowledged_vectors(), &vec![PicIRQ::Keyboard.as_u8()]);
}

#[test]
fn keyboard_end_to_end_emits_a_once() {
    let mut ids = TaskIds::new();
    let mut ex = Executor::new();
    let kb = keyboard_task(&mut ids);
    let id = kb.id().as_u64();
    ex.spawn(kb);
    ex.run();
    assert_eq!(ex.publish(0x1E), Publish::Queued(Some(WakeHandle::new(id))));
    let trace = ex.run();
    assert_eq!(trace, vec![id]);
    assert_eq!(ex.output(), &vec![Output::Char('a')]);
    assert!(ex.is_halted());
}

#[test]
fn keyboard_release_and_raw_keys() {
    let mut ids = TaskIds::new();
    let mut ex = Executor::new();
    ex.spawn(keyboard_task(&mut ids));
    ex.run();
    // 'A' pressed, 'A' released, F1 pressed.
    ex.interrupt(0x1E);
    ex.interrupt(0x9E);
    ex.interrupt(0x3B);
    ex.run();
    assert_eq!(ex.output(), &vec![Output::Char('a'), Output::RawKey("F1".to_string())]);
}

#[test]
fn publish_without_waiter_queues_only() {
    let mut ex = Executor::new();
    assert_eq!(ex.publish(7), Publish::Queued(None));
    assert_eq!(ex.ready_count(), 0);
    assert_eq!(ex.scancodes().len(), 1);
}

#[test]
fn publish_into_full_queue_logs_diagnostic() {
    let mut ex = Executor::with_capacity(8, 4);
    for code in [1u8, 2, 3, 4] {
        assert_eq!(ex.publish(code), Publish::Queued(None));
    }
    assert_eq!(ex.publish(5), Publish::Dropped);
    assert_eq!(ex.output(), &vec![Output::Dropped(5)]);
    assert_eq!(ex.scancodes().len(), 4);
}

#[test]
fn ready_queue_room_is_reported() {
    let mut ids = TaskIds::new();
    let mut ex = Executor::with_capacity(1, 4);
    assert!(ex.has_room());
    ex.spawn(greeting_task(&mut ids));
    assert!(!ex.has_room());
}

#[test]
fn boot_run_leaves_keyboard_task_waiting() {
    let ex = run();
    assert!(ex.is_halted());
    assert_eq!(ex.output(), &vec![Output::Greeting]);
    assert!(!ex.contains_task(0));
    assert!(ex.contains_task(1));
    assert_eq!(ex.scancodes().waiter(), Some(WakeHandle::new(1)));
}

#[test]
fn kernel_main_boots_like_run() {
    let mut ex = kernel_main();
    assert_eq!(ex.output(), &vec![Output::Greeting]);
    ex.interrupt(0x1E);
    ex.run();
    assert_eq!(ex.output(), &vec![Output::Greeting, Output::Char('a')]);
}

#[test]
fn task_poll_reports_progress() {
    let mut ids = TaskIds::new();
    let mut queue = lnos::scancode::ScancodeQueue::new(4);
    let mut out = Vec::new();
    let mut g = greeting_task(&mut ids);
    assert!(g.is_finishing());
    assert_eq!(g.poll(&mut queue, &mut out, WakeHandle::new(0)), Progress::Completed);
    let mut k = keyboard_task(&mut ids);
    assert!(!k.is_finishing());
    assert_eq!(k.poll(&mut queue, &mut out, WakeHandle::new(1)), Progress::Suspended);
    assert_eq!(queue.waiter(), Some(WakeHandle::new(1)));
    assert_eq!(out, vec![Output::Greeting]);
}

#[test]
fn can_publish_needs_room_only_when_a_wake_follows() {
    let mut ids = TaskIds::new();
    let mut ex = Executor::with_capacity(1, 4);
    let kb = keyboard_task(&mut ids);
    ex.spawn(kb);
    ex.run_ready_tasks();
    assert!(ex.can_publish(1));
    ex.spawn(greeting_task(&mut ids));
    assert!(!ex.has_room());
    assert!(!ex.can_publish(1));
    let mut idle = Executor::with_capacity(1, 4);
    idle.spawn(greeting_task(&mut ids));
    assert!(idle.can_publish(1));
}

#[test]
fn waiting_task_woken_before_first_pass_advances_per_copy() {
    let mut ids = TaskIds::new();
    let mut ex = Executor::new();
    let kb = keyboard_task(&mut ids);
    let id = kb.id().as_u64();
    ex.spawn(kb);
    ex.wake(WakeHandle::new(id));
    let trace = ex.run_ready_tasks();
    assert_eq!(trace, vec![id, id]);
    assert!(ex.contains_task(id));
    assert!(ex.output().is_empty());
}

#[test]
fn queued_scancodes_decoded_once_each_in_one_pass() {
    let mut ids = TaskIds::new();
    let mut ex = Executor::new();
    ex.spawn(keyboard_task(&mut ids));
    // Left shift down, 'A' down, 'A' up, left shift up, 'B' down.
    for code in [0x2Au8, 0x1E, 0x9E, 0xAA, 0x30] {
        ex.publish(code);
    }
    let trace = ex.run();
    assert_eq!(trace.len(), 1);
    assert_eq!(ex.output(), &vec![Output::Char('A'), Output::Char('b')]);
    assert_eq!(ex.scancodes().len(), 0);
}
