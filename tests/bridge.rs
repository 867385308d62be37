use lnos::keyboard::{emit_key, Key, ScancodeStream, StreamPoll};
use lnos::pic::{PicIRQ, PIC_1_OFFSET, PIC_2_OFFSET};
use lnos::scancode::{Publish, ScancodeQueue};
use lnos::task::{Output, WakeHandle};
use lnos::task_id::TaskIds;

#[test]
fn task_ids_are_fresh_and_increasing() {
    let mut ids = TaskIds::new();
    assert!(ids.can_issue());
    let a = ids.next_id();
    let b = ids.next_id();
    let c = ids.next_id();
    assert_eq!(a.as_u64(), 0);
    assert_eq!(b.as_u64(), 1);
    assert_eq!(c.as_u64(), 2);
    assert_ne!(a, b);
}

#[test]
fn pic_irq_vectors() {
    assert_eq!(PIC_1_OFFSET, 32);
    assert_eq!(PIC_2_OFFSET, 40);
    assert_eq!(PicIRQ::Timer.as_u8(), 32);
    assert_eq!(PicIRQ::Keyboard.as_u8(), 33);
    assert_eq!(PicIRQ::Keyboard.as_usize(), 33usize);
}

#[test]
fn overflow_drops_fifth_and_keeps_fifo() {
    let mut q = ScancodeQueue::new(4);
    for code in [10u8, 11, 12, 13] {
        assert_eq!(q.publish(code), Publish::Queued(None));
    }
    assert_eq!(q.publish(14), Publish::Dropped);
    assert_eq!(q.len(), 4);
    assert_eq!(q.try_pop(), Some(10));
    assert_eq!(q.try_pop(), Some(11));
    assert_eq!(q.try_pop(), Some(12));
    assert_eq!(q.try_pop(), Some(13));
    assert_eq!(q.try_pop(), None);
}

#[test]
fn publish_takes_the_waiter() {
    let mut q = ScancodeQueue::new(4);
    q.register(WakeHandle::new(3));
    assert_eq!(q.publish(1), Publish::Queued(Some(WakeHandle::new(3))));
    assert_eq!(q.waiter(), None);
    assert_eq!(q.publish(2), Publish::Queued(None));
}

#[test]
fn later_registration_replaces_earlier() {
    let mut q = ScancodeQueue::new(4);
    q.register(WakeHandle::new(1));
    q.register(WakeHandle::new(2));
    assert_eq!(q.take_waiter(), Some(WakeHandle::new(2)));
    assert_eq!(q.take_waiter(), None);
}

#[test]
fn publish_between_check_and_registration_is_found() {
    let mut q = ScancodeQueue::new(4);
    assert_eq!(q.try_pop(), None);
    q.publish(0x1E);
    q.register(WakeHandle::new(5));
    assert_eq!(q.try_pop(), Some(0x1E));
}

#[test]
fn publish_between_registration_and_second_check_is_found() {
    let mut q = ScancodeQueue::new(4);
    assert_eq!(q.try_pop(), None);
    q.register(WakeHandle::new(5));
    assert_eq!(q.publish(0x1E), Publish::Queued(Some(WakeHandle::new(5))));
    assert_eq!(q.try_pop(), Some(0x1E));
}

#[test]
fn stream_fast_path_and_pending() {
    let mut q = ScancodeQueue::new(4);
    let mut s = ScancodeStream::new();
    q.publish(9);
    assert_eq!(s.poll_next(&mut q, WakeHandle::new(2)), StreamPoll::Ready(9));
    assert_eq!(q.waiter(), None);
    assert_eq!(s.poll_next(&mut q, WakeHandle::new(2)), StreamPoll::Pending);
    assert_eq!(q.waiter(), Some(WakeHandle::new(2)));
}

#[test]
fn emit_key_maps_keys_to_output() {
    let mut out = Vec::new();
    emit_key(&mut out, Some(Key::Unicode('x')));
    emit_key(&mut out, None);
    emit_key(&mut out, Some(Key::Raw("Escape".to_string())));
    assert_eq!(out, vec![Output::Char('x'), Output::RawKey("Escape".to_string())]);
}
