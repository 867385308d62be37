//! The keyboard task: reads scancodes from the event queue, decodes them with
//! `pc_keyboard` and emits the keys.

use vstd::prelude::*;
use pc_keyboard::{Keyboard, ScancodeSet1, DecodedKey, HandleControl};
use pc_keyboard::layouts::Us104Key;
use crate::scancode::ScancodeQueue;
use crate::task::{WakeHandle, Progress, Output};

verus! {

/// The decoder's state, kept whole and out of the proofs' sight: Verus does
/// not accept a declaration of `Keyboard`, whose parameters carry bounds of
/// traits of `pc_keyboard`.
#[verifier::external_body]
pub struct Decoder {
    inner: Keyboard<Us104Key, ScancodeSet1>,
}

/// A decoded key.
#[derive(Debug, Clone, PartialEq, Eq)]
pub enum Key {
    Unicode(char),
    /// A key without a character, by the name of its key code.
    Raw(String),
}

/// The scancodes a decoder has been fed since it was made.
pub uninterp spec fn decoder_fed(k: Decoder) -> Seq<u8>;

/// The key, if any, that a decoder made by `new_decoder` yields for `code`
/// after it has been fed `fed`: `add_byte(code)`, then `process_keyevent` on
/// the key event it completes. The decoder's state (scancode prefix, shift,
/// ctrl, alt, caps and num lock) is a function of the bytes fed.
pub uninterp spec fn key_after(fed: Seq<u8>, code: u8) -> Option<Key>;

/// Relies on `Keyboard::new`: a decoder for the US 104-key layout and scancode
/// set 1 that passes the Ctrl keys through as keys of their own, fed nothing.
#[verifier::external_body]
fn new_decoder() -> (k: Decoder)
    ensures
        decoder_fed(k) == Seq::<u8>::empty(),
{
    Decoder { inner: Keyboard::new(Us104Key, ScancodeSet1, HandleControl::Ignore) }
}

/// Relies on `Keyboard::add_byte` and `Keyboard::process_keyevent`: feeds one
/// scancode, and turns the key event it completes, if any, into a key through
/// the modifiers the decoder tracks. A raw key code becomes its name.
#[verifier::external_body]
fn decoder_step(k: &mut Decoder, code: u8) -> (r: Option<Key>)
    ensures
        decoder_fed(*final(k)) == decoder_fed(*old(k)).push(code),
        r == key_after(decoder_fed(*old(k)), code),
{
    match k.inner.add_byte(code) {
        Ok(Some(ev)) => match k.inner.process_keyevent(ev) {
            Some(DecodedKey::Unicode(c)) => Some(Key::Unicode(c)),
            Some(DecodedKey::RawKey(key)) => Some(Key::Raw(format!("{:?}", key))),
            None => None,
        },
        _ => None,
    }
}

/// What a decoded key puts on the output.
pub open spec fn key_output(key: Key) -> Output {
    match key {
        Key::Unicode(c) => Output::Char(c),
        Key::Raw(name) => Output::RawKey(name),
    }
}

/// What a decoded key, if any, puts on the output.
pub open spec fn emitted(key: Option<Key>) -> Seq<Output> {
    match key {
        Some(k) => seq![key_output(k)],
        None => Seq::empty(),
    }
}

/// What a decoder fed `fed` emits for `codes`, decoded one after another.
pub open spec fn keys_output(fed: Seq<u8>, codes: Seq<u8>) -> Seq<Output>
    decreases codes.len(),
{
    if codes.len() == 0 {
        Seq::empty()
    } else {
        keys_output(fed, codes.drop_last()) + emitted(
            key_after(fed + codes.drop_last(), codes.last()),
        )
    }
}

/// Emits a decoded key, if the decoder produced one.
pub fn emit_key(out: &mut Vec<Output>, key: Option<Key>)
    ensures
        final(out)@ == match key {
            Some(k) => old(out)@.push(key_output(k)),
            None => old(out)@,
        },
{
    match key {
        Some(Key::Unicode(c)) => out.push(Output::Char(c)),
        Some(Key::Raw(name)) => out.push(Output::RawKey(name)),
        None => {},
    }
}

/// What a poll of the scancode stream yields.
#[derive(Debug, Clone, Copy, PartialEq, Eq, Structural)]
pub enum StreamPoll {
    Ready(u8),
    Pending,
}

/// The reading end of the event queue, owned by the keyboard task.
pub struct ScancodeStream {
    _private: (),
}

impl ScancodeStream {
    pub fn new() -> (s: ScancodeStream) {
        ScancodeStream { _private: () }
    }

    /// Takes the next scancode, or registers `waker` and waits. The queue is
    /// checked a second time after the registration, so that a scancode
    /// published in between is not left behind.
    pub fn poll_next(&mut self, queue: &mut ScancodeQueue, waker: WakeHandle) -> (r: StreamPoll)
        ensures
            old(queue)@.items.len() > 0 ==> r == StreamPoll::Ready(old(queue)@.items[0])
                && final(queue)@ == old(queue)@.popped().0,
            old(queue)@.items.len() == 0 ==> r == StreamPoll::Pending && final(queue)@ == old(
                queue,
            )@.registered(waker),
    {
        if let Some(code) = queue.try_pop() {
            return StreamPoll::Ready(code);
        }
        queue.register(waker);
        match queue.try_pop() {
            Some(code) => {
                queue.take_waiter();
                StreamPoll::Ready(code)
            },
            None => StreamPoll::Pending,
        }
    }
}

/// State of the keyboard task: its stream and its decoder.
pub struct KeyboardTask {
    scancodes: ScancodeStream,
    keyboard: Decoder,
}

impl KeyboardTask {
    /// The scancodes the task's decoder has been fed.
    pub closed spec fn fed(&self) -> Seq<u8> {
        decoder_fed(self.keyboard)
    }

    pub fn new() -> (t: KeyboardTask)
        ensures
            t.fed() == Seq::<u8>::empty(),
    {
        KeyboardTask { scancodes: ScancodeStream::new(), keyboard: new_decoder() }
    }

    /// Decodes one scancode and emits the key it completes, if any.
    fn handle(&mut self, code: u8, out: &mut Vec<Output>)
        ensures
            final(self).fed() == old(self).fed().push(code),
            final(out)@ == old(out)@ + emitted(key_after(old(self).fed(), code)),
    {
        let key = decoder_step(&mut self.keyboard, code);
        emit_key(out, key);
        assert(out@ =~= old(out)@ + emitted(key_after(old(self).fed(), code)));
    }

    /// Feeds every queued scancode to the decoder, oldest first, emitting each
    /// key decoded, then waits with `waker` registered.
    pub fn poll(&mut self, queue: &mut ScancodeQueue, out: &mut Vec<Output>, waker: WakeHandle) -> (r:
        Progress)
        requires
            old(queue)@.wf(),
        ensures
            r == Progress::Suspended,
            final(queue)@ == old(queue)@.drained(waker),
            final(self).fed() == old(self).fed() + old(queue)@.items,
            final(out)@ == old(out)@ + keys_output(old(self).fed(), old(queue)@.items),
    {
        let ghost fed0 = self.fed();
        let ghost items0 = queue@.items;
        let ghost mut done: Seq<u8> = Seq::empty();
        proof {
            assert(items0 =~= done + queue@.items);
            assert(self.fed() =~= fed0 + done);
            assert(out@ =~= old(out)@ + keys_output(fed0, done));
        }
        loop
            invariant
                queue@.wf(),
                queue@.capacity == old(queue)@.capacity,
                fed0 == old(self).fed(),
                items0 == old(queue)@.items,
                items0 == done + queue@.items,
                self.fed() == fed0 + done,
                out@ == old(out)@ + keys_output(fed0, done),
            decreases queue@.items.len(),
        {
            match self.scancodes.poll_next(queue, waker) {
                StreamPoll::Ready(code) => {
                    let ghost before = out@;
                    self.handle(code, out);
                    proof {
                        let d2 = done.push(code);
                        assert(d2.drop_last() =~= done);
                        assert(items0 =~= d2 + queue@.items);
                        assert(self.fed() =~= fed0 + d2);
                        assert(out@ =~= old(out)@ + keys_output(fed0, d2));
                        done = d2;
                    }
                },
                StreamPoll::Pending => {
                    assert(queue@.items =~= Seq::<u8>::empty());
                    assert(done =~= items0);
                    return Progress::Suspended;
                },
            }
        }
    }
}

} // verus!
