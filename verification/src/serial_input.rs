//! The byte stream that carries serial input from the interrupt handler,
//! which produces, to the task that consumes.
//!
//! The stream is a bounded queue and a slot for the consumer's waker. The
//! queue is a `crossbeam_queue::ArrayQueue` and the slot a
//! `futures_util::task::AtomicWaker`; what this module knows of the two is
//! stated on the functions that call them and is taken on trust.

use vstd::prelude::*;
use core::task::Waker;
use crossbeam_queue::ArrayQueue;
use futures_util::task::AtomicWaker;
use crate::error::KernelError;

verus! {

/// The number of bytes that the queue of a stream holds.
pub const QUEUE_CAPACITY: usize = 100;

/// `crossbeam_queue::ArrayQueue`, a bounded queue. The verifier sees
/// nothing inside it.
#[verifier::external_type_specification]
#[verifier::external_body]
#[verifier::reject_recursive_types(T)]
pub struct ExArrayQueue<T>(ArrayQueue<T>);

/// `futures_util::task::AtomicWaker`, a slot for at most one waker. The
/// verifier sees nothing inside it.
#[verifier::external_type_specification]
#[verifier::external_body]
pub struct ExAtomicWaker(AtomicWaker);

/// `core::task::Waker`, the handle that wakes a task. It is only passed
/// through.
#[verifier::external_type_specification]
#[verifier::external_body]
pub struct ExWaker(Waker);

/// The bytes that a queue holds, oldest first.
pub uninterp spec fn queue_contents(queue: ArrayQueue<u8>) -> Seq<u8>;

/// The capacity that a queue was made with.
pub uninterp spec fn queue_capacity(queue: ArrayQueue<u8>) -> nat;

/// Whether a waker slot holds a waker.
pub uninterp spec fn waker_registered(slot: AtomicWaker) -> bool;

/// `ArrayQueue::new`: an empty queue of the given capacity. The outside
/// function panics on a capacity of zero and on one too large for its index
/// arithmetic or for an allocation; both are excluded here.
#[verifier::external_body]
fn queue_new(capacity: usize) -> (queue: ArrayQueue<u8>)
    requires
        0 < capacity <= 0xffff,
    ensures
        queue_contents(queue) == Seq::<u8>::empty(),
        queue_capacity(queue) == capacity,
{
    ArrayQueue::new(capacity)
}

/// `ArrayQueue::push` on a queue that nobody else touches meanwhile: appends
/// the byte if the queue holds fewer bytes than its capacity, and otherwise
/// hands the byte back and leaves the queue as it is.
#[verifier::external_body]
fn queue_push(queue: &mut ArrayQueue<u8>, byte: u8) -> (r: Result<(), u8>)
    ensures
        queue_capacity(*final(queue)) == queue_capacity(*old(queue)),
        match r {
            Ok(_) => {
                &&& queue_contents(*old(queue)).len() < queue_capacity(*old(queue))
                &&& queue_contents(*final(queue)) == queue_contents(*old(queue)).push(byte)
            },
            Err(rejected) => {
                &&& rejected == byte
                &&& queue_contents(*old(queue)).len() >= queue_capacity(*old(queue))
                &&& queue_contents(*final(queue)) == queue_contents(*old(queue))
            },
        },
{
    queue.push(byte)
}

/// `ArrayQueue::pop` on a queue that nobody else touches meanwhile: removes
/// and returns the oldest byte, or returns `None` and leaves the queue as it
/// is if it is empty.
#[verifier::external_body]
fn queue_pop(queue: &mut ArrayQueue<u8>) -> (r: Option<u8>)
    ensures
        queue_capacity(*final(queue)) == queue_capacity(*old(queue)),
        match r {
            Some(byte) => {
                &&& queue_contents(*old(queue)).len() > 0
                &&& byte == queue_contents(*old(queue))[0]
                &&& queue_contents(*final(queue)) == queue_contents(*old(queue)).drop_first()
            },
            None => {
                &&& queue_contents(*old(queue)).len() == 0
                &&& queue_contents(*final(queue)) == queue_contents(*old(queue))
            },
        },
{
    queue.pop()
}

/// `AtomicWaker::new`: a slot that holds no waker.
#[verifier::external_body]
fn waker_slot_new() -> (slot: AtomicWaker)
    ensures
        !waker_registered(slot),
{
    AtomicWaker::new()
}

/// `AtomicWaker::register` on a slot that nobody else touches meanwhile:
/// the slot then holds the given waker in place of any earlier one.
#[verifier::external_body]
fn waker_register(slot: &mut AtomicWaker, waker: &Waker)
    ensures
        waker_registered(*final(slot)),
{
    slot.register(waker)
}

/// `AtomicWaker::wake` on a slot that nobody else touches meanwhile: takes
/// the waker out of the slot, if it holds one, and wakes it.
#[verifier::external_body]
fn waker_wake(slot: &mut AtomicWaker)
    ensures
        !waker_registered(*final(slot)),
{
    slot.wake()
}

/// `AtomicWaker::take` on a slot that nobody else touches meanwhile, with
/// the result dropped: the slot then holds no waker, and none was woken.
#[verifier::external_body]
fn waker_clear(slot: &mut AtomicWaker)
    ensures
        !waker_registered(*final(slot)),
{
    slot.take();
}

/// What a stream holds, as plain values.
pub struct StreamView {
    /// The bytes that were pushed and not yet taken, oldest first.
    pub pending: Seq<u8>,
    /// The number of bytes that the queue can hold.
    pub capacity: nat,
    /// Whether the consumer has left a waker to be woken by the next byte.
    pub waiting: bool,
}

impl StreamView {
    /// The stream after the producer tried to push `byte`: the byte is
    /// appended unless the queue is full.
    pub open spec fn pushed(self, byte: u8) -> StreamView {
        if self.pending.len() < self.capacity {
            StreamView { pending: self.pending.push(byte), ..self }
        } else {
            self
        }
    }

    /// The stream after the consumer took the oldest byte, if there is one.
    pub open spec fn popped(self) -> StreamView {
        if self.pending.len() > 0 {
            StreamView { pending: self.pending.drop_first(), ..self }
        } else {
            self
        }
    }

    /// The byte that the consumer gets when it looks into the queue.
    pub open spec fn front(self) -> Option<u8> {
        if self.pending.len() > 0 {
            Some(self.pending[0])
        } else {
            None
        }
    }

    /// The stream after the consumer left its waker.
    pub open spec fn registered(self) -> StreamView {
        StreamView { waiting: true, ..self }
    }

    /// The stream after the waker slot was emptied, by a wake or by the
    /// consumer that no longer needs to be woken.
    pub open spec fn cleared(self) -> StreamView {
        StreamView { waiting: false, ..self }
    }

    /// The stream after one poll by the consumer.
    pub open spec fn polled(self) -> StreamView {
        if self.pending.len() > 0 {
            self.popped()
        } else {
            self.registered()
        }
    }

    /// The stream after the producer tried to push `bytes`, one after the
    /// other.
    pub open spec fn pushed_all(self, bytes: Seq<u8>) -> StreamView
        decreases bytes.len(),
    {
        if bytes.len() == 0 {
            self
        } else {
            self.pushed_all(bytes.drop_last()).pushed(bytes.last())
        }
    }

    /// The stream after the consumer took `count` bytes, or as many as
    /// there were.
    pub open spec fn popped_times(self, count: nat) -> StreamView
        decreases count,
    {
        if count == 0 {
            self
        } else {
            self.popped_times((count - 1) as nat).popped()
        }
    }

    /// The stream after `event`.
    pub open spec fn after_event(self, event: StreamEvent) -> StreamView {
        match event {
            StreamEvent::Push(byte) => self.pushed(byte),
            StreamEvent::Wake => self.cleared(),
            StreamEvent::Register => self.registered(),
        }
    }

    /// The stream after `events`, in their order.
    pub open spec fn after_events(self, events: Seq<StreamEvent>) -> StreamView
        decreases events.len(),
    {
        if events.len() == 0 {
            self
        } else {
            self.after_events(events.drop_last()).after_event(events.last())
        }
    }
}

/// The steps that producer and consumer take on a stream between two looks
/// of the consumer into the queue. Each is atomic; they may come in any
/// order.
pub enum StreamEvent {
    /// The producer tries to push a byte.
    Push(u8),
    /// The producer wakes the registered waker, if there is one.
    Wake,
    /// The consumer registers its waker.
    Register,
}

/// A stream of bytes fed by an interrupt handler: a bounded first-in,
/// first-out queue and the waker of the task that waits for the next byte.
pub struct SerialInputStream {
    queue: ArrayQueue<u8>,
    waker: AtomicWaker,
}

impl SerialInputStream {
    /// What the stream holds.
    pub closed spec fn view(&self) -> StreamView {
        StreamView {
            pending: queue_contents(self.queue),
            capacity: queue_capacity(self.queue),
            waiting: waker_registered(self.waker),
        }
    }

    /// An empty stream of capacity `QUEUE_CAPACITY` on which nobody waits.
    pub fn new() -> (stream: Self)
        ensures
            stream@.pending == Seq::<u8>::empty(),
            stream@.capacity == QUEUE_CAPACITY,
            !stream@.waiting,
    {
        SerialInputStream { queue: queue_new(QUEUE_CAPACITY), waker: waker_slot_new() }
    }

    /// Takes the oldest byte out of the queue, if there is one. This is the
    /// first and the third step of a poll.
    pub fn pop(&mut self) -> (byte: Option<u8>)
        ensures
            byte == old(self)@.front(),
            final(self)@ == old(self)@.popped(),
    {
        queue_pop(&mut self.queue)
    }

    /// Leaves `waker` to be woken by the next byte, in place of any waker
    /// left before. This is the second step of a poll.
    pub fn register(&mut self, waker: &Waker)
        ensures
            final(self)@ == old(self)@.registered(),
    {
        waker_register(&mut self.waker, waker)
    }

    /// Withdraws the waker without waking it. This ends a poll whose third
    /// step found a byte.
    pub fn clear_waker(&mut self)
        ensures
            final(self)@ == old(self)@.cleared(),
    {
        waker_clear(&mut self.waker)
    }

    /// One poll by the consumer. It looks into the queue; if that is empty
    /// it leaves its waker and looks again, so that a byte that arrived in
    /// between is not missed; a byte found on the second look withdraws the
    /// waker. Returns the oldest byte, or `None` when the queue is empty, in
    /// which case the waker stays registered and the next byte wakes it.
    pub fn poll_next(&mut self, waker: &Waker) -> (byte: Option<u8>)
        ensures
            byte == old(self)@.front(),
            final(self)@ == old(self)@.polled(),
    {
        if let Some(byte) = self.pop() {
            return Some(byte);
        }
        self.register(waker);
        match self.pop() {
            Some(byte) => {
                self.clear_waker();
                Some(byte)
            },
            None => None,
        }
    }
}

/// The producer's side, called from the interrupt handler: pushes `byte`
/// into the queue and wakes the waiting task, if there is one. A full queue
/// is an `InterruptQueueOverflow`: the byte is dropped, nothing changes and
/// nobody is woken.
pub fn add_byte(stream: &mut SerialInputStream, byte: u8) -> (r: Result<(), KernelError>)
    ensures
        match r {
            Ok(_) => {
                &&& old(stream)@.pending.len() < old(stream)@.capacity
                &&& final(stream)@ == old(stream)@.pushed(byte).cleared()
            },
            Err(e) => {
                &&& e == KernelError::InterruptQueueOverflow
                &&& old(stream)@.pending.len() >= old(stream)@.capacity
                &&& final(stream)@ == old(stream)@
            },
        },
{
    match queue_push(&mut stream.queue, byte) {
        Err(_) => Err(KernelError::InterruptQueueOverflow),
        Ok(()) => {
            waker_wake(&mut stream.waker);
            Ok(())
        },
    }
}

/// What the serial input task writes back for a byte it received: a line
/// feed for a carriage return or a line feed; backspace, space, backspace
/// for a delete or a backspace, which wipes the last character off the
/// terminal; the byte itself if it is printable; nothing for any other.
pub open spec fn echo_of(byte: u8) -> Seq<u8> {
    if byte == 0x0D || byte == 0x0A {
        seq![0x0Au8]
    } else if byte == 0x7F || byte == 0x08 {
        seq![0x08u8, 0x20u8, 0x08u8]
    } else if 0x20 <= byte <= 0x7E {
        seq![byte]
    } else {
        Seq::<u8>::empty()
    }
}

/// The bytes that the serial input task writes to the console for `byte`.
pub fn serial_echo(byte: u8) -> (out: Vec<u8>)
    ensures
        out@ == echo_of(byte),
{
    let mut out: Vec<u8> = Vec::new();
    if byte == 0x0D || byte == 0x0A {
        out.push(0x0A);
    } else if byte == 0x7F || byte == 0x08 {
        out.push(0x08);
        out.push(0x20);
        out.push(0x08);
    } else if 0x20 <= byte && byte <= 0x7E {
        out.push(byte);
    }
    assert(out@ =~= echo_of(byte));
    out
}

/// First in, first out: bytes pushed into an empty stream, no more of them
/// than it can hold, are all accepted, and taking them out again yields the
/// same bytes in the same order and leaves the stream empty.
pub proof fn lemma_fifo_round_trip(stream: StreamView, bytes: Seq<u8>)
    requires
        stream.pending.len() == 0,
        bytes.len() <= stream.capacity,
    ensures
        stream.pushed_all(bytes).pending == bytes,
        forall|k: nat|
            k < bytes.len() ==> (#[trigger] stream.pushed_all(bytes).popped_times(k)).front()
                == Some(bytes[k as int]),
        stream.pushed_all(bytes).popped_times(bytes.len()).pending.len() == 0,
        stream.pushed_all(bytes).popped_times(bytes.len()).front() is None,
{
    lemma_pushed_all(stream, bytes);
    let full = stream.pushed_all(bytes);
    assert(full.pending =~= bytes);
    assert forall|k: nat| k <= bytes.len() implies (#[trigger] full.popped_times(k)).pending
        == bytes.skip(k as int) by {
        lemma_popped_times(full, k);
    }
    assert(full.popped_times(bytes.len()).pending == bytes.skip(bytes.len() as int));
}

/// A stream that has taken as many bytes as it can hold is full: the next
/// push changes nothing, and `add_byte` reports it as an overflow.
pub proof fn lemma_overflow_after_capacity(stream: StreamView, bytes: Seq<u8>, byte: u8)
    requires
        stream.pending.len() == 0,
        bytes.len() == stream.capacity,
    ensures
        stream.pushed_all(bytes).pending.len() >= stream.pushed_all(bytes).capacity,
        stream.pushed_all(bytes).pushed(byte) == stream.pushed_all(bytes),
{
    lemma_pushed_all(stream, bytes);
}

/// No lost wakeup: if the consumer found the queue empty and the producer
/// has pushed a byte before the consumer looks again, then the second look
/// finds that byte, however the push, the producer's wake, the consumer's
/// registration and any further pushes are interleaved in between.
pub proof fn lemma_no_lost_wakeup(stream: StreamView, events: Seq<StreamEvent>, first: int)
    requires
        stream.pending.len() == 0,
        stream.capacity > 0,
        0 <= first < events.len(),
        events[first] is Push,
        forall|k: int| 0 <= k < first ==> !(events[k] is Push),
    ensures
        stream.after_events(events).front() == Some(events[first]->Push_0),
    decreases events.len(),
{
    let before = stream.after_events(events.drop_last());
    if first == events.len() - 1 {
        lemma_no_push_keeps_empty(stream, events.drop_last());
    } else {
        assert(events.drop_last()[first] == events[first]);
        lemma_no_lost_wakeup(stream, events.drop_last(), first);
    }
}

proof fn lemma_no_push_keeps_empty(stream: StreamView, events: Seq<StreamEvent>)
    requires
        stream.pending.len() == 0,
        forall|k: int| 0 <= k < events.len() ==> !(events[k] is Push),
    ensures
        stream.after_events(events).pending.len() == 0,
        stream.after_events(events).capacity == stream.capacity,
    decreases events.len(),
{
    if events.len() > 0 {
        lemma_no_push_keeps_empty(stream, events.drop_last());
    }
}

proof fn lemma_pushed_all(stream: StreamView, bytes: Seq<u8>)
    requires
        stream.pending.len() + bytes.len() <= stream.capacity,
    ensures
        stream.pushed_all(bytes).pending == stream.pending + bytes,
        stream.pushed_all(bytes).capacity == stream.capacity,
        stream.pushed_all(bytes).waiting == stream.waiting,
    decreases bytes.len(),
{
    if bytes.len() > 0 {
        lemma_pushed_all(stream, bytes.drop_last());
        assert(stream.pending + bytes =~= (stream.pending + bytes.drop_last()).push(bytes.last()));
    } else {
        assert(stream.pending + bytes =~= stream.pending);
    }
}

proof fn lemma_popped_times(stream: StreamView, count: nat)
    requires
        count <= stream.pending.len(),
    ensures
        stream.popped_times(count).pending == stream.pending.skip(count as int),
        stream.popped_times(count).capacity == stream.capacity,
        stream.popped_times(count).waiting == stream.waiting,
    decreases count,
{
    if count > 0 {
        lemma_popped_times(stream, (count - 1) as nat);
        assert(stream.pending.skip(count as int) =~= stream.pending.skip(count - 1).drop_first());
    } else {
        assert(stream.pending.skip(0) =~= stream.pending);
    }
}

} // verus!
