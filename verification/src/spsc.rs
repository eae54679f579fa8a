//! A bounded single-producer/single-consumer channel.
//!
//! The channel core is a ring of slots with an occupancy counter, a closed
//! flag and one parking place for each side's waker. The producer and the
//! consumer each own a cursor; every operation takes the shared core by
//! reference, so the caller decides how the core is shared between tasks.
//! Operations never block: where the asynchronous operation would suspend,
//! the waker handed in is parked and `Poll::Pending` (or `SendError::Full`)
//! comes back, and where a peer must be woken its parked waker is handed out.

use std::marker::PhantomData;
use vstd::prelude::*;

verus! {

/// Why an item could not be sent.
#[derive(Debug, Clone, Copy, PartialEq, Eq, Structural)]
pub enum SendError {
    /// Every slot is taken.
    Full,
    /// The channel is closed.
    Disconnected,
}

/// A failed send, carrying the item back to the caller.
#[derive(Debug)]
pub struct TrySendError<T> {
    pub err: SendError,
    pub val: T,
}

/// Why nothing could be received.
#[derive(Debug, Clone, Copy, PartialEq, Eq, Structural)]
pub enum TryRecvError {
    /// The channel is closed and holds no more items.
    Disconnected,
}

/// The outcome of one attempt at an operation that may have to wait.
#[derive(Debug)]
pub enum Poll<T> {
    Ready(T),
    Pending,
}

/// The cursor that follows `pos`; it wraps at the machine word.
pub open spec fn next_cursor(pos: usize) -> usize {
    if pos == usize::MAX {
        0
    } else {
        (pos + 1) as usize
    }
}

/// The number of positions that a cursor has: after the last it starts
/// again at the first.
pub open spec fn span() -> int {
    usize::MAX + 1
}

/// The number of slots of a channel asked for with `size`.
pub open spec fn slots_for(size: usize) -> nat {
    if size + 1 > 2 {
        (size + 1) as nat
    } else {
        2
    }
}

/// The mathematical state of a channel core.
#[verifier::ext_equal]
pub struct ChannelState<T, W> {
    /// The ring; a slot holds an item from the send that filled it until the
    /// receive that empties it.
    pub slots: Seq<Option<T>>,
    /// The number of slots.
    pub capacity: nat,
    /// The occupancy: items sent and not yet received.
    pub count: nat,
    /// Whether either side has closed the channel.
    pub closed: bool,
    /// The waker of the consumer, while it waits for an item.
    pub consumer: Option<W>,
    /// The waker of the producer, while it waits for a free slot.
    pub producer: Option<W>,
}

impl<T, W> ChannelState<T, W> {
    /// The occupancy never exceeds the number of slots, of which there are
    /// at least two.
    pub open spec fn wf(self) -> bool {
        &&& 2 <= self.capacity <= usize::MAX
        &&& self.slots.len() == self.capacity
        &&& self.count <= self.capacity
    }

    /// An open, empty channel of `capacity` slots with nobody waiting.
    pub open spec fn fresh(capacity: nat) -> Self {
        ChannelState {
            slots: Seq::new(capacity, |i: int| None),
            capacity,
            count: 0,
            closed: false,
            consumer: None,
            producer: None,
        }
    }

    /// The slot that a cursor position falls on.
    pub open spec fn slot_of(self, pos: int) -> int {
        pos % (self.capacity as int)
    }

    pub open spec fn is_empty(self) -> bool {
        self.count == 0
    }

    pub open spec fn is_full(self) -> bool {
        self.count == self.capacity
    }

    /// What the slot `i` places after the cursor `head` holds.
    pub open spec fn item_at(self, head: usize, i: int) -> Option<T> {
        self.slots[self.slot_of(head + i)]
    }

    /// The item that a consumer at `head` can take, if there is one.
    pub open spec fn front(self, head: usize) -> Option<T> {
        if self.count > 0 {
            self.item_at(head, 0)
        } else {
            None
        }
    }

    /// The state after a producer at `tail` has claimed a slot.
    pub open spec fn claimed(self) -> Self {
        ChannelState { count: self.count + 1, ..self }
    }

    /// The state after `item` has been written to the slot of `tail`.
    pub open spec fn written(self, tail: usize, item: T) -> Self {
        ChannelState { slots: self.slots.update(self.slot_of(tail as int), Some(item)), ..self }
    }

    /// The state after a producer at `tail` has enqueued `item`.
    pub open spec fn pushed(self, tail: usize, item: T) -> Self {
        self.claimed().written(tail, item)
    }

    /// The state after a consumer at `head` has taken the front item.
    pub open spec fn popped(self, head: usize) -> Self {
        ChannelState {
            slots: self.slots.update(self.slot_of(head as int), None),
            count: (self.count - 1) as nat,
            ..self
        }
    }

    /// The same channel, closed.
    pub open spec fn shut(self) -> Self {
        ChannelState { closed: true, ..self }
    }

    /// The same channel with `waker` parked for the consumer.
    pub open spec fn consumer_parked(self, waker: W) -> Self {
        ChannelState { consumer: Some(waker), ..self }
    }

    /// The same channel with `waker` parked for the producer.
    pub open spec fn producer_parked(self, waker: W) -> Self {
        ChannelState { producer: Some(waker), ..self }
    }

    /// The same channel after the consumer's waker has been taken out.
    pub open spec fn consumer_woken(self) -> Self {
        ChannelState { consumer: None, ..self }
    }

    /// The same channel after the producer's waker has been taken out.
    pub open spec fn producer_woken(self) -> Self {
        ChannelState { producer: None, ..self }
    }

    /// What a consumer at `head` gets when it asks for an item: the front
    /// item; or the end of the data, on a closed channel; or to wait.
    pub open spec fn recv_outcome(self, head: usize) -> Poll<Option<T>> {
        match self.front(head) {
            Some(item) => Poll::Ready(Some(item)),
            None => if self.closed {
                Poll::Ready(None)
            } else {
                Poll::Pending
            },
        }
    }

    /// The buffered items, oldest first, as a consumer at `head` meets them.
    pub open spec fn queue(self, head: usize) -> Seq<T> {
        Seq::new(self.count, |i: int| self.item_at(head, i)->Some_0)
    }

    /// The ring goes evenly into the positions of a cursor: a cursor that
    /// starts again goes on round the ring in step.
    pub open spec fn aligned(self) -> bool {
        span() % (self.capacity as int) == 0
    }

    /// A producer at `tail` and a consumer at `head` agree with this core:
    /// the cursors are `count` apart and every slot between them is filled.
    /// On an aligned ring the producer's cursor may have started again
    /// ahead of the consumer's.
    pub open spec fn linked(self, tail: usize, head: usize) -> bool {
        &&& self.wf()
        &&& tail == head + self.count || (self.aligned() && tail + span() == head + self.count)
        &&& forall|i: int| 0 <= i < self.count ==> (#[trigger] self.item_at(head, i)) is Some
    }
}

/// The channel core that a `Sender` and a `Receiver` share.
pub struct Shared<T, W> {
    buf: Vec<Option<T>>,
    consumer: Option<W>,
    producer: Option<W>,
    count: usize,
    closed: bool,
    capacity: usize,
}

impl<T, W> View for Shared<T, W> {
    type V = ChannelState<T, W>;

    closed spec fn view(&self) -> ChannelState<T, W> {
        ChannelState {
            slots: self.buf@,
            capacity: self.capacity as nat,
            count: self.count as nat,
            closed: self.closed,
            consumer: self.consumer,
            producer: self.producer,
        }
    }
}

impl<T, W> Shared<T, W> {
    /// The validity of a channel core; every operation keeps it.
    pub open spec fn wf(&self) -> bool {
        self@.wf()
    }

    /// An open, empty core with room for `capacity` items and one more
    /// slot, and never fewer than two slots.
    pub fn new(capacity: usize) -> (shared: Self)
        requires
            capacity < usize::MAX,
        ensures
            shared.wf(),
            shared@ == ChannelState::<T, W>::fresh(slots_for(capacity)),
    {
        let capacity: usize = if capacity + 1 > 2 {
            capacity + 1
        } else {
            2
        };
        let mut buf: Vec<Option<T>> = Vec::new();
        let mut i: usize = 0;
        while i < capacity
            invariant
                i <= capacity,
                buf@.len() == i,
                forall|j: int| 0 <= j < i ==> buf@[j] is None,
            decreases capacity - i,
        {
            buf.push(None);
            i += 1;
        }
        let shared = Shared { buf, consumer: None, producer: None, closed: false, count: 0, capacity };
        assert(shared@.slots =~= ChannelState::<T, W>::fresh(capacity as nat).slots);
        shared
    }

    /// The slot that the cursor position `index` falls on.
    #[inline]
    pub fn index(&self, index: usize) -> (slot: usize)
        requires
            self.wf(),
        ensures
            slot == self@.slot_of(index as int),
            slot < self@.capacity,
    {
        index % self.capacity
    }

    /// The occupancy.
    #[inline]
    pub fn len(&self) -> (len: usize)
        ensures
            len == self@.count,
    {
        self.count
    }

    #[inline]
    pub fn is_empty(&self) -> (empty: bool)
        ensures
            empty == self@.is_empty(),
    {
        self.len() == 0
    }

    #[inline]
    pub fn is_full(&self) -> (full: bool)
        ensures
            full == self@.is_full(),
    {
        self.len() == self.capacity
    }

    /// Takes out what the slot `idx` holds and leaves it empty.
    #[inline]
    pub fn get_unchecked(&mut self, idx: usize) -> (item: Option<T>)
        requires
            old(self).wf(),
            idx < old(self)@.capacity,
        ensures
            final(self).wf(),
            item == old(self)@.slots[idx as int],
            final(self)@ == (ChannelState { slots: old(self)@.slots.update(idx as int, None), ..old(self)@ }),
    {
        let item = self.buf[idx].take();
        assert(self@.slots =~= old(self)@.slots.update(idx as int, None));
        item
    }

    /// Puts `value` into the slot `idx`.
    #[inline]
    pub fn set_unchecked(&mut self, idx: usize, value: T)
        requires
            old(self).wf(),
            idx < old(self)@.capacity,
        ensures
            final(self).wf(),
            final(self)@ == (ChannelState { slots: old(self)@.slots.update(idx as int, Some(value)), ..old(self)@ }),
    {
        self.buf[idx] = Some(value);
        assert(self@.slots =~= old(self)@.slots.update(idx as int, Some(value)));
    }

    /// Counts one more item in.
    fn claim(&mut self)
        requires
            old(self).wf(),
            !old(self)@.is_full(),
        ensures
            final(self).wf(),
            final(self)@ == old(self)@.claimed(),
    {
        self.count = self.count + 1;
    }

    /// Counts one item out.
    fn release(&mut self)
        requires
            old(self).wf(),
            !old(self)@.is_empty(),
        ensures
            final(self).wf(),
            final(self)@ == (ChannelState { count: (old(self)@.count - 1) as nat, ..old(self)@ }),
    {
        self.count = self.count - 1;
    }

    /// Whether the channel is closed.
    fn is_closed(&self) -> (closed: bool)
        ensures
            closed == self@.closed,
    {
        self.closed
    }

    /// Closes the channel.
    fn close(&mut self)
        ensures
            final(self)@ == old(self)@.shut(),
    {
        self.closed = true;
    }

    /// Parks `waker` for the consumer, in place of any parked before.
    fn register_consumer(&mut self, waker: W)
        ensures
            final(self)@ == old(self)@.consumer_parked(waker),
    {
        self.consumer = Some(waker);
    }

    /// Parks `waker` for the producer, in place of any parked before.
    fn register_producer(&mut self, waker: W)
        ensures
            final(self)@ == old(self)@.producer_parked(waker),
    {
        self.producer = Some(waker);
    }

    /// Takes out the consumer's waker, for the caller to wake.
    fn wake_consumer(&mut self) -> (waker: Option<W>)
        ensures
            waker == old(self)@.consumer,
            final(self)@ == old(self)@.consumer_woken(),
    {
        self.consumer.take()
    }

    /// Takes out the producer's waker, for the caller to wake.
    fn wake_producer(&mut self) -> (waker: Option<W>)
        ensures
            waker == old(self)@.producer,
            final(self)@ == old(self)@.producer_woken(),
    {
        self.producer.take()
    }
}

/// The producing half of a channel: it owns the write cursor.
pub struct Sender<T> {
    pos: usize,
    m: PhantomData<T>,
}

/// The consuming half of a channel: it owns the read cursor.
pub struct Receiver<T> {
    pos: usize,
    m: PhantomData<T>,
}

/// A new channel with room for `size` items and one more: its core, and
/// the two handles that work on it. A `size` of 0 gives two slots.
pub fn channel<T, W>(size: usize) -> (ch: (Shared<T, W>, Sender<T>, Receiver<T>))
    requires
        size < usize::MAX,
    ensures
        ch.0.wf(),
        ch.0@ == ChannelState::<T, W>::fresh(slots_for(size)),
        ch.1.cursor() == 0,
        ch.2.cursor() == 0,
        ch.0@.linked(ch.1.cursor(), ch.2.cursor()),
        ch.0@.queue(ch.2.cursor()) == Seq::<T>::empty(),
{
    let shared = Shared::new(size);
    (shared, Sender { pos: 0, m: PhantomData }, Receiver { pos: 0, m: PhantomData })
}

impl<T> Sender<T> {
    /// The write cursor: the position that the next item goes to.
    pub closed spec fn cursor(&self) -> usize {
        self.pos
    }

    /// Returns whether this channel is closed.
    #[inline]
    pub fn is_closed<W>(&self, shared: &Shared<T, W>) -> (closed: bool)
        ensures
            closed == shared@.closed,
    {
        shared.is_closed()
    }

    /// Claims the slot at the write cursor, unless the ring is full. The
    /// slot is counted as taken at once; the caller writes the item.
    #[inline]
    pub fn next_idx<W>(&mut self, shared: &mut Shared<T, W>) -> (idx: Option<usize>)
        requires
            old(shared).wf(),
        ensures
            final(shared).wf(),
            match idx {
                Some(idx) => {
                    &&& !old(shared)@.is_full()
                    &&& idx == old(shared)@.slot_of(old(self).cursor() as int)
                    &&& idx < old(shared)@.capacity
                    &&& final(shared)@ == old(shared)@.claimed()
                    &&& final(self).cursor() == next_cursor(old(self).cursor())
                },
                None => {
                    &&& old(shared)@.is_full()
                    &&& final(shared)@ == old(shared)@
                    &&& final(self).cursor() == old(self).cursor()
                },
            },
    {
        if shared.is_full() {
            None
        } else {
            let idx: usize = self.pos;
            self.pos = self.pos.wrapping_add(1);
            shared.claim();
            Some(shared.index(idx))
        }
    }

    /// Sends `item` without waiting and without waking anybody: it fails
    /// with `Disconnected` on a closed channel and with `Full` on a full
    /// one, and hands the item back either way.
    pub fn start_send<W>(&mut self, shared: &mut Shared<T, W>, item: T) -> (res: Result<
        (),
        TrySendError<T>,
    >)
        requires
            old(shared).wf(),
        ensures
            final(shared).wf(),
            match res {
                Ok(()) => {
                    &&& !old(shared)@.closed
                    &&& !old(shared)@.is_full()
                    &&& final(shared)@ == old(shared)@.pushed(old(self).cursor(), item)
                    &&& final(self).cursor() == next_cursor(old(self).cursor())
                },
                Err(e) => {
                    &&& e.val == item
                    &&& e.err == if old(shared)@.closed {
                        SendError::Disconnected
                    } else {
                        SendError::Full
                    }
                    &&& old(shared)@.closed || old(shared)@.is_full()
                    &&& final(shared)@ == old(shared)@
                    &&& final(self).cursor() == old(self).cursor()
                },
            },
            forall|head: usize|
                res is Ok && (old(self).cursor() < usize::MAX || old(shared)@.aligned()) && #[trigger] old(shared)@.linked(
                    old(self).cursor(),
                    head,
                ) ==> final(shared)@.linked(final(self).cursor(), head) && final(shared)@.queue(
                    head,
                ) == old(shared)@.queue(head).push(item),
    {
        if self.is_closed(shared) {
            return Err(TrySendError { err: SendError::Disconnected, val: item });
        }
        if let Some(idx) = self.next_idx(shared) {
            shared.set_unchecked(idx, item);
            proof {
                assert forall|head: usize|
                    (old(self).cursor() < usize::MAX || old(shared)@.aligned()) && #[trigger] old(shared)@.linked(
                        old(self).cursor(),
                        head,
                    ) implies shared@.linked(self.cursor(), head) && shared@.queue(head) == old(
                    shared,
                )@.queue(head).push(item) by {
                    lemma_push_linked(old(shared)@, old(self).cursor(), head, item);
                }
            }
            Ok(())
        } else {
            Err(TrySendError { err: SendError::Full, val: item })
        }
    }

    /// Sends `item` without waiting, and on success hands out the waker of
    /// a waiting consumer for the caller to wake.
    pub fn try_send<W>(&mut self, shared: &mut Shared<T, W>, item: T) -> (out: (
        Result<(), TrySendError<T>>,
        Option<W>,
    ))
        requires
            old(shared).wf(),
        ensures
            final(shared).wf(),
            match out.0 {
                Ok(()) => {
                    &&& !old(shared)@.closed
                    &&& !old(shared)@.is_full()
                    &&& final(shared)@ == old(shared)@.pushed(
                        old(self).cursor(),
                        item,
                    ).consumer_woken()
                    &&& out.1 == old(shared)@.consumer
                    &&& final(self).cursor() == next_cursor(old(self).cursor())
                },
                Err(e) => {
                    &&& e.val == item
                    &&& e.err == if old(shared)@.closed {
                        SendError::Disconnected
                    } else {
                        SendError::Full
                    }
                    &&& old(shared)@.closed || old(shared)@.is_full()
                    &&& final(shared)@ == old(shared)@
                    &&& out.1 is None
                    &&& final(self).cursor() == old(self).cursor()
                },
            },
    {
        match self.start_send(shared, item) {
            Ok(()) => {
                let waker = shared.wake_consumer();
                (Ok(()), waker)
            },
            Err(e) => (Err(e), None),
        }
    }

    /// Whether an item can be sent now. On a full channel this flushes.
    #[inline]
    pub fn poll_ready<W>(&mut self, shared: &mut Shared<T, W>, waker: W) -> (out: (
        Poll<Result<(), SendError>>,
        Option<W>,
    ))
        requires
            old(shared).wf(),
        ensures
            final(shared).wf(),
            final(self).cursor() == old(self).cursor(),
            !old(shared)@.is_full() ==> out.0 == Poll::Ready(Ok::<(), SendError>(())) && out.1 is None
                && final(shared)@ == old(shared)@,
            old(shared)@.is_full() && old(shared)@.closed ==> out.0 == Poll::Ready(
                Err::<(), SendError>(SendError::Disconnected),
            ) && out.1 is None && final(shared)@ == old(shared)@,
            old(shared)@.is_full() && !old(shared)@.closed ==> out.0 is Pending && out.1 == old(
                shared,
            )@.consumer && final(shared)@ == old(shared)@.producer_parked(waker).consumer_woken(),
    {
        if shared.is_full() {
            self.poll_flush(shared, waker)
        } else {
            (Poll::Ready(Ok(())), None)
        }
    }

    /// Whether everything sent has been received. While items are
    /// buffered on an open channel, the producer's `waker` is parked and the
    /// waker of a waiting consumer is handed out.
    pub fn poll_flush<W>(&mut self, shared: &mut Shared<T, W>, waker: W) -> (out: (
        Poll<Result<(), SendError>>,
        Option<W>,
    ))
        requires
            old(shared).wf(),
        ensures
            final(shared).wf(),
            final(self).cursor() == old(self).cursor(),
            old(shared)@.closed ==> out.0 == Poll::Ready(
                Err::<(), SendError>(SendError::Disconnected),
            ) && out.1 is None && final(shared)@ == old(shared)@,
            !old(shared)@.closed && old(shared)@.is_empty() ==> out.0 == Poll::Ready(
                Ok::<(), SendError>(()),
            ) && out.1 is None && final(shared)@ == old(shared)@,
            !old(shared)@.closed && !old(shared)@.is_empty() ==> out.0 is Pending && out.1 == old(
                shared,
            )@.consumer && final(shared)@ == old(shared)@.producer_parked(waker).consumer_woken(),
    {
        if self.is_closed(shared) {
            (Poll::Ready(Err(SendError::Disconnected)), None)
        } else if shared.is_empty() {
            (Poll::Ready(Ok(())), None)
        } else {
            shared.register_producer(waker);
            let peer = shared.wake_consumer();
            (Poll::Pending, peer)
        }
    }

    /// Claims the slot for the next item. On a full, open channel the
    /// producer's `waker` is parked and the waker of a waiting consumer is
    /// handed out, so that it drains the ring and wakes the producer back.
    pub fn poll_next_pos<W>(&mut self, shared: &mut Shared<T, W>, waker: W) -> (out: (
        Poll<Result<usize, SendError>>,
        Option<W>,
    ))
        requires
            old(shared).wf(),
        ensures
            final(shared).wf(),
            old(shared)@.closed ==> out.0 == Poll::Ready(
                Err::<usize, SendError>(SendError::Disconnected),
            ) && out.1 is None && final(shared)@ == old(shared)@ && final(self).cursor() == old(
                self,
            ).cursor(),
            !old(shared)@.closed && !old(shared)@.is_full() ==> out.0 == Poll::Ready(
                Ok::<usize, SendError>(old(shared)@.slot_of(old(self).cursor() as int) as usize),
            ) && old(shared)@.slot_of(old(self).cursor() as int) < old(shared)@.capacity && out.1 is None
                && final(shared)@ == old(shared)@.claimed() && final(self).cursor() == next_cursor(
                old(self).cursor(),
            ),
            !old(shared)@.closed && old(shared)@.is_full() ==> out.0 is Pending && out.1 == old(
                shared,
            )@.consumer && final(shared)@ == old(shared)@.producer_parked(waker).consumer_woken()
                && final(self).cursor() == old(self).cursor(),
    {
        if self.is_closed(shared) {
            return (Poll::Ready(Err(SendError::Disconnected)), None);
        }
        if let Some(idx) = self.next_idx(shared) {
            (Poll::Ready(Ok(idx)), None)
        } else {
            shared.register_producer(waker);
            let peer = shared.wake_consumer();
            // The ring is looked at again once the waker is parked: the
            // consumer may have taken items in between.
            if let Some(idx) = self.next_idx(shared) {
                (Poll::Ready(Ok(idx)), peer)
            } else {
                (Poll::Pending, peer)
            }
        }
    }

    /// Sends `item`, or parks the producer. On success the waker of a
    /// waiting consumer is handed out. On a full, open channel the item
    /// comes back with `Full`, `waker` is parked for the producer and the
    /// consumer's waker is handed out: the caller sends again when woken.
    /// On a closed channel the item comes back with `Disconnected`.
    pub fn send<W>(&mut self, shared: &mut Shared<T, W>, item: T, waker: W) -> (out: (
        Result<(), TrySendError<T>>,
        Option<W>,
    ))
        requires
            old(shared).wf(),
        ensures
            final(shared).wf(),
            out.1 == if old(shared)@.closed {
                None
            } else {
                old(shared)@.consumer
            },
            match out.0 {
                Ok(()) => {
                    &&& !old(shared)@.closed
                    &&& !old(shared)@.is_full()
                    &&& final(shared)@ == old(shared)@.pushed(
                        old(self).cursor(),
                        item,
                    ).consumer_woken()
                    &&& final(self).cursor() == next_cursor(old(self).cursor())
                },
                Err(e) => {
                    &&& e.val == item
                    &&& final(self).cursor() == old(self).cursor()
                    &&& if old(shared)@.closed {
                        e.err == SendError::Disconnected && final(shared)@ == old(shared)@
                    } else {
                        old(shared)@.is_full() && e.err == SendError::Full && final(shared)@ == old(
                            shared,
                        )@.producer_parked(waker).consumer_woken()
                    }
                },
            },
            forall|head: usize|
                out.0 is Ok && (old(self).cursor() < usize::MAX || old(shared)@.aligned()) && #[trigger] old(shared)@.linked(
                    old(self).cursor(),
                    head,
                ) ==> final(shared)@.linked(final(self).cursor(), head) && final(shared)@.queue(
                    head,
                ) == old(shared)@.queue(head).push(item),
    {
        match self.poll_next_pos(shared, waker) {
            (Poll::Ready(Ok(idx)), _) => {
                shared.set_unchecked(idx, item);
                let peer = shared.wake_consumer();
                proof {
                    assert forall|head: usize|
                        (old(self).cursor() < usize::MAX || old(shared)@.aligned()) && #[trigger] old(shared)@.linked(
                            old(self).cursor(),
                            head,
                        ) implies shared@.linked(self.cursor(), head) && shared@.queue(head) == old(
                        shared,
                    )@.queue(head).push(item) by {
                        lemma_push_linked(old(shared)@, old(self).cursor(), head, item);
                        lemma_wakers_apart(
                            old(shared)@.pushed(old(self).cursor(), item),
                            shared@,
                            self.cursor(),
                            head,
                        );
                    }
                }
                (Ok(()), peer)
            },
            (Poll::Ready(Err(err)), _) => (Err(TrySendError { err, val: item }), None),
            (Poll::Pending, peer) => (Err(TrySendError { err: SendError::Full, val: item }), peer),
        }
    }

    /// Closes the channel from the producer's side and hands out the waker
    /// of a waiting consumer. Items already buffered stay receivable.
    pub fn close<W>(&mut self, shared: &mut Shared<T, W>) -> (peer: Option<W>)
        ensures
            peer == old(shared)@.consumer,
            final(shared)@ == old(shared)@.shut().consumer_woken(),
            final(self).cursor() == old(self).cursor(),
    {
        shared.close();
        shared.wake_consumer()
    }
}

impl<T> Receiver<T> {
    /// The read cursor: the position of the oldest buffered item.
    pub closed spec fn cursor(&self) -> usize {
        self.pos
    }

    /// Takes the front item out of the ring, if there is one.
    pub fn try_pop<W>(&mut self, shared: &mut Shared<T, W>) -> (item: Option<T>)
        requires
            old(shared).wf(),
        ensures
            final(shared).wf(),
            item == old(shared)@.front(old(self).cursor()),
            item is Some ==> final(shared)@ == old(shared)@.popped(old(self).cursor())
                && final(self).cursor() == next_cursor(old(self).cursor()),
            item is None ==> final(shared)@ == old(shared)@ && final(self).cursor() == old(
                self,
            ).cursor(),
            forall|tail: usize| #[trigger]
                old(shared)@.linked(tail, old(self).cursor()) ==> final(shared)@.linked(
                    tail,
                    final(self).cursor(),
                ) && (item is Some <==> old(shared)@.count > 0) && (item matches Some(v) ==> v == old(
                    shared,
                )@.queue(old(self).cursor())[0] && final(shared)@.queue(final(self).cursor()) == old(
                    shared,
                )@.queue(old(self).cursor()).drop_first()),
    {
        if shared.is_empty() {
            None
        } else {
            let now: usize = self.pos;
            let idx: usize = shared.index(now);
            match shared.get_unchecked(idx) {
                Some(item) => {
                    self.pos = now.wrapping_add(1);
                    shared.release();
                    proof {
                        assert(shared@ =~= old(shared)@.popped(old(self).cursor()));
                        assert forall|tail: usize| #[trigger]
                            old(shared)@.linked(tail, old(self).cursor()) implies shared@.linked(
                            tail,
                            self.cursor(),
                        ) && item == old(shared)@.queue(old(self).cursor())[0] && shared@.queue(
                            self.cursor(),
                        ) == old(shared)@.queue(old(self).cursor()).drop_first() by {
                            lemma_pop_linked(old(shared)@, tail, old(self).cursor());
                        }
                    }
                    Some(item)
                },
                None => {
                    proof {
                        assert(shared@ =~= old(shared)@);
                        assert forall|tail: usize| #[trigger]
                            old(shared)@.linked(tail, old(self).cursor()) implies false by {
                            assert(old(shared)@.item_at(old(self).cursor(), 0) is Some);
                        }
                    }
                    None
                },
            }
        }
    }

    /// Takes the front item, if there is one, and with it the waker of a
    /// waiting producer for the caller to wake.
    pub fn poll_next_msg<W>(&mut self, shared: &mut Shared<T, W>) -> (out: (Poll<T>, Option<W>))
        requires
            old(shared).wf(),
        ensures
            final(shared).wf(),
            match old(shared)@.front(old(self).cursor()) {
                Some(item) => {
                    &&& out.0 == Poll::Ready(item)
                    &&& out.1 == old(shared)@.producer
                    &&& final(shared)@ == old(shared)@.popped(old(self).cursor()).producer_woken()
                    &&& final(self).cursor() == next_cursor(old(self).cursor())
                },
                None => {
                    &&& out.0 is Pending
                    &&& out.1 is None
                    &&& final(shared)@ == old(shared)@
                    &&& final(self).cursor() == old(self).cursor()
                },
            },
    {
        match self.try_pop(shared) {
            None => (Poll::Pending, None),
            Some(item) => {
                let peer = shared.wake_producer();
                (Poll::Ready(item), peer)
            },
        }
    }

    /// Receives without waiting: `Ok(Some(..))` with the front item,
    /// `Ok(None)` when an open channel is empty, and `Disconnected` when a
    /// closed channel is drained. Nobody is woken.
    pub fn try_recv<W>(&mut self, shared: &mut Shared<T, W>) -> (res: Result<
        Option<T>,
        TryRecvError,
    >)
        requires
            old(shared).wf(),
        ensures
            final(shared).wf(),
            match old(shared)@.front(old(self).cursor()) {
                Some(item) => {
                    &&& res == Ok::<Option<T>, TryRecvError>(Some(item))
                    &&& final(shared)@ == old(shared)@.popped(old(self).cursor())
                    &&& final(self).cursor() == next_cursor(old(self).cursor())
                },
                None => {
                    &&& res == if old(shared)@.closed {
                        Err::<Option<T>, TryRecvError>(TryRecvError::Disconnected)
                    } else {
                        Ok::<Option<T>, TryRecvError>(None)
                    }
                    &&& final(shared)@ == old(shared)@
                    &&& final(self).cursor() == old(self).cursor()
                },
            },
            forall|tail: usize| #[trigger]
                old(shared)@.linked(tail, old(self).cursor()) ==> final(shared)@.linked(
                    tail,
                    final(self).cursor(),
                ) && (old(shared)@.count > 0 ==> res == Ok::<Option<T>, TryRecvError>(
                    Some(old(shared)@.queue(old(self).cursor())[0]),
                ) && final(shared)@.queue(final(self).cursor()) == old(shared)@.queue(
                    old(self).cursor(),
                ).drop_first()),
    {
        match self.try_pop(shared) {
            None => {
                // A closed channel is looked at once more, so that an item
                // sent just before the close is not lost.
                if self.is_closed(shared) {
                    match self.try_pop(shared) {
                        None => Err(TryRecvError::Disconnected),
                        Some(item) => Ok(Some(item)),
                    }
                } else {
                    Ok(None)
                }
            },
            Some(item) => Ok(Some(item)),
        }
    }

    /// Asks the producer for items. On an open channel the consumer's
    /// `waker` is parked and the waker of a waiting producer is handed out;
    /// the answer is `Pending` while the ring is empty.
    pub fn poll_want_recv<W>(&mut self, shared: &mut Shared<T, W>, waker: W) -> (out: (
        Poll<()>,
        Option<W>,
    ))
        requires
            old(shared).wf(),
        ensures
            final(shared).wf(),
            final(self).cursor() == old(self).cursor(),
            old(shared)@.closed ==> out.0 is Ready && out.1 is None && final(shared)@ == old(
                shared,
            )@,
            !old(shared)@.closed ==> (out.0 is Pending <==> old(shared)@.is_empty()) && out.1 == old(
                shared,
            )@.producer && final(shared)@ == old(shared)@.consumer_parked(waker).producer_woken(),
    {
        if self.is_closed(shared) {
            return (Poll::Ready(()), None);
        }
        shared.register_consumer(waker);
        let peer = shared.wake_producer();
        if shared.is_empty() {
            (Poll::Pending, peer)
        } else {
            (Poll::Ready(()), peer)
        }
    }

    /// Receives, or parks the consumer. With an item buffered it is taken
    /// and the waker of a waiting producer handed out. Without one, on a
    /// closed channel the answer is `Ready(None)`: the end of the data; on
    /// an open one `waker` is parked for the consumer, the producer's waker
    /// is handed out and the answer is `Pending`.
    pub fn poll_recv<W>(&mut self, shared: &mut Shared<T, W>, waker: W) -> (out: (
        Poll<Option<T>>,
        Option<W>,
    ))
        requires
            old(shared).wf(),
        ensures
            final(shared).wf(),
            out.0 == old(shared)@.recv_outcome(old(self).cursor()),
            out.1 == old(shared)@.producer,
            match old(shared)@.front(old(self).cursor()) {
                Some(item) => {
                    &&& final(shared)@ == old(shared)@.popped(old(self).cursor()).producer_woken()
                    &&& final(self).cursor() == next_cursor(old(self).cursor())
                },
                None => {
                    &&& final(shared)@ == old(shared)@.consumer_parked(waker).producer_woken()
                    &&& final(self).cursor() == old(self).cursor()
                },
            },
    {
        if let (Poll::Ready(item), peer) = self.poll_next_msg(shared) {
            return (Poll::Ready(Some(item)), peer);
        }
        shared.register_consumer(waker);
        let peer = shared.wake_producer();
        // The ring and the closed flag are looked at again once the waker
        // is parked: the producer may have sent or closed in between, and
        // would then not wake the consumer again.
        if self.is_closed(shared) {
            match self.poll_next_msg(shared) {
                (Poll::Ready(item), _) => (Poll::Ready(Some(item)), peer),
                (Poll::Pending, _) => (Poll::Ready(None), peer),
            }
        } else {
            match self.poll_next_msg(shared) {
                (Poll::Ready(item), _) => (Poll::Ready(Some(item)), peer),
                (Poll::Pending, _) => (Poll::Pending, peer),
            }
        }
    }

    /// Returns whether this channel is closed.
    #[inline]
    pub fn is_closed<W>(&self, shared: &Shared<T, W>) -> (closed: bool)
        ensures
            closed == shared@.closed,
    {
        shared.is_closed()
    }

    /// Closes the channel from the consumer's side and hands out the waker
    /// of a waiting producer.
    #[inline]
    pub fn close<W>(&mut self, shared: &mut Shared<T, W>) -> (peer: Option<W>)
        ensures
            peer == old(shared)@.producer,
            final(shared)@ == old(shared)@.shut().producer_woken(),
            final(self).cursor() == old(self).cursor(),
    {
        shared.close();
        shared.wake_producer()
    }
}

/// Two positions less than a ring's length apart fall on different slots.
pub proof fn lemma_slots_distinct(capacity: int, pos: int, gap: int)
    requires
        0 < gap < capacity,
        0 <= pos,
    ensures
        (pos + gap) % capacity != pos % capacity,
{
    vstd::arithmetic::div_mod::lemma_fundamental_div_mod(pos, capacity);
    vstd::arithmetic::div_mod::lemma_fundamental_div_mod(pos + gap, capacity);
    let q1 = pos / capacity;
    let q2 = (pos + gap) / capacity;
    if (pos + gap) % capacity == pos % capacity {
        assert(capacity * q2 - capacity * q1 == gap);
        assert(capacity * (q2 - q1) == gap) by (nonlinear_arith)
            requires
                capacity * q2 - capacity * q1 == gap,
        ;
        assert(false) by (nonlinear_arith)
            requires
                capacity * (q2 - q1) == gap,
                0 < gap < capacity,
        ;
    }
}

/// On an aligned ring a position and the one a whole round of the cursor
/// later fall on the same slot.
pub proof fn lemma_aligned_round(capacity: int, pos: int)
    requires
        0 < capacity,
        span() % capacity == 0,
    ensures
        (pos + span()) % capacity == pos % capacity,
{
    vstd::arithmetic::div_mod::lemma_fundamental_div_mod(span(), capacity);
    vstd::arithmetic::div_mod::lemma_mod_multiples_vanish(span() / capacity, pos, capacity);
}

/// Sending to a linked channel that has room leaves it linked and appends
/// the item to the queue, as long as the producer's cursor does not start
/// again on a ring that is not aligned.
pub proof fn lemma_push_linked<T, W>(s: ChannelState<T, W>, tail: usize, head: usize, item: T)
    requires
        s.linked(tail, head),
        !s.is_full(),
        tail < usize::MAX || s.aligned(),
    ensures
        s.pushed(tail, item).linked(next_cursor(tail), head),
        s.pushed(tail, item).queue(head) == s.queue(head).push(item),
{
    let t = s.pushed(tail, item);
    let cap = s.capacity as int;
    if tail != head + s.count {
        lemma_aligned_round(cap, tail as int);
    }
    assert(s.slot_of(tail as int) == s.slot_of(head + s.count));
    assert forall|i: int| 0 <= i < t.count implies (#[trigger] t.item_at(head, i)) is Some && t.item_at(
        head,
        i,
    )->Some_0 == s.queue(head).push(item)[i] by {
        if i < s.count {
            lemma_slots_distinct(cap, head + i, s.count - i);
            assert(s.item_at(head, i) is Some);
            assert(t.item_at(head, i) == s.item_at(head, i));
        }
    }
    assert(t.queue(head) =~= s.queue(head).push(item));
}

/// Which wakers are parked bears neither on the link nor on the queue.
pub proof fn lemma_wakers_apart<T, W>(
    s: ChannelState<T, W>,
    t: ChannelState<T, W>,
    tail: usize,
    head: usize,
)
    requires
        s.linked(tail, head),
        t.slots == s.slots,
        t.capacity == s.capacity,
        t.count == s.count,
    ensures
        t.linked(tail, head),
        t.queue(head) == s.queue(head),
{
    assert forall|i: int| 0 <= i < t.count implies (#[trigger] t.item_at(head, i)) is Some by {
        assert(s.item_at(head, i) is Some);
    }
    assert(t.queue(head) =~= s.queue(head));
}

/// Receiving from a linked channel that holds an item takes the oldest one
/// and leaves the channel linked, with the rest of the queue.
pub proof fn lemma_pop_linked<T, W>(s: ChannelState<T, W>, tail: usize, head: usize)
    requires
        s.linked(tail, head),
        s.count > 0,
    ensures
        s.front(head) == Some(s.queue(head)[0]),
        s.popped(head).linked(tail, next_cursor(head)),
        s.popped(head).queue(next_cursor(head)) == s.queue(head).drop_first(),
{
    let t = s.popped(head);
    let cap = s.capacity as int;
    let next = next_cursor(head);
    assert(s.item_at(head, 0) is Some);
    assert forall|i: int| 0 <= i < t.count implies (#[trigger] t.item_at(next, i)) is Some && t.item_at(
        next,
        i,
    )->Some_0 == s.queue(head).drop_first()[i] by {
        lemma_slots_distinct(cap, head as int, i + 1);
        if head == usize::MAX {
            lemma_aligned_round(cap, i);
        }
        assert(s.slot_of(next + i) == s.slot_of(head + i + 1));
        assert(s.item_at(head, i + 1) is Some);
        assert(t.item_at(next, i) == s.item_at(head, i + 1));
    }
    assert(t.queue(next) =~= s.queue(head).drop_first());
}

} // verus!
