//! Runs of channel operations, and what holds of every run.
//!
//! A `Link` is a channel core together with the cursors of its producer and
//! its consumer. Its steps are the state changes that `Sender::start_send`
//! and `Receiver::try_recv` make, as the operations of `Channel` show. The
//! theorems here say that a channel is a first-in, first-out queue, and
//! that closing it loses nothing.

use crate::spsc::{
    channel, next_cursor, slots_for, ChannelState, Poll, Receiver, SendError, Sender, Shared,
    TryRecvError, TrySendError,
};
use vstd::prelude::*;

verus! {

/// One operation on a channel.
pub enum Op<T> {
    /// The producer offers an item.
    Send(T),
    /// The consumer asks for an item.
    Recv,
}

/// A channel core with the cursors of its two handles.
pub struct Link<T, W> {
    pub core: ChannelState<T, W>,
    /// The producer's cursor.
    pub tail: usize,
    /// The consumer's cursor.
    pub head: usize,
}

impl<T, W> Link<T, W> {
    /// The handles agree with the core.
    pub open spec fn valid(self) -> bool {
        self.core.linked(self.tail, self.head)
    }

    /// The buffered items, oldest first.
    pub open spec fn queue(self) -> Seq<T> {
        self.core.queue(self.head)
    }

    /// Whether a send succeeds: the channel is open and has a free slot.
    pub open spec fn accepts(self) -> bool {
        !self.core.closed && !self.core.is_full()
    }

    /// The link after the producer has offered `item`.
    pub open spec fn send(self, item: T) -> Self {
        if self.accepts() {
            Link { core: self.core.pushed(self.tail, item), tail: next_cursor(self.tail), ..self }
        } else {
            self
        }
    }

    /// The link after the consumer has asked for an item.
    pub open spec fn recv(self) -> Self {
        if self.core.front(self.head) is Some {
            Link { core: self.core.popped(self.head), head: next_cursor(self.head), ..self }
        } else {
            self
        }
    }

    /// The link after the producer has closed the channel.
    pub open spec fn close(self) -> Self {
        Link { core: self.core.shut().consumer_woken(), ..self }
    }

    /// The link after one operation.
    pub open spec fn step(self, op: Op<T>) -> Self {
        match op {
            Op::Send(item) => self.send(item),
            Op::Recv => self.recv(),
        }
    }

    /// The link after the operations `ops`, in order.
    pub open spec fn run(self, ops: Seq<Op<T>>) -> Self
        decreases ops.len(),
    {
        if ops.len() == 0 {
            self
        } else {
            self.run(ops.drop_last()).step(ops.last())
        }
    }

    /// The items that the receives among `ops` got, in the order in which
    /// they got them.
    pub open spec fn received(self, ops: Seq<Op<T>>) -> Seq<T>
        decreases ops.len(),
    {
        if ops.len() == 0 {
            Seq::empty()
        } else {
            let before = self.run(ops.drop_last());
            let earlier = self.received(ops.drop_last());
            match (ops.last(), before.core.front(before.head)) {
                (Op::Recv, Some(item)) => earlier.push(item),
                _ => earlier,
            }
        }
    }

    /// The items of the sends among `ops` that succeeded, in the order in
    /// which they were offered.
    pub open spec fn accepted(self, ops: Seq<Op<T>>) -> Seq<T>
        decreases ops.len(),
    {
        if ops.len() == 0 {
            Seq::empty()
        } else {
            let before = self.run(ops.drop_last());
            let earlier = self.accepted(ops.drop_last());
            match ops.last() {
                Op::Send(item) => if before.accepts() {
                    earlier.push(item)
                } else {
                    earlier
                },
                Op::Recv => earlier,
            }
        }
    }

    /// No send among `ops` meets a closed channel or a full ring: at most
    /// as many items as there are slots are ever outstanding.
    pub open spec fn never_refused(self, ops: Seq<Op<T>>) -> bool {
        forall|k: int|
            0 <= k < ops.len() && ops[k] is Send ==> (#[trigger] self.run(ops.take(k))).accepts()
    }

    /// The link after `n` receives.
    pub open spec fn recvs(self, n: nat) -> Self
        decreases n,
    {
        if n == 0 {
            self
        } else {
            self.recvs((n - 1) as nat).recv()
        }
    }
}

/// The items of all the sends among `ops`, in order.
pub open spec fn offered<T>(ops: Seq<Op<T>>) -> Seq<T>
    decreases ops.len(),
{
    if ops.len() == 0 {
        Seq::empty()
    } else {
        match ops.last() {
            Op::Send(item) => offered(ops.drop_last()).push(item),
            Op::Recv => offered(ops.drop_last()),
        }
    }
}

/// A send leaves the link valid and appends to the queue exactly when it
/// is accepted, as long as the producer's cursor does not start again on a
/// ring that is not aligned.
pub proof fn lemma_send_step<T, W>(link: Link<T, W>, item: T)
    requires
        link.valid(),
        link.tail < usize::MAX || link.core.aligned(),
    ensures
        link.send(item).valid(),
        link.send(item).head == link.head,
        link.send(item).tail == link.tail || link.send(item).tail == next_cursor(link.tail),
        link.send(item).core.closed == link.core.closed,
        link.send(item).core.capacity == link.core.capacity,
        link.send(item).queue() == if link.accepts() {
            link.queue().push(item)
        } else {
            link.queue()
        },
{
    if link.accepts() {
        crate::spsc::lemma_push_linked(link.core, link.tail, link.head, item);
    }
}

/// A receive leaves the link valid and takes the oldest item, if any.
pub proof fn lemma_recv_step<T, W>(link: Link<T, W>)
    requires
        link.valid(),
    ensures
        link.recv().valid(),
        link.recv().tail == link.tail,
        link.recv().core.closed == link.core.closed,
        link.recv().core.capacity == link.core.capacity,
        link.core.front(link.head) is Some <==> link.queue().len() > 0,
        link.queue().len() > 0 ==> link.core.front(link.head) == Some(link.queue()[0])
            && link.recv().queue() == link.queue().drop_first(),
        link.queue().len() == 0 ==> link.recv() == link,
{
    if link.core.count > 0 {
        crate::spsc::lemma_pop_linked(link.core, link.tail, link.head);
    }
}

/// The run `ops` does not have the producer's cursor start again, unless
/// the ring is aligned: then the cursor may go round as often as it likes.
pub open spec fn in_step<T, W>(link: Link<T, W>, ops: Seq<Op<T>>) -> bool {
    link.core.aligned() || link.tail + ops.len() <= usize::MAX
}

/// First in, first out. After any run of sends and receives on a valid
/// link, the items received so far followed by the items still buffered
/// are the items buffered at the start followed by the items accepted, in
/// the order of their sends.
pub proof fn lemma_fifo<T, W>(link: Link<T, W>, ops: Seq<Op<T>>)
    requires
        link.valid(),
        in_step(link, ops),
    ensures
        link.run(ops).valid(),
        link.core.aligned() || link.run(ops).tail <= link.tail + ops.len(),
        link.run(ops).core.closed == link.core.closed,
        link.run(ops).core.capacity == link.core.capacity,
        link.received(ops) + link.run(ops).queue() == link.queue() + link.accepted(ops),
    decreases ops.len(),
{
    if ops.len() == 0 {
        assert(link.received(ops) + link.run(ops).queue() =~= link.queue() + link.accepted(ops));
    } else {
        let init = ops.drop_last();
        lemma_fifo(link, init);
        let before = link.run(init);
        match ops.last() {
            Op::Send(item) => {
                lemma_send_step(before, item);
                if before.accepts() {
                    assert(link.received(init) + before.queue().push(item) =~= (link.received(init)
                        + before.queue()).push(item));
                    assert((link.queue() + link.accepted(init)).push(item) =~= link.queue()
                        + link.accepted(init).push(item));
                }
            },
            Op::Recv => {
                lemma_recv_step(before);
                if before.queue().len() > 0 {
                    assert(link.received(init).push(before.queue()[0])
                        + before.queue().drop_first() =~= link.received(init) + before.queue());
                }
            },
        }
    }
}

/// Where no send is refused, every item offered is accepted.
pub proof fn lemma_all_accepted<T, W>(link: Link<T, W>, ops: Seq<Op<T>>)
    requires
        link.never_refused(ops),
    ensures
        link.accepted(ops) == offered(ops),
    decreases ops.len(),
{
    if ops.len() > 0 {
        let init = ops.drop_last();
        assert forall|k: int| 0 <= k < init.len() && init[k] is Send implies (#[trigger] link.run(
            init.take(k),
        )).accepts() by {
            assert(init.take(k) =~= ops.take(k));
            assert(ops[k] is Send);
        }
        lemma_all_accepted(link, init);
        assert(ops.take(ops.len() - 1) =~= init);
        if ops.last() is Send {
            assert(ops[ops.len() - 1] is Send);
            assert(link.run(ops.take(ops.len() - 1)).accepts());
        }
    }
}

/// On a channel that starts empty and never has more items outstanding
/// than it has slots, the items come out in exactly the order in which
/// they were sent: what was received, followed by what is still buffered,
/// is what was offered.
pub proof fn lemma_fifo_within_capacity<T, W>(link: Link<T, W>, ops: Seq<Op<T>>)
    requires
        link.valid(),
        link.queue().len() == 0,
        link.never_refused(ops),
        in_step(link, ops),
    ensures
        link.received(ops) + link.run(ops).queue() == offered(ops),
        link.received(ops).is_prefix_of(offered(ops)),
{
    lemma_fifo(link, ops);
    lemma_all_accepted(link, ops);
    assert(link.queue() + link.accepted(ops) =~= link.accepted(ops));
    let r = link.received(ops);
    let q = link.run(ops).queue();
    assert(r =~= (r + q).subrange(0, r.len() as int));
}

/// Closing keeps what is buffered.
pub proof fn lemma_close_keeps_queue<T, W>(link: Link<T, W>)
    requires
        link.valid(),
    ensures
        link.close().valid(),
        link.close().core.closed,
        link.close().queue() == link.queue(),
{
    crate::spsc::lemma_wakers_apart(link.core, link.close().core, link.tail, link.head);
}

/// A closed channel drains. With `n` items buffered in a closed channel,
/// each of the next `n` receives gets the next item in order, and the one
/// after them gets the end of the data: for each `k` up to `n`, after `k`
/// receives the rest of the queue is still buffered, and the next receive
/// gets item `k`, or the end if `k` is `n`.
pub proof fn lemma_drain_after_close<T, W>(link: Link<T, W>, k: nat)
    requires
        link.valid(),
        link.core.closed,
        k <= link.queue().len(),
    ensures
        link.recvs(k).valid(),
        link.recvs(k).core.closed,
        link.recvs(k).queue() == link.queue().skip(k as int),
        link.recvs(k).core.recv_outcome(link.recvs(k).head) == if k < link.queue().len() {
            Poll::Ready(Some(link.queue()[k as int]))
        } else {
            Poll::<Option<T>>::Ready(None)
        },
    decreases k,
{
    if k == 0 {
        assert(link.queue().skip(0) =~= link.queue());
    } else {
        let j = (k - 1) as nat;
        lemma_drain_after_close(link, j);
        let before = link.recvs(j);
        lemma_recv_step(before);
        assert(before.queue().drop_first() =~= link.queue().skip(k as int));
    }
    let now = link.recvs(k);
    lemma_recv_step(now);
    if k < link.queue().len() {
        assert(now.queue()[0] == link.queue()[k as int]);
    }
}

/// A channel with both its handles in one hand: the link, as it runs.
pub struct Channel<T, W> {
    pub shared: Shared<T, W>,
    pub tx: Sender<T>,
    pub rx: Receiver<T>,
}

impl<T, W> View for Channel<T, W> {
    type V = Link<T, W>;

    open spec fn view(&self) -> Link<T, W> {
        Link { core: self.shared@, tail: self.tx.cursor(), head: self.rx.cursor() }
    }
}

impl<T, W> Channel<T, W> {
    /// A new channel with room for `size` items and one more: open, empty,
    /// and a valid link.
    pub fn new(size: usize) -> (ch: Self)
        requires
            size < usize::MAX,
        ensures
            ch@.valid(),
            ch@.core == ChannelState::<T, W>::fresh(slots_for(size)),
            ch@.tail == 0,
            ch@.queue() == Seq::<T>::empty(),
    {
        let (shared, tx, rx) = channel(size);
        Channel { shared, tx, rx }
    }

    /// The producer offers `item`: the step `send` of the link. The item
    /// is taken if and only if the channel is open and not full; if not, it
    /// comes back, with `Disconnected` on a closed channel and `Full` on an
    /// open one.
    pub fn send(&mut self, item: T) -> (res: Result<(), TrySendError<T>>)
        requires
            old(self)@.core.wf(),
        ensures
            final(self)@ == old(self)@.send(item),
            res is Ok <==> old(self)@.accepts(),
            res matches Err(back) ==> back.val == item && back.err == if old(self)@.core.closed {
                SendError::Disconnected
            } else {
                SendError::Full
            },
    {
        self.tx.start_send(&mut self.shared, item)
    }

    /// The consumer asks for an item: the step `recv` of the link. It gets
    /// the front item if there is one; if not, nothing from an open channel
    /// and `Disconnected` from a closed one.
    pub fn recv(&mut self) -> (res: Result<Option<T>, TryRecvError>)
        requires
            old(self)@.core.wf(),
        ensures
            final(self)@ == old(self)@.recv(),
            res == match old(self)@.core.front(old(self)@.head) {
                Some(item) => Ok::<Option<T>, TryRecvError>(Some(item)),
                None => if old(self)@.core.closed {
                    Err::<Option<T>, TryRecvError>(TryRecvError::Disconnected)
                } else {
                    Ok::<Option<T>, TryRecvError>(None)
                },
            },
    {
        self.rx.try_recv(&mut self.shared)
    }

    /// The producer closes the channel: the step `close` of the link. The
    /// waker of a waiting consumer is handed out.
    pub fn close(&mut self) -> (peer: Option<W>)
        ensures
            final(self)@ == old(self)@.close(),
            peer == old(self)@.core.consumer,
    {
        self.tx.close(&mut self.shared)
    }
}

} // verus!
