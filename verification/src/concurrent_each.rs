//! The worker pool.
//!
//! A pool holds up to a fixed number of workers, each with a copy of the
//! wrapped stage. A worker takes the items sent to it one after the other
//! and puts the outputs for each on its queue, framed. Whoever sends an
//! item gets a reader for that worker's queue. The readers of one worker
//! take turns in the order in which they were handed out: a reader gets
//! nothing before the one ahead of it has read the end of its item.
//!
//! The workers run in the background; here, one step of that is the stage
//! handling one item, and the caller says when a worker takes it. A
//! worker's two queues are sequences without a bound: where a sender or a
//! worker would wait for room in a channel, the item waits in the sequence,
//! and comes out in the same order.

use crate::context::Context;
use crate::framing::{
    after_first, complete, first_item, frame, framed, framed_all, lemma_framed_all_push,
    lemma_mark, lemma_unframe, mark,
};
use crate::service::{streams, Service};
use crate::spsc::{next_cursor, Poll};
use std::marker::PhantomData;
use vstd::prelude::*;

verus! {

/// A reader for the outputs of one item on a worker's queue.
pub struct ConcurrentRx<T> {
    worker: usize,
    turn: usize,
    done: bool,
    m: PhantomData<T>,
}

impl<T> ConcurrentRx<T> {
    /// The place in the pool of the worker that this reader reads from.
    pub closed spec fn worker(&self) -> usize {
        self.worker
    }

    /// The reader's turn among the readers of its worker.
    pub closed spec fn turn(&self) -> usize {
        self.turn
    }

    /// Whether the reader has read the end of its item.
    pub closed spec fn done(&self) -> bool {
        self.done
    }

    /// The place in the pool of the worker that this reader reads from.
    pub fn index(&self) -> (index: usize)
        ensures
            index == self.worker(),
    {
        self.worker
    }

    /// Whether the reader has read the end of its item.
    pub fn is_done(&self) -> (done: bool)
        ensures
            done == self.done(),
    {
        self.done
    }
}

/// What a worker is made of: its stage, the items sent to it that it has
/// not taken yet, the framed outputs that nobody has read yet, the number
/// of readers handed out and the number of those that are through.
pub ghost struct WorkerState<I, S, O> {
    pub service: S,
    pub inbox: Seq<I>,
    pub outbox: Seq<Option<O>>,
    pub issued: usize,
    pub served: usize,
}

impl<I, S, O> WorkerState<I, S, O> {
    /// A worker that has not seen an item yet.
    pub open spec fn fresh(service: S) -> Self {
        WorkerState { service, inbox: Seq::empty(), outbox: Seq::empty(), issued: 0, served: 0 }
    }

    /// No reader of this worker is waiting or reading.
    pub open spec fn available(self) -> bool {
        self.issued == self.served
    }

    /// The worker after `input` was sent to it and a reader handed out.
    pub open spec fn sent(self, input: I) -> Self {
        WorkerState { inbox: self.inbox.push(input), issued: next_cursor(self.issued), ..self }
    }

    /// The worker after it took the first item sent to it, its stage became
    /// `service` and put out `outs`.
    pub open spec fn ran(self, service: S, outs: Seq<O>) -> Self {
        WorkerState {
            service,
            inbox: self.inbox.drop_first(),
            outbox: self.outbox + framed(outs),
            ..self
        }
    }

    /// The worker after the reader whose turn it is took one message.
    pub open spec fn read(self) -> Self {
        WorkerState {
            outbox: self.outbox.drop_first(),
            served: if self.outbox.first() is None {
                next_cursor(self.served)
            } else {
                self.served
            },
            ..self
        }
    }

    /// The worker after the reader whose turn it is took a whole item.
    pub open spec fn drained(self) -> Self {
        WorkerState { outbox: after_first(self.outbox), served: next_cursor(self.served), ..self }
    }
}

/// A worker puts the outputs for the item it has just handled behind
/// those for the items it handled before.
pub proof fn lemma_ran_in_turn<I, S, O>(
    worker: WorkerState<I, S, O>,
    items: Seq<Seq<O>>,
    service: S,
    outs: Seq<O>,
)
    requires
        worker.outbox == framed_all(items),
    ensures
        worker.ran(service, outs).outbox == framed_all(items.push(outs)),
{
    lemma_framed_all_push(items, outs);
}

/// The reader whose turn it is gets the outputs for the item that the
/// worker handled first among those not read yet, whole and unmixed, and
/// leaves those for the others to the readers behind it.
pub proof fn lemma_drained_in_turn<I, S, O>(worker: WorkerState<I, S, O>, items: Seq<Seq<O>>)
    requires
        worker.outbox == framed_all(items),
        items.len() > 0,
    ensures
        complete(worker.outbox),
        first_item(worker.outbox) == items.first(),
        worker.drained().outbox == framed_all(items.drop_first()),
        worker.drained().served == next_cursor(worker.served),
{
    lemma_unframe(items.first(), framed_all(items.drop_first()));
}

/// One worker of a pool.
pub struct ConcurrentTask<I, S: Service<I>> {
    #[allow(dead_code)]
    id: u32,
    service: S,
    inbox: Vec<I>,
    outbox: Vec<Option<S::Out>>,
    issued: usize,
    served: usize,
}

impl<I, S: Service<I>> View for ConcurrentTask<I, S> {
    type V = WorkerState<I, S, S::Out>;

    closed spec fn view(&self) -> Self::V {
        WorkerState {
            service: self.service,
            inbox: self.inbox@,
            outbox: self.outbox@,
            issued: self.issued,
            served: self.served,
        }
    }
}

/// The turn after `pos`.
fn following(pos: usize) -> (next: usize)
    ensures
        next == next_cursor(pos),
{
    if pos == usize::MAX {
        0
    } else {
        pos + 1
    }
}

impl<I, S: Service<I>> ConcurrentTask<I, S> {
    /// The number that the pool gave this worker.
    pub closed spec fn id(&self) -> u32 {
        self.id
    }

    /// A new worker around `service`.
    pub fn new(id: u32, service: S) -> (task: Self)
        ensures
            task@ == WorkerState::<I, S, S::Out>::fresh(service),
            task.id() == id,
    {
        ConcurrentTask { id, service, inbox: Vec::new(), outbox: Vec::new(), issued: 0, served: 0 }
    }

    /// Whether no reader of this worker is waiting or reading.
    #[inline]
    pub fn is_available(&self) -> (free: bool)
        ensures
            free == self@.available(),
    {
        self.issued == self.served
    }

    /// Sends `input` to the worker and hands out the reader for its
    /// outputs, whose turn comes after all the readers handed out before.
    #[inline]
    pub fn send(&mut self, worker: usize, input: I) -> (rx: ConcurrentRx<S::Out>)
        ensures
            final(self)@ == old(self)@.sent(input),
            final(self).id() == old(self).id(),
            rx.worker() == worker,
            rx.turn() == old(self)@.issued,
            !rx.done(),
    {
        self.inbox.push(input);
        let turn = self.issued;
        self.issued = following(turn);
        ConcurrentRx { worker, turn, done: false, m: PhantomData }
    }

    /// One step of the worker: it takes the first item sent to it, if
    /// there is one, has its stage handle it, and puts out the outputs and
    /// the end-of-item mark. Whether it took an item.
    pub fn run(&mut self, cx: &Context) -> (took: bool)
        requires
            old(self)@.service.wf(),
        ensures
            final(self)@.service.wf(),
            final(self).id() == old(self).id(),
            took == (old(self)@.inbox.len() > 0),
            !took ==> final(self)@ == old(self)@,
            took ==> exists|outs: Seq<S::Out>|
                #![trigger framed(outs)]
                old(self)@.service.handles(old(self)@.inbox.first(), cx, &final(self)@.service, outs)
                    && final(self)@ == old(self)@.ran(final(self)@.service, outs),
    {
        if self.inbox.len() == 0 {
            return false;
        }
        let item = self.inbox.remove(0);
        let outs = self.service.handle(item, cx);
        let ghost put = outs@;
        let mut queue = frame(outs);
        self.outbox.append(&mut queue);
        proof {
            assert(old(self)@.inbox.remove(0) =~= old(self)@.inbox.drop_first());
            assert(self@ == old(self)@.ran(self@.service, put));
        }
        true
    }

    /// One attempt of a reader to get its next output. The reader waits
    /// while it is not its turn and while the queue is empty. When it is
    /// through, the turn passes on.
    pub fn poll_next(&mut self, rx: &mut ConcurrentRx<S::Out>) -> (out: Poll<Option<S::Out>>)
        ensures
            final(self)@.service == old(self)@.service,
            final(self).id() == old(self).id(),
            final(rx).worker() == old(rx).worker(),
            final(rx).turn() == old(rx).turn(),
            old(rx).done() ==> out == Poll::<Option<S::Out>>::Ready(None) && final(rx).done()
                && final(self)@ == old(self)@,
            !old(rx).done() && (old(rx).turn() != old(self)@.served || old(self)@.outbox.len() == 0)
                ==> out is Pending && !final(rx).done() && final(self)@ == old(self)@,
            !old(rx).done() && old(rx).turn() == old(self)@.served && old(self)@.outbox.len() > 0
                ==> out == Poll::Ready(old(self)@.outbox.first()) && final(self)@ == old(self)@.read() && final(rx).done() == (old(self)@.outbox.first() is None),
    {
        if rx.done {
            return Poll::Ready(None);
        }
        if rx.turn != self.served || self.outbox.len() == 0 {
            return Poll::Pending;
        }
        let msg = self.outbox.remove(0);
        assert(old(self)@.outbox.remove(0) =~= old(self)@.outbox.drop_first());
        if msg.is_none() {
            rx.done = true;
            self.served = following(self.served);
        }
        Poll::Ready(msg)
    }
    /// A reader reads on until the end of its item, or until it has to
    /// wait. Where it is the reader's turn and the whole item is on the
    /// queue, the reader gets the outputs for that item and no others, and
    /// the turn passes on.
    pub fn drain(&mut self, rx: &mut ConcurrentRx<S::Out>) -> (outs: Vec<S::Out>)
        ensures
            final(self)@.service == old(self)@.service,
            final(self).id() == old(self).id(),
            final(rx).worker() == old(rx).worker(),
            final(rx).turn() == old(rx).turn(),
            old(rx).done() || old(rx).turn() != old(self)@.served ==> outs@.len() == 0 && final(self)@ == old(self)@ && final(rx).done() == old(rx).done(),
            !old(rx).done() && old(rx).turn() == old(self)@.served ==> outs@ == first_item(old(self)@.outbox) && final(rx).done() == complete(old(self)@.outbox) && final(self)@ == (if complete(old(self)@.outbox) {
                old(self)@.drained()
            } else {
                WorkerState { outbox: Seq::empty(), ..old(self)@ }
            }),
    {
        let ghost queue = self@.outbox;
        let ghost start = self@;
        let mut outs: Vec<S::Out> = Vec::new();
        let mut waiting = rx.done || rx.turn != self.served;
        proof {
            lemma_mark(queue);
            assert(queue.skip(0) =~= queue);
        }
        while !waiting
            invariant
                self.id() == old(self).id(),
                rx.worker() == old(rx).worker(),
                rx.turn() == old(rx).turn(),
                queue == old(self)@.outbox,
                start == old(self)@,
                0 <= mark(queue) <= queue.len(),
                forall|i: int| 0 <= i < mark(queue) ==> (#[trigger] queue[i]) is Some,
                complete(queue) ==> queue[mark(queue)] is None,
                old(rx).done() || old(rx).turn() != old(self)@.served ==> waiting && outs@.len()
                    == 0 && self@ == start && rx.done() == old(rx).done(),
                !old(rx).done() && old(rx).turn() == old(self)@.served ==> {
                    &&& outs@.len() <= mark(queue)
                    &&& forall|i: int| 0 <= i < outs@.len() ==> outs@[i] == queue[i]->Some_0
                    &&& !waiting ==> !rx.done() && self@ == WorkerState {
                        outbox: queue.skip(outs@.len() as int),
                        ..start
                    }
                    &&& waiting ==> outs@.len() == mark(queue) && rx.done() == complete(queue)
                        && self@ == (if complete(queue) {
                        start.drained()
                    } else {
                        WorkerState { outbox: Seq::empty(), ..start }
                    })
                },
            decreases queue.len() - outs@.len() + (if waiting { 0int } else { 1int }),
        {
            let ghost n = outs@.len() as int;
            match self.poll_next(rx) {
                Poll::Ready(Some(val)) => {
                    outs.push(val);
                    proof {
                        assert(queue.skip(n).first() == queue[n]);
                        assert(queue.skip(n).drop_first() =~= queue.skip(n + 1));
                    }
                },
                Poll::Ready(None) => {
                    waiting = true;
                    proof {
                        assert(queue.skip(n).first() == queue[n]);
                        assert(queue.skip(n).drop_first() =~= queue.skip(n + 1));
                    }
                },
                Poll::Pending => {
                    waiting = true;
                    proof {
                        assert(queue.skip(n) =~= Seq::empty());
                    }
                },
            }
        }
        assert(!old(rx).done() && old(rx).turn() == old(self)@.served ==> outs@ =~= first_item(queue));
        outs
    }
}

/// Looking through `free` from `start` on, once round, `at` is the first
/// free place; or no place is free, and `at` is `start`.
pub open spec fn picked(free: Seq<bool>, start: int, at: int) -> bool {
    &&& 0 <= start < free.len()
    &&& 0 <= at < free.len()
    &&& if exists|i: int| 0 <= i < free.len() && free[i] {
        &&& free[at]
        &&& forall|i: int| start <= i < free.len() && (at < start || i < at) ==> !free[i]
        &&& forall|i: int| 0 <= i < at && at < start ==> !free[i]
    } else {
        at == start
    }
}

/// Looks through `free` from `start` on, once round, for the first free
/// place. Where no place is free, the answer is `start`.
pub fn first_free(free: &Vec<bool>, start: usize) -> (at: usize)
    requires
        start < free@.len(),
    ensures
        picked(free@, start as int, at as int),
{
    let len = free.len();
    let mut idx = start;
    while idx < len
        invariant
            start <= idx <= len,
            len == free@.len(),
            forall|i: int| start <= i < idx ==> !free@[i],
        decreases len - idx,
    {
        if free[idx] {
            return idx;
        }
        idx += 1;
    }
    idx = 0;
    while idx < start
        invariant
            idx <= start < len,
            len == free@.len(),
            forall|i: int| start <= i < len ==> !free@[i],
            forall|i: int| 0 <= i < idx ==> !free@[i],
        decreases start - idx,
    {
        if free[idx] {
            return idx;
        }
        idx += 1;
    }
    start
}

/// Calls `fastrand::usize` on the range from zero up to `len`, without
/// `len` itself. The generator panics on an empty range, so `len` is not
/// zero; what it gives lies in the range. Nothing else is known of it.
#[verifier::external_body]
pub(crate) fn random_index(len: usize) -> (start: usize)
    requires
        len > 0,
    ensures
        start < len,
{
    fastrand::usize(0..len)
}

/// Picks a place among `free`, which is not empty: the first free one from
/// a place chosen at random on, once round, or that place if none is free.
pub fn choose_free(free: &Vec<bool>) -> (at: usize)
    requires
        free@.len() > 0,
    ensures
        exists|start: int| picked(free@, start, at as int),
{
    let start = random_index(free.len());
    let at = first_free(free, start);
    assert(picked(free@, start as int, at as int));
    at
}

/// A pool of workers around copies of one stage.
pub struct ConcurrentEach<I, S: Service<I>> {
    service: S,
    tasks: Vec<ConcurrentTask<I, S>>,
    _m: PhantomData<I>,
    limit: usize,
}

impl<I, S: Service<I>> ConcurrentEach<I, S> {
    /// The stage that every new worker gets a copy of.
    pub closed spec fn service(&self) -> S {
        self.service
    }

    /// The greatest number of workers.
    pub closed spec fn limit(&self) -> usize {
        self.limit
    }

    /// The workers, in the order in which they were made.
    pub closed spec fn workers(&self) -> Seq<WorkerState<I, S, S::Out>> {
        Seq::new(self.tasks@.len(), |i: int| self.tasks@[i]@)
    }

    /// For each worker, whether it is free.
    pub open spec fn free(&self) -> Seq<bool> {
        Seq::new(self.workers().len(), |i: int| self.workers()[i].available())
    }

    /// The validity of a pool: it may hold a worker and holds no more than
    /// it may, and every stage in it is valid.
    pub open spec fn valid(&self) -> bool {
        &&& 0 < self.limit()
        &&& self.workers().len() <= self.limit()
        &&& self.service().wf()
        &&& forall|i: int| 0 <= i < self.workers().len() ==> (#[trigger] self.workers()[i]).service.wf()
    }

    /// A pool without workers yet. It will hold up to `limit` of them.
    pub fn new(service: S, limit: usize) -> (pool: Self)
        requires
            limit > 0,
        ensures
            pool.service() == service,
            pool.limit() == limit,
            pool.workers().len() == 0,
    {
        ConcurrentEach { service, tasks: Vec::new(), _m: PhantomData, limit }
    }

    /// The number of workers.
    pub fn len(&self) -> (len: usize)
        ensures
            len == self.workers().len(),
    {
        self.tasks.len()
    }

    /// For each worker, whether it is free.
    pub fn availability(&self) -> (free: Vec<bool>)
        ensures
            free@ == self.free(),
    {
        let mut free: Vec<bool> = Vec::new();
        let mut idx: usize = 0;
        while idx < self.tasks.len()
            invariant
                idx <= self.tasks@.len(),
                free@.len() == idx,
                forall|i: int| 0 <= i < idx ==> free@[i] == self.free()[i],
            decreases self.tasks@.len() - idx,
        {
            free.push(self.tasks[idx].is_available());
            idx += 1;
        }
        assert(free@ =~= self.free());
        free
    }

    /// The worker to send the next item to when the pool is full: the
    /// first free one from `start` on, once round, or the one at `start`
    /// if none is free.
    pub fn pick(&self, start: usize) -> (at: usize)
        requires
            start < self.workers().len(),
        ensures
            picked(self.free(), start as int, at as int),
    {
        let free = self.availability();
        first_free(&free, start)
    }
}

impl<I, S: Service<I>> ConcurrentEach<I, S> {
    /// One step of the worker at `index`: it handles the first item sent
    /// to it, if there is one. Whether it took an item.
    pub fn run(&mut self, index: usize, cx: &Context) -> (took: bool)
        requires
            old(self).valid(),
            index < old(self).workers().len(),
        ensures
            final(self).valid(),
            final(self).service() == old(self).service(),
            final(self).limit() == old(self).limit(),
            took == (old(self).workers()[index as int].inbox.len() > 0),
            !took ==> final(self).workers() == old(self).workers(),
            took ==> exists|then: S, outs: Seq<S::Out>|
                #![trigger old(self).workers()[index as int].ran(then, outs)]
                old(self).workers()[index as int].service.handles(
                    old(self).workers()[index as int].inbox.first(),
                    cx,
                    &then,
                    outs,
                ) && final(self).workers() == old(self).workers().update(
                    index as int,
                    old(self).workers()[index as int].ran(then, outs),
                ),
    {
        assert(self.workers()[index as int].service.wf());
        let took = self.tasks[index].run(cx);
        proof {
            let before = old(self).workers();
            let worker = before[index as int];
            if took {
                let then = self.workers()[index as int].service;
                let outs = choose|outs: Seq<S::Out>|
                    #![trigger framed(outs)]
                    worker.service.handles(worker.inbox.first(), cx, &then, outs)
                        && self.workers()[index as int] == worker.ran(then, outs);
                assert(self.workers() =~= before.update(index as int, worker.ran(then, outs)));
            } else {
                assert(self.workers() =~= before);
            }
            assert forall|i: int| 0 <= i < self.workers().len() implies (
            #[trigger] self.workers()[i]).service.wf() by {
                if i != index {
                    assert(self.workers()[i] == before[i]);
                }
            }
        }
        took
    }

    /// One attempt of a reader to get its next output from its worker. A
    /// reader whose worker is not of this pool is at its end.
    pub fn poll_next(&mut self, rx: &mut ConcurrentRx<S::Out>) -> (out: Poll<Option<S::Out>>)
        ensures
            final(self).valid() == old(self).valid(),
            final(self).service() == old(self).service(),
            final(self).limit() == old(self).limit(),
            final(rx).worker() == old(rx).worker(),
            final(rx).turn() == old(rx).turn(),
            old(self).holds(*old(rx)) && !old(self).ready(*old(rx)) ==> out is Pending && !final(rx).done() && final(self).workers() == old(self).workers(),
            old(self).holds(*old(rx)) && old(self).ready(*old(rx)) ==> {
                let worker = old(self).workers()[old(rx).worker() as int];
                &&& out == Poll::Ready(worker.outbox.first())
                &&& final(rx).done() == (worker.outbox.first() is None)
                &&& final(self).workers() == old(self).workers().update(
                    old(rx).worker() as int,
                    worker.read(),
                )
            },
            !old(self).holds(*old(rx)) ==> out == Poll::<Option<S::Out>>::Ready(None) && final(rx).done() && final(self).workers() == old(self).workers(),
    {
        if rx.worker >= self.tasks.len() {
            rx.done = true;
            assert(self.workers() =~= old(self).workers());
            return Poll::Ready(None);
        }
        let ghost before = self.workers();
        let ghost at = rx.worker as int;
        let out = self.tasks[rx.worker].poll_next(rx);
        proof {
            if old(self).holds(*old(rx)) && old(self).ready(*old(rx)) {
                assert(self.workers() =~= before.update(at, before[at].read()));
            } else {
                assert(self.workers() =~= before);
            }
            if old(self).valid() {
                assert forall|i: int| 0 <= i < self.workers().len() implies (
                #[trigger] self.workers()[i]).service.wf() by {
                    assert(self.workers()[i].service == before[i].service);
                }
            }
            if self.valid() {
                assert forall|i: int| 0 <= i < before.len() implies (#[trigger] before[i]).service.wf() by {
                    assert(self.workers()[i].service == before[i].service);
                }
            }
        }
        out
    }

    /// A reader reads on until the end of its item, or until it has to
    /// wait. Where it is the reader's turn and its worker has put out the
    /// whole item, the reader gets the outputs for that item and no
    /// others, and the turn passes on.
    pub fn drain(&mut self, rx: &mut ConcurrentRx<S::Out>) -> (outs: Vec<S::Out>)
        ensures
            final(self).valid() == old(self).valid(),
            final(self).service() == old(self).service(),
            final(self).limit() == old(self).limit(),
            final(rx).worker() == old(rx).worker(),
            final(rx).turn() == old(rx).turn(),
            !old(self).holds(*old(rx)) ==> outs@.len() == 0 && final(rx).done() && final(self).workers() == old(self).workers(),
            old(self).holds(*old(rx)) ==> {
                let worker = old(self).workers()[old(rx).worker() as int];
                if old(rx).turn() != worker.served {
                    outs@.len() == 0 && !final(rx).done() && final(self).workers() == old(self).workers()
                } else {
                    &&& outs@ == first_item(worker.outbox)
                    &&& final(rx).done() == complete(worker.outbox)
                    &&& final(self).workers() == old(self).workers().update(
                        old(rx).worker() as int,
                        if complete(worker.outbox) {
                            worker.drained()
                        } else {
                            WorkerState { outbox: Seq::empty(), ..worker }
                        },
                    )
                }
            },
    {
        if rx.worker >= self.tasks.len() {
            rx.done = true;
            assert(self.workers() =~= old(self).workers());
            return Vec::new();
        }
        let ghost before = self.workers();
        let ghost at = rx.worker as int;
        let outs = self.tasks[rx.worker].drain(rx);
        proof {
            let worker = before[at];
            if old(rx).done() || old(rx).turn() != worker.served {
                assert(self.workers() =~= before);
            } else if complete(worker.outbox) {
                assert(self.workers() =~= before.update(at, worker.drained()));
            } else {
                assert(self.workers() =~= before.update(
                    at,
                    WorkerState { outbox: Seq::empty(), ..worker },
                ));
            }
            if old(self).valid() {
                assert forall|i: int| 0 <= i < self.workers().len() implies (
                #[trigger] self.workers()[i]).service.wf() by {
                    assert(self.workers()[i].service == before[i].service);
                }
            }
            if self.valid() {
                assert forall|i: int| 0 <= i < before.len() implies (#[trigger] before[i]).service.wf() by {
                    assert(self.workers()[i].service == before[i].service);
                }
            }
        }
        outs
    }

    /// The reader reads from a worker of this pool and is not through.
    pub open spec fn holds(&self, rx: ConcurrentRx<S::Out>) -> bool {
        !rx.done() && rx.worker() < self.workers().len()
    }

    /// It is the reader's turn, and its worker's queue is not empty.
    pub open spec fn ready(&self, rx: ConcurrentRx<S::Out>) -> bool {
        let worker = self.workers()[rx.worker() as int];
        rx.turn() == worker.served && worker.outbox.len() > 0
    }
}

impl<I, S: Service<I> + Clone> Clone for ConcurrentEach<I, S> {
    /// A copy of a pool starts without workers.
    fn clone(&self) -> (pool: Self)
        ensures
            cloned(self.service(), pool.service()),
            pool.limit() == self.limit(),
            pool.workers().len() == 0,
    {
        ConcurrentEach {
            service: self.service.clone(),
            tasks: Vec::new(),
            _m: PhantomData,
            limit: self.limit,
        }
    }
}

impl<I, S: Service<I>> ConcurrentEach<I, S> {
    /// Sending `input` may take it to the worker at `at`, with a reader
    /// whose turn is `turn`, and leave the workers as `after`. While the
    /// pool may still grow, the item goes to a new worker, which gets a
    /// copy of the stage. Once the pool is full, it goes to the first free
    /// worker from some place on, or to the worker at that place if none
    /// is free.
    pub open spec fn places(
        &self,
        input: I,
        at: int,
        turn: usize,
        after: Seq<WorkerState<I, S, S::Out>>,
    ) -> bool where S: Clone {
        if self.workers().len() < self.limit() {
            &&& at == self.workers().len()
            &&& turn == 0
            &&& exists|copy: S| #[trigger]
                cloned(self.service(), copy) && after == self.workers().push(
                    WorkerState::fresh(copy).sent(input),
                )
        } else {
            &&& exists|start: int| picked(self.free(), start, at)
            &&& turn == self.workers()[at].issued
            &&& after == self.workers().update(at, self.workers()[at].sent(input))
        }
    }
}

impl<I, R, E, S> Service<I> for ConcurrentEach<I, S> where
    S: Service<I, Out = Result<R, E>> + Clone,
 {
    type Out = Result<ConcurrentRx<Result<R, E>>, E>;

    /// The pool is valid, and so is every copy of its stage.
    open spec fn wf(&self) -> bool {
        &&& self.valid()
        &&& forall|copy: S| cloned(self.service(), copy) ==> copy.wf()
    }

    /// The one output for an item is the reader for its outputs, which
    /// the worker that got the item will put out.
    open spec fn handles(
        &self,
        input: I,
        cx: &Context,
        then: &Self,
        out: Seq<Result<ConcurrentRx<Result<R, E>>, E>>,
    ) -> bool {
        &&& then.service() == self.service()
        &&& then.limit() == self.limit()
        &&& out.len() == 1
        &&& out[0] matches Ok(rx) && !rx.done() && self.places(
            input,
            rx.worker() as int,
            rx.turn(),
            then.workers(),
        )
    }

    fn handle(&mut self, input: I, _cx: &Context) -> (out: Vec<
        Result<ConcurrentRx<Result<R, E>>, E>,
    >) {
        let ghost before = self.workers();
        let len = self.tasks.len();
        let index = if len < self.limit {
            let copy = self.service.clone();
            self.tasks.push(ConcurrentTask::new(len as u32, copy));
            assert(self.workers() =~= before.push(WorkerState::fresh(copy)));
            len
        } else {
            let free = self.availability();
            choose_free(&free)
        };
        let ghost mid = self.workers();
        let rx = self.tasks[index].send(index, input);
        let mut out = Vec::new();
        out.push(Ok(rx));
        proof {
            let at = index as int;
            assert(self.workers() =~= mid.update(at, mid[at].sent(input)));
            if before.len() < self.limit() {
                let copy = mid[at].service;
                assert(cloned(self.service(), copy));
                assert(self.workers() =~= before.push(WorkerState::fresh(copy).sent(input)));
            }
            assert forall|i: int| 0 <= i < self.workers().len() implies (
            #[trigger] self.workers()[i]).service.wf() by {
                if i < before.len() {
                    assert(self.workers()[i].service == before[i].service);
                }
            }
        }
        out
    }
}

/// A pool of up to `limit` workers around copies of `service`.
pub fn concurrent_each<I, S>(service: S, limit: usize) -> (pool: ConcurrentEach<I, S>) where
    S: Service<I> + Clone,

    requires
        limit > 0,
    ensures
        pool.service() == service,
        pool.limit() == limit,
        pool.workers().len() == 0,
{
    ConcurrentEach::new(service, limit)
}

/// The worker at place `k` has just been made for `input`: it holds that
/// item and nothing else, and the reader `got` is the first in its line.
pub open spec fn alone<I, S, R, E>(
    worker: WorkerState<I, S, Result<R, E>>,
    input: I,
    got: Result<ConcurrentRx<Result<R, E>>, E>,
    k: int,
) -> bool {
    &&& worker.inbox == seq![input]
    &&& worker.outbox.len() == 0
    &&& worker.served == 0
    &&& worker.issued == 1
    &&& got matches Ok(rx) && rx.worker() == k && rx.turn() == 0 && !rx.done()
}

/// Of no more items than a pool may hold workers, each goes to a worker
/// of its own, and its reader is the first and only one of that worker:
/// nothing that reader gets is the output for another item.
pub proof fn lemma_worker_each<I, R, E, S>(
    pool: ConcurrentEach<I, S>,
    inputs: Seq<I>,
    cx: &Context,
    then: ConcurrentEach<I, S>,
    out: Seq<Result<ConcurrentRx<Result<R, E>>, E>>,
) where S: Service<I, Out = Result<R, E>> + Clone
    requires
        pool.workers().len() == 0,
        inputs.len() <= pool.limit(),
        streams(pool, inputs, cx, then, out),
    ensures
        then.limit() == pool.limit(),
        out.len() == inputs.len(),
        then.workers().len() == inputs.len(),
        forall|k: int|
            0 <= k < inputs.len() ==> alone(#[trigger] then.workers()[k], inputs[k], out[k], k),
    decreases inputs.len(),
{
    if inputs.len() > 0 {
        let (mid, head, tail) = choose|
            mid: ConcurrentEach<I, S>,
            head: Seq<Result<ConcurrentRx<Result<R, E>>, E>>,
            tail: Seq<Result<ConcurrentRx<Result<R, E>>, E>>,
        |
            streams(pool, inputs.drop_last(), cx, mid, head) && mid.handles(
                inputs.last(),
                cx,
                &then,
                tail,
            ) && out =~= head + tail;
        lemma_worker_each(pool, inputs.drop_last(), cx, mid, head);
        let last = inputs.len() - 1;
        assert(mid.places(inputs.last(), last, 0, then.workers()));
        assert forall|k: int| 0 <= k < inputs.len() implies alone(
            #[trigger] then.workers()[k],
            inputs[k],
            out[k],
            k,
        ) by {
            if k < last {
                assert(then.workers()[k] == mid.workers()[k]);
                assert(inputs[k] == inputs.drop_last()[k]);
                assert(out[k] == head[k]);
            } else {
                assert(out[k] == tail[0]);
                assert(then.workers()[k].inbox =~= seq![inputs[k]]);
            }
        }
    }
}

/// A worker that got one item alone puts out the outputs for that item
/// and the end-of-item mark, and the reader of the item gets exactly those
/// outputs: it is that reader's turn, the outputs are whole and in order,
/// and after them the worker's queue is empty and the worker free.
pub proof fn lemma_own_outputs<I, S, R, E>(
    worker: WorkerState<I, S, Result<R, E>>,
    input: I,
    got: Result<ConcurrentRx<Result<R, E>>, E>,
    k: int,
    after: S,
    outs: Seq<Result<R, E>>,
)
    requires
        alone(worker, input, got, k),
    ensures
        got->Ok_0.turn() == worker.ran(after, outs).served,
        complete(worker.ran(after, outs).outbox),
        first_item(worker.ran(after, outs).outbox) == outs,
        worker.ran(after, outs).inbox.len() == 0,
        worker.ran(after, outs).drained().outbox.len() == 0,
        worker.ran(after, outs).drained().available(),
{
    lemma_unframe(outs, Seq::empty());
    assert(worker.ran(after, outs).outbox =~= framed(outs) + Seq::empty());
}

} // verus!
