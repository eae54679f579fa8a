//! Background tasks with a cap.
//!
//! Each item is handed to a background task, which has a copy of the
//! wrapped stage and a bounded queue of items to handle. A new item goes to
//! the first task that has room for it, looking from some place on. Where
//! none has room, a new task is made for it, up to a fixed number of tasks;
//! beyond that the item waits for the task at that place to take one of its
//! items. All the tasks put their outputs, framed, on one queue.
//!
//! The tasks run in the background; here, one step of that is a task's
//! stage handling one item, and the caller says when a task takes it. The
//! queue of outputs is a sequence without a bound: where a task would wait
//! for room, its outputs wait in the sequence.

use crate::concurrent_each::{picked, random_index};
use crate::context::Context;
use crate::framing::{
    after_first, complete, first_item, frame, framed, lemma_mark, lemma_unframe, mark,
};
use crate::service::Service;
use crate::spsc::{slots_for, SendError, TrySendError};
use vstd::prelude::*;

verus! {

/// The greatest number of tasks.
pub const MAX_SPAWN_TASKS: usize = 256;

/// What a task is made of: its stage, the items sent to it that it has not
/// taken yet, and the number of items that it has room for.
pub ghost struct TaskState<I, S> {
    pub service: S,
    pub inbox: Seq<I>,
    pub room: nat,
}

impl<I, S> TaskState<I, S> {
    /// One more item can be sent to the task.
    pub open spec fn has_room(self) -> bool {
        self.inbox.len() < self.room
    }

    /// The task after `input` was sent to it.
    pub open spec fn got(self, input: I) -> Self {
        TaskState { inbox: self.inbox.push(input), ..self }
    }

    /// The task after it took the first item sent to it and its stage
    /// became `service`.
    pub open spec fn took(self, service: S) -> Self {
        TaskState { service, inbox: self.inbox.drop_first(), ..self }
    }
}

/// One background task.
pub struct SpawnEachTask<I, S: Service<I>> {
    #[allow(dead_code)]
    id: u32,
    service: S,
    inbox: Vec<I>,
    room: usize,
}

impl<I, S: Service<I>> View for SpawnEachTask<I, S> {
    type V = TaskState<I, S>;

    closed spec fn view(&self) -> Self::V {
        TaskState { service: self.service, inbox: self.inbox@, room: self.room as nat }
    }
}

impl<I, S: Service<I>> SpawnEachTask<I, S> {
    /// The number of the task in its pool.
    pub closed spec fn id(&self) -> u32 {
        self.id
    }

    /// A new task around `service`, with `input` as the first item sent to
    /// it. Its queue has as many places as a channel asked for with
    /// `buffer`.
    pub fn new(id: u32, buffer: usize, service: S, input: I) -> (task: Self)
        requires
            buffer < usize::MAX,
        ensures
            task.id() == id,
            task@ == (TaskState { service, inbox: seq![input], room: slots_for(buffer) }),
    {
        let room: usize = if buffer + 1 > 2 {
            buffer + 1
        } else {
            2
        };
        let mut task = SpawnEachTask { id, service, inbox: Vec::new(), room };
        let _sent = task.try_send(input);
        assert(_sent is Ok);
        assert(task@.inbox =~= seq![input]);
        task
    }

    /// Sends `input` to the task if it has room. If not, the item comes
    /// back with `Full`.
    #[inline]
    pub fn try_send(&mut self, input: I) -> (sent: Result<(), TrySendError<I>>)
        ensures
            final(self).id() == old(self).id(),
            old(self)@.has_room() ==> sent is Ok && final(self)@ == old(self)@.got(input),
            !old(self)@.has_room() ==> sent == Err::<(), TrySendError<I>>(
                TrySendError { err: SendError::Full, val: input },
            ) && final(self)@ == old(self)@,
    {
        if self.inbox.len() < self.room {
            self.inbox.push(input);
            Ok(())
        } else {
            Err(TrySendError { err: SendError::Full, val: input })
        }
    }

    /// One step of the task: it takes the first item sent to it, if there
    /// is one, has its stage handle it, and puts the outputs and the
    /// end-of-item mark on `queue`. Whether it took an item.
    pub fn run(&mut self, cx: &Context, queue: &mut Vec<Option<S::Out>>) -> (took: bool)
        requires
            old(self)@.service.wf(),
        ensures
            final(self)@.service.wf(),
            final(self).id() == old(self).id(),
            took == (old(self)@.inbox.len() > 0),
            !took ==> final(self)@ == old(self)@ && final(queue)@ == old(queue)@,
            took ==> exists|outs: Seq<S::Out>|
                #![trigger framed(outs)]
                old(self)@.service.handles(old(self)@.inbox.first(), cx, &final(self)@.service, outs)
                    && final(self)@ == old(self)@.took(final(self)@.service) && final(queue)@
                    == old(queue)@ + framed(outs),
    {
        if self.inbox.len() == 0 {
            return false;
        }
        let item = self.inbox.remove(0);
        let outs = self.service.handle(item, cx);
        let ghost put = outs@;
        let mut frame = frame(outs);
        queue.append(&mut frame);
        proof {
            assert(old(self)@.inbox.remove(0) =~= old(self)@.inbox.drop_first());
            assert(self@ == old(self)@.took(self@.service));
            assert(queue@ == old(queue)@ + framed(put));
        }
        true
    }
}

/// What a pool of tasks is made of: the stage that every new task gets a
/// copy of, the tasks, and the framed outputs that nobody has read yet.
pub ghost struct SpawnState<I, S, O> {
    pub service: S,
    pub tasks: Seq<TaskState<I, S>>,
    pub outbox: Seq<Option<O>>,
}

impl<I, S: Service<I>> SpawnState<I, S, S::Out> {
    /// For each task, whether it has room for one more item.
    pub open spec fn rooms(self) -> Seq<bool> {
        Seq::new(self.tasks.len(), |i: int| self.tasks[i].has_room())
    }

    /// Some task has room for one more item.
    pub open spec fn has_room(self) -> bool {
        exists|i: int| 0 <= i < self.tasks.len() && self.rooms()[i]
    }

    /// The validity of a pool: it holds no more tasks than it may, every
    /// stage in it is valid, and every task has place for an item and holds
    /// no more items than it has place for.
    pub open spec fn valid(self) -> bool {
        &&& self.tasks.len() <= MAX_SPAWN_TASKS
        &&& self.service.wf()
        &&& forall|i: int|
            0 <= i < self.tasks.len() ==> (#[trigger] self.tasks[i]).service.wf() && 0
                < self.tasks[i].room && self.tasks[i].inbox.len() <= self.tasks[i].room
    }

    /// The pool after `input` was sent to the task at `at`.
    pub open spec fn sent(self, at: int, input: I) -> Self {
        SpawnState { tasks: self.tasks.update(at, self.tasks[at].got(input)), ..self }
    }

    /// One step of the task at `at` may leave the pool as `then`: the task
    /// takes the first item sent to it, if there is one, and puts out what
    /// its stage makes of it, and the end-of-item mark.
    pub open spec fn steps(self, at: int, cx: &Context, then: Self) -> bool {
        if self.tasks[at].inbox.len() == 0 {
            then == self
        } else {
            exists|after: S, outs: Seq<S::Out>|
                #![trigger self.tasks[at].took(after), framed(outs)]
                self.tasks[at].service.handles(self.tasks[at].inbox.first(), cx, &after, outs)
                    && then == (SpawnState {
                    tasks: self.tasks.update(at, self.tasks[at].took(after)),
                    outbox: self.outbox + framed(outs),
                    ..self
                })
        }
    }

    /// Looking from `start` on, `input` may go to the task at `at` and
    /// leave the pool as `then`. It goes to the first task that has room.
    /// Where none has, a new task is made for it while the pool may still
    /// grow; in a pool that may not, the task at `start` first takes one of
    /// its items, and then gets this one.
    pub open spec fn places(self, input: I, cx: &Context, start: int, at: int, then: Self) -> bool where
        S: Clone,
     {
        if self.has_room() {
            picked(self.rooms(), start, at) && then == self.sent(at, input)
        } else if self.tasks.len() < MAX_SPAWN_TASKS {
            &&& at == self.tasks.len()
            &&& exists|copy: S| #[trigger]
                cloned(self.service, copy) && then == (SpawnState {
                    tasks: self.tasks.push(
                        TaskState { service: copy, inbox: seq![input], room: slots_for(2) },
                    ),
                    ..self
                })
        } else {
            &&& at == start
            &&& 0 <= start < self.tasks.len()
            &&& exists|mid: Self| #[trigger] self.steps(start, cx, mid) && then == mid.sent(at, input)
        }
    }

    /// The pool after a reader took the outputs for one item off the queue;
    /// if the queue does not hold a whole item, the reader took what it
    /// holds.
    pub open spec fn drained(self) -> Self {
        SpawnState { outbox: after_first(self.outbox), ..self }
    }

    /// No task has an item to take, and nothing is left to read.
    pub open spec fn idle(self) -> bool {
        &&& self.outbox.len() == 0
        &&& forall|i: int| 0 <= i < self.tasks.len() ==> (#[trigger] self.tasks[i]).inbox.len() == 0
    }
}

/// A pool of background tasks around copies of one stage.
pub struct SpawnEach<I, S: Service<I>> {
    service: S,
    outbox: Vec<Option<S::Out>>,
    tasks: Vec<SpawnEachTask<I, S>>,
    counter: u32,
}

impl<I, S: Service<I>> View for SpawnEach<I, S> {
    type V = SpawnState<I, S, S::Out>;

    closed spec fn view(&self) -> Self::V {
        SpawnState {
            service: self.service,
            tasks: Seq::new(self.tasks@.len(), |i: int| self.tasks@[i]@),
            outbox: self.outbox@,
        }
    }
}

impl<I, S: Service<I>> SpawnEach<I, S> {
    /// The number of tasks made so far.
    pub closed spec fn counter(&self) -> u32 {
        self.counter
    }

    /// The validity of a pool with its count of tasks.
    pub open spec fn valid(&self) -> bool {
        self@.valid() && self.counter() == self@.tasks.len()
    }

    /// A pool without tasks yet.
    pub fn new(service: S) -> (pool: Self)
        ensures
            pool@ == (SpawnState::<I, S, S::Out> {
                service,
                tasks: Seq::empty(),
                outbox: Seq::empty(),
            }),
            pool.counter() == 0,
    {
        let pool = SpawnEach { service, outbox: Vec::new(), tasks: Vec::new(), counter: 0 };
        assert(pool@.tasks =~= Seq::empty());
        pool
    }

    /// The number of tasks.
    pub fn len(&self) -> (len: usize)
        ensures
            len == self@.tasks.len(),
    {
        self.tasks.len()
    }

    /// Offers `input` to the tasks from `from` up to `to`, in their order.
    /// The first that has room gets it; if none has, the item comes back.
    fn probe(&mut self, input: I, from: usize, to: usize) -> (sent: Result<usize, I>)
        requires
            from <= to <= old(self)@.tasks.len(),
        ensures
            final(self).counter() == old(self).counter(),
            match sent {
                Ok(at) => from <= at < to && old(self)@.rooms()[at as int] && final(self)@ == old(self)@.sent(at as int, input) && forall|i: int| from <= i < at ==> !old(self)@.rooms()[i],
                Err(back) => back == input && final(self)@ == old(self)@ && forall|i: int|
                    from <= i < to ==> !old(self)@.rooms()[i],
            },
    {
        let mut held = input;
        let mut idx = from;
        while idx < to
            invariant
                from <= idx <= to <= self@.tasks.len(),
                self.counter() == old(self).counter(),
                self@ == old(self)@,
                held == input,
                forall|i: int| from <= i < idx ==> !old(self)@.rooms()[i],
            decreases to - idx,
        {
            match self.tasks[idx].try_send(held) {
                Ok(()) => {
                    assert(self@.tasks =~= old(self)@.sent(idx as int, input).tasks);
                    return Ok(idx);
                },
                Err(err) => {
                    held = err.val;
                    assert(self@.tasks =~= old(self)@.tasks);
                },
            }
            idx += 1;
        }
        Err(held)
    }
}

impl<I, S: Service<I>> SpawnEach<I, S> {
    /// One step of the task at `index`: it handles the first item sent to
    /// it, if there is one. Whether it took an item.
    pub fn run(&mut self, index: usize, cx: &Context) -> (took: bool)
        requires
            old(self).valid(),
            index < old(self)@.tasks.len(),
        ensures
            final(self).valid(),
            final(self).counter() == old(self).counter(),
            took == (old(self)@.tasks[index as int].inbox.len() > 0),
            old(self)@.steps(index as int, cx, final(self)@),
    {
        let ghost before = self@;
        assert(before.tasks[index as int].service.wf());
        let took = self.tasks[index].run(cx, &mut self.outbox);
        proof {
            let at = index as int;
            let worker = before.tasks[at];
            if took {
                let after = self@.tasks[at].service;
                let outs = choose|outs: Seq<S::Out>|
                    #![trigger framed(outs)]
                    worker.service.handles(worker.inbox.first(), cx, &after, outs) && self@.tasks[at]
                        == worker.took(after) && self@.outbox == before.outbox + framed(outs);
                assert(self@.tasks =~= before.tasks.update(at, worker.took(after)));
                assert(self@ == (SpawnState {
                    tasks: before.tasks.update(at, worker.took(after)),
                    outbox: before.outbox + framed(outs),
                    ..before
                }));
            } else {
                assert(self@.tasks =~= before.tasks);
            }
            assert forall|i: int| 0 <= i < self@.tasks.len() implies (#[trigger] self@.tasks[i]).service.wf()
                && 0 < self@.tasks[i].room && self@.tasks[i].inbox.len() <= self@.tasks[i].room by {
                assert(before.tasks[i].service.wf());
                if i != at {
                    assert(self@.tasks[i] == before.tasks[i]);
                }
            }
        }
        took
    }

    /// A reader takes the outputs for one item off the queue: everything
    /// up to the first end-of-item mark, or, if there is no mark, all that
    /// the queue holds.
    pub fn drain_rx(&mut self) -> (outs: Vec<S::Out>)
        ensures
            final(self).valid() == old(self).valid(),
            final(self).counter() == old(self).counter(),
            outs@ == first_item(old(self)@.outbox),
            final(self)@ == old(self)@.drained(),
    {
        let ghost queue = self@.outbox;
        let mut outs: Vec<S::Out> = Vec::new();
        let mut through = false;
        proof {
            lemma_mark(queue);
            assert(queue.skip(0) =~= queue);
        }
        while !through
            invariant
                queue == old(self)@.outbox,
                self.counter() == old(self).counter(),
                self@.service == old(self)@.service,
                self@.tasks == old(self)@.tasks,
                0 <= mark(queue) <= queue.len(),
                forall|i: int| 0 <= i < mark(queue) ==> (#[trigger] queue[i]) is Some,
                complete(queue) ==> queue[mark(queue)] is None,
                outs@.len() <= mark(queue),
                forall|i: int| 0 <= i < outs@.len() ==> outs@[i] == queue[i]->Some_0,
                !through ==> self@.outbox == queue.skip(outs@.len() as int),
                through ==> outs@.len() == mark(queue) && self@.outbox == after_first(queue),
            decreases queue.len() - outs@.len() + (if through { 0int } else { 1int }),
        {
            let ghost n = outs@.len() as int;
            if self.outbox.len() == 0 {
                through = true;
                assert(after_first(queue) =~= Seq::empty());
            } else {
                let msg = self.outbox.remove(0);
                proof {
                    assert(queue.skip(n).first() == queue[n]);
                    assert(queue.skip(n).remove(0) =~= queue.skip(n + 1));
                }
                match msg {
                    Some(val) => {
                        outs.push(val);
                    },
                    None => {
                        through = true;
                    },
                }
            }
        }
        assert(outs@ =~= first_item(queue));
        outs
    }

    /// The validity of a pool whose stage has copies: every copy of a valid
    /// stage is valid.
    pub open spec fn sound(&self) -> bool where S: Clone {
        &&& self.valid()
        &&& forall|copy: S| cloned(self@.service, copy) ==> copy.wf()
    }

    /// Sends `input` to a task, looking for one with room from `start` on.
    /// The place of the task that got it.
    pub fn place(&mut self, input: I, start: usize, cx: &Context) -> (at: usize) where S: Clone
        requires
            old(self).sound(),
            start < old(self)@.tasks.len() || start == 0,
        ensures
            final(self).sound(),
            old(self)@.places(input, cx, start as int, at as int, final(self)@),
    {
        let ghost before = self@;
        let len = self.tasks.len();
        let held = match self.probe(input, start, len) {
            Ok(at) => {
                proof {
                    assert(before.rooms()[at as int]);
                    self.lemma_sent_valid(*old(self), at as int, input);
                }
                return at;
            },
            Err(back) => back,
        };
        let held = match self.probe(held, 0, start) {
            Ok(at) => {
                proof {
                    assert(before.rooms()[at as int]);
                    self.lemma_sent_valid(*old(self), at as int, input);
                }
                return at;
            },
            Err(back) => back,
        };
        assert(!before.has_room());
        if len < MAX_SPAWN_TASKS {
            let copy = self.service.clone();
            self.tasks.push(SpawnEachTask::new(self.counter, 2, copy, held));
            self.counter += 1;
            proof {
                let made = TaskState { service: copy, inbox: seq![input], room: slots_for(2) };
                assert(self@.tasks =~= before.tasks.push(made));
                assert(cloned(before.service, copy));
                assert(self@ == (SpawnState { tasks: before.tasks.push(made), ..before }));
                assert forall|i: int| 0 <= i < self@.tasks.len() implies (
                #[trigger] self@.tasks[i]).service.wf() && 0 < self@.tasks[i].room
                    && self@.tasks[i].inbox.len() <= self@.tasks[i].room by {
                    if i < len {
                        assert(before.tasks[i].service.wf());
                    }
                }
            }
            len
        } else {
            assert(!before.rooms()[start as int]);
            self.run(start, cx);
            let ghost mid = self@;
            let ghost mid_pool = *self;
            let _sent = self.tasks[start].try_send(held);
            proof {
                assert(self@.tasks =~= mid.sent(start as int, input).tasks);
                self.lemma_sent_valid(mid_pool, start as int, input);
            }
            start
        }
    }

    /// Sending an item to a task that has room leaves a valid pool valid.
    proof fn lemma_sent_valid(&self, before: Self, at: int, input: I)
        requires
            before.valid(),
            0 <= at < before@.tasks.len(),
            before@.tasks[at].has_room(),
            self@ == before@.sent(at, input),
            self.counter() == before.counter(),
        ensures
            self.valid(),
    {
        assert forall|i: int| 0 <= i < self@.tasks.len() implies (#[trigger] self@.tasks[i]).service.wf()
            && 0 < self@.tasks[i].room && self@.tasks[i].inbox.len() <= self@.tasks[i].room by {
            assert(before@.tasks[i].service.wf());
        }
    }
}

impl<I, S: Service<I> + Clone> Service<I> for SpawnEach<I, S> {
    type Out = S::Out;

    open spec fn wf(&self) -> bool {
        self.sound()
    }

    /// The item goes to a task, looking from some place on; that task
    /// takes a step; and the outputs are those for the first item on the
    /// queue.
    open spec fn handles(&self, input: I, cx: &Context, then: &Self, out: Seq<S::Out>) -> bool {
        exists|start: int, at: int, sent: SpawnState<I, S, S::Out>, ran: SpawnState<I, S, S::Out>|
            #![trigger self@.places(input, cx, start, at, sent), sent.steps(at, cx, ran)]
            self@.places(input, cx, start, at, sent) && sent.steps(at, cx, ran) && out
                == first_item(ran.outbox) && then@ == ran.drained()
    }

    fn handle(&mut self, input: I, cx: &Context) -> (out: Vec<S::Out>) {
        let index = if self.tasks.len() == 0 {
            0
        } else {
            random_index(self.tasks.len())
        };
        let at = self.place(input, index, cx);
        let ghost sent = self@;
        assert(at < self@.tasks.len());
        self.run(at, cx);
        let ghost ran = self@;
        let out = self.drain_rx();
        assert(old(self)@.places(input, cx, index as int, at as int, sent) && sent.steps(
            at as int,
            cx,
            ran,
        ));
        out
    }
}

/// A pool of background tasks around copies of `service`.
pub fn spawn_each<I, S>(service: S) -> (pool: SpawnEach<I, S>) where S: Service<I> + Clone
    ensures
        pool@ == (SpawnState::<I, S, S::Out> { service, tasks: Seq::empty(), outbox: Seq::empty() }),
        pool.counter() == 0,
{
    SpawnEach::new(service)
}

/// Where no task has an item to take and nothing is left to read, the
/// outputs for an item are what the stage of the task that gets it makes
/// of it, and afterwards the pool is at rest again. That task is a new one
/// in a pool without tasks, and else one of the tasks.
pub proof fn lemma_at_rest<I, S: Service<I> + Clone>(
    pool: SpawnEach<I, S>,
    input: I,
    cx: &Context,
    then: SpawnEach<I, S>,
    out: Seq<S::Out>,
)
    requires
        pool.wf(),
        pool@.idle(),
        pool.handles(input, cx, &then, out),
    ensures
        then@.idle(),
        then@.service == pool@.service,
        exists|at: int, stage: S|
            #![trigger stage.handles(input, cx, &then@.tasks[at].service, out)]
            0 <= at < then@.tasks.len() && stage.handles(input, cx, &then@.tasks[at].service, out)
                && if pool@.tasks.len() == 0 {
                cloned(pool@.service, stage)
            } else {
                at < pool@.tasks.len() && stage == pool@.tasks[at].service
            },
{
    let (start, at, sent, ran) = choose|
        start: int,
        at: int,
        sent: SpawnState<I, S, S::Out>,
        ran: SpawnState<I, S, S::Out>,
    |
        #![trigger pool@.places(input, cx, start, at, sent), sent.steps(at, cx, ran)]
        pool@.places(input, cx, start, at, sent) && sent.steps(at, cx, ran) && out == first_item(
            ran.outbox,
        ) && then@ == ran.drained();
    if pool@.tasks.len() > 0 {
        assert(pool@.tasks[0].inbox.len() == 0);
        assert(pool@.rooms()[0]);
        assert(pool@.tasks[at].inbox.len() == 0);
    }
    let stage = sent.tasks[at].service;
    assert(sent.tasks[at].inbox =~= seq![input]);
    let (after, outs) = choose|after: S, outs: Seq<S::Out>|
        #![trigger sent.tasks[at].took(after), framed(outs)]
        sent.tasks[at].service.handles(sent.tasks[at].inbox.first(), cx, &after, outs) && ran == (
        SpawnState {
            tasks: sent.tasks.update(at, sent.tasks[at].took(after)),
            outbox: sent.outbox + framed(outs),
            ..sent
        });
    lemma_unframe(outs, Seq::empty());
    assert(ran.outbox =~= framed(outs) + Seq::empty());
    assert(ran.tasks[at].inbox =~= Seq::empty());
    assert forall|i: int| 0 <= i < then@.tasks.len() implies (#[trigger] then@.tasks[i]).inbox.len()
        == 0 by {
        if i != at {
            assert(then@.tasks[i] == pool@.tasks[i]);
        }
    }
    assert(stage.handles(input, cx, &then@.tasks[at].service, out));
}

} // verus!
