//! A background task for each item.
//!
//! Each item gets a task of its own, with a copy of the wrapped stage. The
//! task passes what the stage puts out for the item on to the caller,
//! through a bounded queue made for that item alone, for as long as the run
//! has not been aborted: before each result it asks the context, and once
//! the abort has fired it passes on nothing more.

use crate::context::Context;
use crate::service::Service;
use crate::spsc::Poll;
use std::marker::PhantomData;
use vstd::prelude::*;

verus! {

/// What a task does next, given how far the stage's next result is: it
/// ends once the abort has fired or the stage is through, passes a result
/// on, or waits.
pub open spec fn relayed<T>(cx: &Context, next: Poll<Option<T>>) -> Poll<Option<T>> {
    match cx.fused(next) {
        Poll::Ready(Some(Some(res))) => Poll::Ready(Some(res)),
        Poll::Ready(_) => Poll::Ready(None),
        Poll::Pending => Poll::Pending,
    }
}

/// What the caller gets of the results `results` from a task that sees the
/// context `cx`: all of them, or nothing once the abort has fired.
pub open spec fn delivered<T>(cx: &Context, results: Seq<T>) -> Seq<T> {
    if cx.aborted() {
        Seq::empty()
    } else {
        results
    }
}

/// One step of a task: `Ready(Some(res))` to pass `res` on, `Ready(None)`
/// to end, `Pending` to wait for the stage.
pub fn relay<T>(cx: &Context, next: Poll<Option<T>>) -> (step: Poll<Option<T>>)
    ensures
        step == relayed(cx, next),
{
    match cx.fuse_abort(next) {
        Poll::Ready(Some(Some(res))) => Poll::Ready(Some(res)),
        Poll::Ready(_) => Poll::Ready(None),
        Poll::Pending => Poll::Pending,
    }
}

/// The whole of a task's work on results that are all there: it passes
/// them on one by one until `relay` has it end.
pub fn deliver<T>(cx: &Context, results: Vec<T>) -> (sent: Vec<T>)
    ensures
        sent@ == delivered(cx, results@),
{
    let ghost all = results@;
    let mut sent: Vec<T> = Vec::new();
    let mut live = true;
    for res in it: results
        invariant
            it.seq() == all,
            !cx.aborted() ==> live,
            cx.aborted() ==> sent@.len() == 0,
            !cx.aborted() ==> sent@ == all.take(it.index() as int),
    {
        if live {
            let ghost head = sent@;
            match relay(cx, Poll::Ready(Some(res))) {
                Poll::Ready(Some(passed)) => {
                    sent.push(passed);
                    assert(!cx.aborted() ==> head.push(passed) =~= all.take(it.index() + 1));
                },
                _ => {
                    live = false;
                },
            }
        }
    }
    assert(all.take(all.len() as int) =~= all);
    assert(sent@ =~= delivered(cx, all));
    sent
}

/// A stage that hands each item to a task of its own.
pub struct SpawnEach<M, S> {
    service: S,
    buffer: usize,
    _m: PhantomData<M>,
}

impl<M, S> SpawnEach<M, S> {
    /// The stage that every task gets a copy of.
    pub closed spec fn service(&self) -> S {
        self.service
    }

    /// The number of results that a task's queue holds.
    pub closed spec fn buffer(&self) -> usize {
        self.buffer
    }

    /// A stage that hands each item to a task with a copy of `service` and
    /// a queue of `buffer` results. A queue holds at least one result.
    pub fn new(service: S, buffer: usize) -> (stage: Self)
        requires
            buffer > 0,
        ensures
            stage.service() == service,
            stage.buffer() == buffer,
    {
        SpawnEach { service, buffer, _m: PhantomData }
    }

    /// The number of results that a task's queue holds.
    pub fn capacity(&self) -> (buffer: usize)
        ensures
            buffer == self.buffer(),
    {
        self.buffer
    }
}

impl<M, R, E, S> Service<M> for SpawnEach<M, S> where S: Clone + Service<M, Out = Result<R, E>> {
    type Out = Result<Vec<Result<R, E>>, E>;

    /// The stage is valid, and so is every copy of it.
    open spec fn wf(&self) -> bool {
        &&& self.buffer() > 0
        &&& self.service().wf()
        &&& forall|copy: S| cloned(self.service(), copy) ==> copy.wf()
    }

    /// The one output for an item is the sequence of the results that a
    /// copy of the stage puts out for it, as far as the task passes them
    /// on. The stage itself stays as it is.
    open spec fn handles(
        &self,
        input: M,
        cx: &Context,
        then: &Self,
        out: Seq<Result<Vec<Result<R, E>>, E>>,
    ) -> bool {
        &&& then.service() == self.service()
        &&& then.buffer() == self.buffer()
        &&& out.len() == 1
        &&& out[0] matches Ok(sent) && exists|copy: S, after: S, results: Seq<Result<R, E>>|
            #![trigger copy.handles(input, cx, &after, results)]
            cloned(self.service(), copy) && copy.handles(input, cx, &after, results) && sent@
                == delivered(cx, results)
    }

    fn handle(&mut self, input: M, cx: &Context) -> (out: Vec<Result<Vec<Result<R, E>>, E>>) {
        let mut service = self.service.clone();
        let ghost copy = service;
        let results = service.handle(input, cx);
        let ghost all = results@;
        let sent = deliver(cx, results);
        let mut out = Vec::new();
        out.push(Ok(sent));
        assert(cloned(self.service(), copy) && copy.handles(input, cx, &service, all));
        out
    }
}

/// A stage that hands each item to a task with a copy of `service` and a
/// queue of two results.
pub fn spawn_each<M, S>(service: S) -> (stage: SpawnEach<M, S>) where S: Service<M> + Clone
    ensures
        stage.service() == service,
        stage.buffer() == 2,
{
    SpawnEach::new(service, 2)
}

} // verus!
