//! The stage contract: one input item in, a finite sequence of outputs out.

use crate::chain::Left;
use crate::concurrent_each::ConcurrentEach;
use crate::context::Context;
use crate::except::Except;
use crate::inspect::Inspect;
use crate::map::{filter_map, FilterMap, MapFn};
use crate::scope::{scope, scope_each, Scope, ScopeEach};
use crate::spawn_each::SpawnEach;
use std::marker::PhantomData;
use vstd::prelude::*;

verus! {

/// A pipeline stage. It consumes one item at a time and produces, for each,
/// a finite sequence of outputs; it may change its own state on the way.
pub trait Service<In>: Sized {
    /// What the stage puts out.
    type Out;

    /// The validity of a stage: what `handle` needs, and keeps. A stage
    /// that says nothing else is always valid.
    open spec fn wf(&self) -> bool {
        true
    }

    /// Handling `input` may leave the stage as `then` and put out `out`. Of
    /// a stage that says nothing else, nothing is known.
    open spec fn handles(&self, input: In, cx: &Context, then: &Self, out: Seq<Self::Out>) -> bool {
        true
    }

    /// Handles one item: the outputs for it, in the order produced.
    fn handle(&mut self, input: In, cx: &Context) -> (out: Vec<Self::Out>)
        requires
            old(self).wf(),
        ensures
            final(self).wf(),
            old(self).handles(input, cx, final(self), out@),
    ;

    /// Called once, after the last item has been handled. A stage that says
    /// nothing else does nothing then.
    #[inline]
    fn finalize(&mut self, _cx: &Context)
        requires
            old(self).wf(),
        ensures
            final(self).wf(),
    {
    }
}

/// Handling the items `inputs` one after the other may leave `stage` as
/// `then` and put out `out`: the outputs for each item in turn.
pub open spec fn streams<In, S: Service<In>>(
    stage: S,
    inputs: Seq<In>,
    cx: &Context,
    then: S,
    out: Seq<S::Out>,
) -> bool
    decreases inputs.len(),
{
    if inputs.len() == 0 {
        then == stage && out =~= Seq::empty()
    } else {
        exists|mid: S, head: Seq<S::Out>, tail: Seq<S::Out>|
            streams(stage, inputs.drop_last(), cx, mid, head) && mid.handles(
                inputs.last(),
                cx,
                &then,
                tail,
            ) && out =~= head + tail
    }
}

/// A run of a stage goes on by one item: its outputs follow those of the
/// items before it.
pub proof fn lemma_streams_push<In, S: Service<In>>(
    stage: S,
    inputs: Seq<In>,
    item: In,
    cx: &Context,
    mid: S,
    then: S,
    head: Seq<S::Out>,
    tail: Seq<S::Out>,
)
    requires
        streams(stage, inputs, cx, mid, head),
        mid.handles(item, cx, &then, tail),
    ensures
        streams(stage, inputs.push(item), cx, then, head + tail),
{
    let all = inputs.push(item);
    assert(all.drop_last() =~= inputs);
    assert(all.last() == item);
}

/// What every stage can do besides handling one item.
pub trait ServiceExt<In>: Service<In> {
    /// Handles a whole sequence of items, one after the other: all the
    /// outputs for an item, in the order produced, come before any output
    /// for the next item.
    fn handle_stream(&mut self, input: Vec<In>, cx: &Context) -> (out: Vec<Self::Out>)
        requires
            old(self).wf(),
        ensures
            final(self).wf(),
            streams(*old(self), input@, cx, *final(self), out@),
    {
        let ghost start = *self;
        let ghost items = input@;
        let mut out: Vec<Self::Out> = Vec::new();
        for item in it: input
            invariant
                self.wf(),
                it.seq() == items,
                streams(start, items.take(it.index() as int), cx, *self, out@),
        {
            let ghost before = *self;
            let ghost head = out@;
            let mut part = self.handle(item, cx);
            let ghost tail = part@;
            out.append(&mut part);
            proof {
                lemma_streams_push(start, items.take(it.index() as int), item, cx, before, *self, head, tail);
                assert(items.take(it.index() as int).push(item) =~= items.take(it.index() + 1));
            }
        }
        proof {
            assert(items.take(items.len() as int) =~= items);
        }
        out
    }

    /// This stage, and then `service` on each of its successes.
    #[inline]
    fn flow<O1, O2, E1, E2, U>(self, service: U) -> (pair: (Self, U)) where
        Self: Service<In, Out = Result<O1, E1>>,
        U: Service<O1, Out = Result<O2, E2>>,

        ensures
            pair.0 == self,
            pair.1 == service,
    {
        (self, service)
    }

    /// This stage, with `on_err` deciding what becomes of each failure.
    #[inline]
    fn except<F>(self, on_err: F) -> (stage: Except<Self, F>)
        ensures
            stage.service == self,
            stage.on_err == on_err,
    {
        Except { service: self, on_err }
    }

    /// This stage, with `f` called on each of its successes, which pass
    /// unchanged.
    #[inline]
    fn flow_inspect<O, E, F>(self, f: F) -> (stage: Left<Self, Inspect<O, F>>) where
        Self: Service<In, Out = Result<O, E>>,
        F: Fn(&O),

        ensures
            stage.0 == self,
            stage.1.cb == f,
    {
        Left(self, Inspect::<O, F> { cb: f, m: PhantomData })
    }

    /// A pool of up to `limit` workers around copies of this stage.
    #[inline]
    fn concurrent_each(self, limit: usize) -> (pool: ConcurrentEach<In, Self>) where Self: Clone
        requires
            limit > 0,
        ensures
            pool.service() == self,
            pool.limit() == limit,
            pool.workers().len() == 0,
    {
        ConcurrentEach::new(self, limit)
    }

    /// A stage that hands each item to a background task with a copy of
    /// this stage and a queue of two results.
    #[inline]
    fn spawn_each(self) -> (stage: SpawnEach<In, Self>) where Self: Clone
        ensures
            stage.service() == self,
            stage.buffer() == 2,
    {
        SpawnEach::new(self, 2)
    }

    /// This stage, and then the stage `s` run on what `f` makes of each
    /// item, with the item kept beside what `s` puts out for it.
    #[inline]
    fn flow_scope<O, M, E1, S, F>(self, f: F, s: S) -> (pair: (Self, Scope<O, M, E1, S, F>)) where
        F: Fn(&O) -> Result<M, E1>,

        ensures
            pair.0 == self,
            pair.1.service == s,
            pair.1.f == f,
    {
        (self, scope(f, s))
    }

    /// This stage, and then the stage `s` run on what `f` makes of each
    /// item, with a copy of the item beside each of the outputs of `s`.
    #[inline]
    fn flow_scope_each<O, M, E1, S, F>(self, f: F, s: S) -> (pair: (
        Self,
        ScopeEach<O, M, E1, S, F>,
    )) where F: Fn(&O) -> Result<M, E1>, O: Clone
        ensures
            pair.0 == self,
            pair.1.service == s,
            pair.1.f == f,
    {
        (self, scope_each(f, s))
    }

    /// This stage, with `f` applied to each of its successes.
    #[inline]
    fn flow_map<O1, O2, E1, F>(self, f: F) -> (stage: Left<Self, MapFn<O2, F>>) where
        Self: Service<In, Out = Result<O1, E1>>,
        F: Fn(O1) -> O2,

        ensures
            stage.0 == self,
            stage.1.map == f,
    {
        Left(self, crate::map::map::<O2, _>(f))
    }

    /// This stage, with `f` applied to each of its successes, and the
    /// success dropped where `f` answers `None`.
    #[inline]
    fn flow_filter_map<O1, O2, E1, F>(self, f: F) -> (stage: Left<Self, FilterMap<O2, F>>) where
        Self: Service<In, Out = Result<O1, E1>>,
        F: Fn(O1) -> Option<O2>,

        ensures
            stage.0 == self,
            stage.1.map == f,
    {
        Left(self, filter_map::<O2, _>(f))
    }
}

impl<In, T: Service<In>> ServiceExt<In> for T {
}

} // verus!
