//! Stages that run another stage on a part of each item.
//!
//! A selector picks from the item what the stage inside is to work on. The
//! stage inside handles that to the end; its outputs come out attached to
//! the item they belong to, either gathered into one list (`Scope`) or one
//! by one (`ScopeEach`). Where the selector fails the stage inside is not
//! run, and the failure comes out attached to the item.

use crate::context::Context;
use crate::either::Either;
use crate::service::Service;
use std::marker::PhantomData;
use vstd::prelude::*;

verus! {

/// A stage that runs `service` on what `f` selects from each item and puts
/// out the item with all the outputs gathered.
pub fn scope<I, M, E, S, F>(f: F, service: S) -> (stage: Scope<I, M, E, S, F>)
    ensures
        stage.f == f,
        stage.service == service,
{
    Scope { service, f, m: PhantomData }
}

/// A stage that puts out each item together with the gathered outputs of
/// the stage inside for it.
pub struct Scope<I, M, E, S, F> {
    pub service: S,
    pub f: F,
    pub m: PhantomData<(I, M, E)>,
}

impl<I, M, E, S: Clone, F: Clone> Clone for Scope<I, M, E, S, F> {
    fn clone(&self) -> (stage: Self)
        ensures
            cloned(self.service, stage.service),
            cloned(self.f, stage.f),
    {
        Scope { service: self.service.clone(), f: self.f.clone(), m: PhantomData }
    }
}

/// The results gathered into one: all the successes in order, or the first
/// failure.
pub open spec fn gathered<O, E>(results: Seq<Result<O, E>>) -> Result<Seq<O>, E>
    decreases results.len(),
{
    if results.len() == 0 {
        Ok(Seq::empty())
    } else {
        match gathered(results.drop_last()) {
            Err(err) => Err(err),
            Ok(head) => match results.last() {
                Ok(value) => Ok(head.push(value)),
                Err(err) => Err(err),
            },
        }
    }
}

/// What `Scope` attaches to an item for the results `results` of the stage
/// inside.
pub open spec fn attached<O, E, E1>(results: Seq<Result<O, E>>) -> Result<Seq<O>, Either<E, E1>> {
    match gathered(results) {
        Ok(values) => Ok(values),
        Err(err) => Err(Either::Left(err)),
    }
}

/// The list that `Scope` attaches, as a sequence.
pub open spec fn listed<O, X>(found: Result<Vec<O>, X>) -> Result<Seq<O>, X> {
    match found {
        Ok(values) => Ok(values@),
        Err(err) => Err(err),
    }
}

/// An output of `Scope`, with the attached list as a sequence.
pub open spec fn shown<I, O, X, E1>(res: Result<(I, Result<Vec<O>, X>), E1>) -> Result<
    (I, Result<Seq<O>, X>),
    E1,
> {
    match res {
        Ok((item, found)) => Ok((item, listed(found))),
        Err(err) => Err(err),
    }
}

/// A result of the stage inside, as `ScopeEach` attaches it.
pub open spec fn inner<O, E, E1>(res: Result<O, E>) -> Result<O, Either<E, E1>> {
    match res {
        Ok(value) => Ok(value),
        Err(err) => Err(Either::Left(err)),
    }
}

impl<I, M, E1, O, E, S, F> Service<I> for Scope<I, M, E1, S, F> where
    S: Service<M, Out = Result<O, E>>,
    F: Fn(&I) -> Result<M, E1>,
 {
    type Out = Result<(I, Result<Vec<O>, Either<E, E1>>), E1>;

    /// The selector takes every item, and the stage inside is valid.
    open spec fn wf(&self) -> bool {
        &&& forall|input: I| call_requires(self.f, (&input,))
        &&& self.service.wf()
    }

    open spec fn handles(
        &self,
        input: I,
        cx: &Context,
        then: &Self,
        out: Seq<Result<(I, Result<Vec<O>, Either<E, E1>>), E1>>,
    ) -> bool {
        &&& then.f == self.f
        &&& out.len() == 1
        &&& exists|made: Result<M, E1>, results: Seq<Result<O, E>>|
            #![trigger call_ensures(self.f, (&input,), made), attached::<O, E, E1>(results)]
            call_ensures(self.f, (&input,), made) && match made {
                Ok(part) => self.service.handles(part, cx, &then.service, results) && shown(out[0])
                    == Ok::<(I, Result<Seq<O>, Either<E, E1>>), E1>(
                    (input, attached::<O, E, E1>(results)),
                ),
                Err(err) => then.service == self.service && shown(out[0]) == Ok::<
                    (I, Result<Seq<O>, Either<E, E1>>),
                    E1,
                >((input, Err::<Seq<O>, Either<E, E1>>(Either::Right(err)))),
            }
    }

    fn handle(&mut self, msg: I, cx: &Context) -> (out: Vec<
        Result<(I, Result<Vec<O>, Either<E, E1>>), E1>,
    >) {
        let made = (self.f)(&msg);
        let ghost seen: Result<M, E1> = made;
        let ghost mut all: Seq<Result<O, E>> = Seq::empty();
        let found: Result<Vec<O>, Either<E, E1>> = match made {
            Ok(part) => {
                let results = self.service.handle(part, cx);
                proof {
                    all = results@;
                }
                attach(gather(results))
            },
            Err(err) => Err(Either::Right(err)),
        };
        let mut out: Vec<Result<(I, Result<Vec<O>, Either<E, E1>>), E1>> = Vec::new();
        out.push(Ok((msg, found)));
        assert(call_ensures(old(self).f, (&msg,), seen) && match seen {
            Ok(p) => old(self).service.handles(p, cx, &self.service, all) && shown(out@[0]) == Ok::<
                (I, Result<Seq<O>, Either<E, E1>>),
                E1,
            >((msg, attached::<O, E, E1>(all))),
            Err(e) => self.service == old(self).service && shown(out@[0]) == Ok::<
                (I, Result<Seq<O>, Either<E, E1>>),
                E1,
            >((msg, Err::<Seq<O>, Either<E, E1>>(Either::Right(e)))),
        });
        out
    }
}

/// What was gathered from the stage inside, as `Scope` attaches it.
fn attach<O, E, E1>(found: Result<Vec<O>, E>) -> (kept: Result<Vec<O>, Either<E, E1>>)
    ensures
        listed(kept) == match listed(found) {
            Ok(values) => Ok::<Seq<O>, Either<E, E1>>(values),
            Err(err) => Err::<Seq<O>, Either<E, E1>>(Either::Left(err)),
        },
{
    match found {
        Ok(values) => Ok(values),
        Err(err) => Err(Either::Left(err)),
    }
}

/// Gathers results into one: all the successes in order, or the first
/// failure.
pub fn gather<O, E>(results: Vec<Result<O, E>>) -> (found: Result<Vec<O>, E>)
    ensures
        listed(found) == gathered(results@),
{
    let ghost all = results@;
    let mut values: Vec<O> = Vec::new();
    let mut failed: Option<E> = None;
    for res in it: results
        invariant
            it.seq() == all,
            match failed {
                None => gathered(all.take(it.index() as int)) == Ok::<Seq<O>, E>(values@),
                Some(err) => gathered(all.take(it.index() as int)) == Err::<Seq<O>, E>(err),
            },
    {
        assert(all.take(it.index() + 1).drop_last() =~= all.take(it.index() as int));
        match res {
            Ok(value) => {
                if failed.is_none() {
                    values.push(value);
                }
            },
            Err(err) => {
                if failed.is_none() {
                    failed = Some(err);
                }
            },
        }
    }
    assert(all.take(all.len() as int) =~= all);
    match failed {
        None => Ok(values),
        Some(err) => Err(err),
    }
}

/// A stage that runs `service` on what `f` selects from each item and puts
/// out the item once with each output.
pub fn scope_each<I, M, E, S, F>(f: F, service: S) -> (stage: ScopeEach<I, M, E, S, F>)
    ensures
        stage.f == f,
        stage.service == service,
{
    ScopeEach { service, f, m: PhantomData }
}

/// A stage that puts out, for each output of the stage inside, a copy of
/// the item together with that output.
pub struct ScopeEach<I, M, E, S, F> {
    pub service: S,
    pub f: F,
    pub m: PhantomData<(I, M, E)>,
}

impl<I, M, E, S: Clone, F: Clone> Clone for ScopeEach<I, M, E, S, F> {
    fn clone(&self) -> (stage: Self)
        ensures
            cloned(self.service, stage.service),
            cloned(self.f, stage.f),
    {
        ScopeEach { service: self.service.clone(), f: self.f.clone(), m: PhantomData }
    }
}

/// The outputs `out` are copies of `input`, each with one of `results`, in
/// order.
pub open spec fn each_attached<I: Clone, O, E, E1>(
    input: I,
    results: Seq<Result<O, E>>,
    out: Seq<Result<(I, Result<O, Either<E, E1>>), E1>>,
) -> bool {
    &&& out.len() == results.len()
    &&& forall|i: int|
        0 <= i < out.len() ==> ((#[trigger] out[i]) matches Ok((item, found)) && cloned(
            input,
            item,
        ) && found == inner::<O, E, E1>(results[i]))
}

impl<I, M, E1, O, E, S, F> Service<I> for ScopeEach<I, M, E1, S, F> where
    I: Clone,
    S: Service<M, Out = Result<O, E>>,
    F: Fn(&I) -> Result<M, E1>,
 {
    type Out = Result<(I, Result<O, Either<E, E1>>), E1>;

    /// The selector takes every item, and the stage inside is valid.
    open spec fn wf(&self) -> bool {
        &&& forall|input: I| call_requires(self.f, (&input,))
        &&& self.service.wf()
    }

    open spec fn handles(
        &self,
        input: I,
        cx: &Context,
        then: &Self,
        out: Seq<Result<(I, Result<O, Either<E, E1>>), E1>>,
    ) -> bool {
        &&& then.f == self.f
        &&& exists|made: Result<M, E1>, results: Seq<Result<O, E>>|
            #![trigger call_ensures(self.f, (&input,), made), each_attached::<I, O, E, E1>(input, results, out)]
            call_ensures(self.f, (&input,), made) && match made {
                Ok(part) => self.service.handles(part, cx, &then.service, results)
                    && each_attached::<I, O, E, E1>(input, results, out),
                Err(err) => then.service == self.service && out == seq![
                    Ok::<(I, Result<O, Either<E, E1>>), E1>(
                        (input, Err::<O, Either<E, E1>>(Either::Right(err))),
                    ),
                ],
            }
    }

    fn handle(&mut self, msg: I, cx: &Context) -> (out: Vec<
        Result<(I, Result<O, Either<E, E1>>), E1>,
    >) {
        let made = (self.f)(&msg);
        let ghost seen: Result<M, E1> = made;
        let mut failed: Option<E1> = None;
        let results: Vec<Result<O, E>> = match made {
            Ok(part) => self.service.handle(part, cx),
            Err(err) => {
                failed = Some(err);
                Vec::new()
            },
        };
        let ghost all: Seq<Result<O, E>> = results@;
        let out = match failed {
            Some(err) => {
                let mut out: Vec<Result<(I, Result<O, Either<E, E1>>), E1>> = Vec::new();
                out.push(Ok((msg, Err(Either::Right(err)))));
                assert(out@ =~= seq![
                    Ok::<(I, Result<O, Either<E, E1>>), E1>(
                        (msg, Err::<O, Either<E, E1>>(Either::Right(err))),
                    ),
                ]);
                out
            },
            None => attach_each(msg, results),
        };
        let ghost framed = each_attached::<I, O, E, E1>(msg, all, out@);
        assert(call_ensures(old(self).f, (&msg,), seen) && match seen {
            Ok(p) => old(self).service.handles(p, cx, &self.service, all) && framed,
            Err(e) => self.service == old(self).service && out@ == seq![
                Ok::<(I, Result<O, Either<E, E1>>), E1>(
                    (msg, Err::<O, Either<E, E1>>(Either::Right(e))),
                ),
            ],
        });
        out
    }
}

/// A copy of `msg` with each of `results`, in order.
fn attach_each<I: Clone, O, E, E1>(msg: I, results: Vec<Result<O, E>>) -> (out: Vec<
    Result<(I, Result<O, Either<E, E1>>), E1>,
>)
    ensures
        each_attached::<I, O, E, E1>(msg, results@, out@),
{
    let ghost all: Seq<Result<O, E>> = results@;
    let mut out: Vec<Result<(I, Result<O, Either<E, E1>>), E1>> = Vec::new();
    for res in it: results
        invariant
            it.seq() == all,
            each_attached::<I, O, E, E1>(msg, all.take(it.index() as int), out@),
    {
        let found: Result<O, Either<E, E1>> = match res {
            Ok(value) => Ok(value),
            Err(err) => Err(Either::Left(err)),
        };
        out.push(Ok((msg.clone(), found)));
    }
    assert(all.take(all.len() as int) =~= all);
    out
}

} // verus!
