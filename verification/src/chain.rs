//! Two stages in a row.
//!
//! The first stage handles an item to the end; each of its outputs, in the
//! order produced, is handed to the second stage, whose outputs for it come
//! out before the next output of the first is looked at. Of two fallible
//! stages the failures of the first go round the second, and the error of
//! the pair says which of the two failed.

use crate::context::Context;
use crate::either::Either;
use crate::service::{lemma_streams_push, streams, Service, ServiceExt};
use vstd::prelude::*;

verus! {

/// A result of the second stage, as the pair puts it out.
pub open spec fn right<O, E1, E2>(res: Result<O, E2>) -> Result<O, Either<E1, E2>> {
    match res {
        Ok(value) => Ok::<O, Either<E1, E2>>(value),
        Err(err) => Err::<O, Either<E1, E2>>(Either::Right(err)),
    }
}

/// The results `part` of the second stage, as the pair puts them out.
pub open spec fn rights<O, E1, E2>(part: Seq<Result<O, E2>>) -> Seq<Result<O, Either<E1, E2>>> {
    Seq::new(part.len(), |i: int| right::<O, E1, E2>(part[i]))
}

/// The outputs `part` of an infallible second stage, as successes.
pub open spec fn oks<O, E>(part: Seq<O>) -> Seq<Result<O, E>> {
    Seq::new(part.len(), |i: int| Ok::<O, E>(part[i]))
}

/// Handing the results `mid` of a first stage on to the fallible stage
/// `second` may leave it as `then` and put out `out`: for each success the
/// second stage's results, for each failure the failure itself.
pub open spec fn forwards<O1, E1, O2, E2, S2: Service<O1, Out = Result<O2, E2>>>(
    second: S2,
    mid: Seq<Result<O1, E1>>,
    cx: &Context,
    then: S2,
    out: Seq<Result<O2, Either<E1, E2>>>,
) -> bool
    decreases mid.len(),
{
    if mid.len() == 0 {
        then == second && out.len() == 0
    } else {
        match mid.last() {
            Ok(value) => exists|
                at: S2,
                head: Seq<Result<O2, Either<E1, E2>>>,
                tail: Seq<Result<O2, E2>>,
            |
                #![trigger at.handles(value, cx, &then, tail), head.add(rights::<O2, E1, E2>(tail))]
                forwards(second, mid.drop_last(), cx, at, head) && at.handles(
                    value,
                    cx,
                    &then,
                    tail,
                ) && out =~= head.add(rights::<O2, E1, E2>(tail)),
            Err(err) => exists|head: Seq<Result<O2, Either<E1, E2>>>|
                forwards(second, mid.drop_last(), cx, then, head) && out =~= head.push(
                    Err::<O2, Either<E1, E2>>(Either::Left(err)),
                ),
        }
    }
}

/// Handing the results `mid` of a first stage on to the infallible stage
/// `second` may leave it as `then` and put out `out`: for each success the
/// second stage's outputs as successes, for each failure the failure.
pub open spec fn forwards_ok<O1, E, S2: Service<O1>>(
    second: S2,
    mid: Seq<Result<O1, E>>,
    cx: &Context,
    then: S2,
    out: Seq<Result<S2::Out, E>>,
) -> bool
    decreases mid.len(),
{
    if mid.len() == 0 {
        then == second && out.len() == 0
    } else {
        match mid.last() {
            Ok(value) => exists|at: S2, head: Seq<Result<S2::Out, E>>, tail: Seq<S2::Out>|
                #![trigger at.handles(value, cx, &then, tail), head.add(oks::<S2::Out, E>(tail))]
                forwards_ok(second, mid.drop_last(), cx, at, head) && at.handles(
                    value,
                    cx,
                    &then,
                    tail,
                ) && out =~= head.add(oks::<S2::Out, E>(tail)),
            Err(err) => exists|head: Seq<Result<S2::Out, E>>|
                forwards_ok(second, mid.drop_last(), cx, then, head) && out =~= head.push(
                    Err::<S2::Out, E>(err),
                ),
        }
    }
}

/// Forwarding goes on by a success of the first stage: the second stage's
/// results for it follow what came before.
pub proof fn lemma_forwards_success<O1, E1, O2, E2, S2: Service<O1, Out = Result<O2, E2>>>(
    second: S2,
    mid: Seq<Result<O1, E1>>,
    value: O1,
    cx: &Context,
    at: S2,
    then: S2,
    head: Seq<Result<O2, Either<E1, E2>>>,
    tail: Seq<Result<O2, E2>>,
)
    requires
        forwards(second, mid, cx, at, head),
        at.handles(value, cx, &then, tail),
    ensures
        forwards(second, mid.push(Ok(value)), cx, then, head + rights::<O2, E1, E2>(tail)),
{
    let all = mid.push(Ok::<O1, E1>(value));
    let out = head + rights::<O2, E1, E2>(tail);
    assert(all.drop_last() =~= mid);
    assert(all.last() is Ok && all.last()->Ok_0 == value);
    assert(at.handles(all.last()->Ok_0, cx, &then, tail));
    assert(exists|a: S2, h: Seq<Result<O2, Either<E1, E2>>>, t: Seq<Result<O2, E2>>|
        forwards(second, all.drop_last(), cx, a, h) && a.handles(all.last()->Ok_0, cx, &then, t)
            && out =~= h + rights::<O2, E1, E2>(t));
    assert(forwards(second, all, cx, then, out));
}

/// Forwarding goes on by a failure of the first stage: the failure follows
/// what came before, and the second stage stays as it is.
pub proof fn lemma_forwards_failure<O1, E1, O2, E2, S2: Service<O1, Out = Result<O2, E2>>>(
    second: S2,
    mid: Seq<Result<O1, E1>>,
    err: E1,
    cx: &Context,
    then: S2,
    head: Seq<Result<O2, Either<E1, E2>>>,
)
    requires
        forwards(second, mid, cx, then, head),
    ensures
        forwards(
            second,
            mid.push(Err(err)),
            cx,
            then,
            head.push(Err::<O2, Either<E1, E2>>(Either::Left(err))),
        ),
{
    let all = mid.push(Err::<O1, E1>(err));
    let out = head.push(Err::<O2, Either<E1, E2>>(Either::Left(err)));
    assert(all.drop_last() =~= mid);
    assert(all.last() is Err && all.last()->Err_0 == err);
    assert(forwards(second, all.drop_last(), cx, then, head) && out =~= head.push(
        Err::<O2, Either<E1, E2>>(Either::Left(err)),
    ));
    assert(forwards(second, all, cx, then, out));
}

/// Forwarding to an infallible stage goes on by a success of the first.
pub proof fn lemma_forwards_ok_success<O1, E, S2: Service<O1>>(
    second: S2,
    mid: Seq<Result<O1, E>>,
    value: O1,
    cx: &Context,
    at: S2,
    then: S2,
    head: Seq<Result<S2::Out, E>>,
    tail: Seq<S2::Out>,
)
    requires
        forwards_ok(second, mid, cx, at, head),
        at.handles(value, cx, &then, tail),
    ensures
        forwards_ok(second, mid.push(Ok(value)), cx, then, head + oks::<S2::Out, E>(tail)),
{
    let all = mid.push(Ok::<O1, E>(value));
    let out = head + oks::<S2::Out, E>(tail);
    assert(all.drop_last() =~= mid);
    assert(all.last() is Ok && all.last()->Ok_0 == value);
    assert(at.handles(all.last()->Ok_0, cx, &then, tail));
    assert(exists|a: S2, h: Seq<Result<S2::Out, E>>, t: Seq<S2::Out>|
        forwards_ok(second, all.drop_last(), cx, a, h) && a.handles(all.last()->Ok_0, cx, &then, t)
            && out =~= h + oks::<S2::Out, E>(t));
    assert(forwards_ok(second, all, cx, then, out));
}

/// Forwarding to an infallible stage goes on by a failure of the first.
pub proof fn lemma_forwards_ok_failure<O1, E, S2: Service<O1>>(
    second: S2,
    mid: Seq<Result<O1, E>>,
    err: E,
    cx: &Context,
    then: S2,
    head: Seq<Result<S2::Out, E>>,
)
    requires
        forwards_ok(second, mid, cx, then, head),
    ensures
        forwards_ok(second, mid.push(Err(err)), cx, then, head.push(Err::<S2::Out, E>(err))),
{
    let all = mid.push(Err::<O1, E>(err));
    let out = head.push(Err::<S2::Out, E>(err));
    assert(all.drop_last() =~= mid);
    assert(all.last() is Err && all.last()->Err_0 == err);
    assert(forwards_ok(second, all.drop_last(), cx, then, head) && out =~= head.push(
        Err::<S2::Out, E>(err),
    ));
    assert(forwards_ok(second, all, cx, then, out));
}

/// Appends the results of a second stage to `out`, as the pair puts them
/// out.
fn push_rights<O, E1, E2>(out: &mut Vec<Result<O, Either<E1, E2>>>, part: Vec<Result<O, E2>>)
    ensures
        final(out)@ == old(out)@ + rights::<O, E1, E2>(part@),
{
    let ghost head = out@;
    let ghost all = part@;
    for res in it: part
        invariant
            it.seq() == all,
            out@ == head + rights::<O, E1, E2>(all.take(it.index() as int)),
    {
        out.push(
            match res {
                Ok(value) => Ok(value),
                Err(err) => Err(Either::Right(err)),
            },
        );
        assert(out@ =~= head + rights::<O, E1, E2>(all.take(it.index() + 1)));
    }
    assert(all.take(all.len() as int) =~= all);
}

/// Appends the outputs of an infallible second stage to `out`, as
/// successes.
fn push_oks<O, E>(out: &mut Vec<Result<O, E>>, part: Vec<O>)
    ensures
        final(out)@ == old(out)@ + oks::<O, E>(part@),
{
    let ghost head = out@;
    let ghost all = part@;
    for value in it: part
        invariant
            it.seq() == all,
            out@ == head + oks::<O, E>(all.take(it.index() as int)),
    {
        out.push(Ok(value));
        assert(out@ =~= head + oks::<O, E>(all.take(it.index() + 1)));
    }
    assert(all.take(all.len() as int) =~= all);
}

impl<I, O1, E1, O2, E2, S1, S2> Service<I> for (S1, S2) where
    S1: Service<I, Out = Result<O1, E1>>,
    S2: Service<O1, Out = Result<O2, E2>>,
 {
    type Out = Result<O2, Either<E1, E2>>;

    open spec fn wf(&self) -> bool {
        self.0.wf() && self.1.wf()
    }

    open spec fn handles(&self, input: I, cx: &Context, then: &Self, out: Seq<Result<O2, Either<E1, E2>>>) -> bool {
        exists|mid: Seq<Result<O1, E1>>|
            self.0.handles(input, cx, &then.0, mid) && forwards::<O1, E1, O2, E2, S2>(self.1, mid, cx, then.1, out)
    }

    fn handle(&mut self, msg: I, cx: &Context) -> (out: Vec<Result<O2, Either<E1, E2>>>) {
        let first = self.0.handle(msg, cx);
        let ghost mid: Seq<Result<O1, E1>> = first@;
        let ghost start: S2 = self.1;
        let ghost ahead: S1 = self.0;
        let mut out: Vec<Result<O2, Either<E1, E2>>> = Vec::new();
        for res in it: first
            invariant
                self.0 == ahead,
                self.1.wf(),
                it.seq() == mid,
                forwards::<O1, E1, O2, E2, S2>(start, mid.take(it.index() as int), cx, self.1, out@),
        {
            let ghost at: S2 = self.1;
            let ghost head: Seq<Result<O2, Either<E1, E2>>> = out@;
            let ghost seen: Seq<Result<O1, E1>> = mid.take(it.index() as int);
            assert(seen.push(res) =~= mid.take(it.index() + 1));
            match res {
                Ok(ok) => {
                    let part = self.1.handle(ok, cx);
                    let ghost tail: Seq<Result<O2, E2>> = part@;
                    push_rights::<O2, E1, E2>(&mut out, part);
                    proof {
                        lemma_forwards_success(start, seen, ok, cx, at, self.1, head, tail);
                    }
                },
                Err(err) => {
                    out.push(Err(Either::Left(err)));
                    proof {
                        lemma_forwards_failure::<O1, E1, O2, E2, S2>(
                            start,
                            seen,
                            err,
                            cx,
                            at,
                            head,
                        );
                    }
                },
            }
        }
        assert(mid.take(mid.len() as int) =~= mid);
        out
    }
}

/// A fallible stage followed by an infallible one: the successes of the
/// first go through the second, its failures go round it.
pub struct Left<S1, S2>(pub S1, pub S2);

impl<S1: Clone, S2: Clone> Clone for Left<S1, S2> {
    fn clone(&self) -> (pair: Self)
        ensures
            cloned(self.0, pair.0),
            cloned(self.1, pair.1),
    {
        Left(self.0.clone(), self.1.clone())
    }
}

impl<I, O1, E, S1, S2> Service<I> for Left<S1, S2> where
    S1: Service<I, Out = Result<O1, E>>,
    S2: Service<O1>,
 {
    type Out = Result<S2::Out, E>;

    open spec fn wf(&self) -> bool {
        self.0.wf() && self.1.wf()
    }

    open spec fn handles(&self, input: I, cx: &Context, then: &Self, out: Seq<Result<S2::Out, E>>) -> bool {
        exists|mid: Seq<Result<O1, E>>|
            self.0.handles(input, cx, &then.0, mid) && forwards_ok(self.1, mid, cx, then.1, out)
    }

    fn handle(&mut self, msg: I, cx: &Context) -> (out: Vec<Result<S2::Out, E>>) {
        let first = self.0.handle(msg, cx);
        let ghost mid = first@;
        let ghost start = self.1;
        let ghost ahead = self.0;
        let mut out: Vec<Result<S2::Out, E>> = Vec::new();
        for res in it: first
            invariant
                self.0 == ahead,
                self.1.wf(),
                it.seq() == mid,
                forwards_ok(start, mid.take(it.index() as int), cx, self.1, out@),
        {
            let ghost at: S2 = self.1;
            let ghost head: Seq<Result<S2::Out, E>> = out@;
            let ghost seen: Seq<Result<O1, E>> = mid.take(it.index() as int);
            assert(seen.push(res) =~= mid.take(it.index() + 1));
            match res {
                Ok(ok) => {
                    let part = self.1.handle(ok, cx);
                    let ghost tail: Seq<S2::Out> = part@;
                    push_oks::<S2::Out, E>(&mut out, part);
                    proof {
                        lemma_forwards_ok_success(start, seen, ok, cx, at, self.1, head, tail);
                    }
                },
                Err(err) => {
                    out.push(Err(err));
                    proof {
                        lemma_forwards_ok_failure::<O1, E, S2>(start, seen, err, cx, at, head);
                    }
                },
            }
        }
        assert(mid.take(mid.len() as int) =~= mid);
        out
    }
}

/// Two stages in a row, of which neither need be fallible: every output of
/// the first goes through the second.
#[derive(Debug)]
pub struct Chain<S1, S2> {
    pub service1: S1,
    pub service2: S2,
}

impl<S1: Clone, S2: Clone> Clone for Chain<S1, S2> {
    fn clone(&self) -> (pair: Self)
        ensures
            cloned(self.service1, pair.service1),
            cloned(self.service2, pair.service2),
    {
        Chain { service1: self.service1.clone(), service2: self.service2.clone() }
    }
}

impl<I, S1: Service<I>, S2: Service<S1::Out>> Service<I> for Chain<S1, S2> {
    type Out = S2::Out;

    open spec fn wf(&self) -> bool {
        self.service1.wf() && self.service2.wf()
    }

    open spec fn handles(&self, input: I, cx: &Context, then: &Self, out: Seq<S2::Out>) -> bool {
        exists|mid: Seq<S1::Out>|
            self.service1.handles(input, cx, &then.service1, mid) && streams(
                self.service2,
                mid,
                cx,
                then.service2,
                out,
            )
    }

    fn handle(&mut self, input: I, cx: &Context) -> (out: Vec<S2::Out>) {
        let mid = self.service1.handle(input, cx);
        let ghost seen = mid@;
        let out = self.service2.handle_stream(mid, cx);
        assert(old(self).service1.handles(input, cx, &self.service1, seen) && streams(
            old(self).service2,
            seen,
            cx,
            self.service2,
            out@,
        ));
        out
    }
}

/// In a run of a stage, and so of two stages in a row, every output for
/// an item comes before every output for a later item: the outputs of a
/// run over `inputs` followed by `more` are those of a run over `inputs`,
/// then those of a run over `more` that starts where the first run ended.
pub proof fn lemma_in_item_order<In, S: Service<In>>(
    stage: S,
    inputs: Seq<In>,
    more: Seq<In>,
    cx: &Context,
    mid: S,
    then: S,
    head: Seq<S::Out>,
    tail: Seq<S::Out>,
)
    requires
        streams(stage, inputs, cx, mid, head),
        streams(mid, more, cx, then, tail),
    ensures
        streams(stage, inputs + more, cx, then, head + tail),
    decreases more.len(),
{
    if more.len() == 0 {
        assert(inputs + more =~= inputs);
        assert(head + tail =~= head);
    } else {
        let (at, t_head, t_tail) = choose|at: S, t_head: Seq<S::Out>, t_tail: Seq<S::Out>|
            streams(mid, more.drop_last(), cx, at, t_head) && at.handles(
                more.last(),
                cx,
                &then,
                t_tail,
            ) && tail =~= t_head + t_tail;
        lemma_in_item_order(stage, inputs, more.drop_last(), cx, mid, at, head, t_head);
        lemma_streams_push(
            stage,
            inputs + more.drop_last(),
            more.last(),
            cx,
            at,
            then,
            head + t_head,
            t_tail,
        );
        assert((inputs + more.drop_last()).push(more.last()) =~= inputs + more);
        assert((head + t_head) + t_tail =~= head + tail);
    }
}

} // verus!
