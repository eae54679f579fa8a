//! The stage that turns the failures of another stage.

use crate::context::Context;
use crate::service::Service;
use vstd::prelude::*;

verus! {

/// A stage that hands the successes of the stage inside on, and puts each
/// of its failures to a handler that turns it into another error or drops
/// it.
pub struct Except<S, F> {
    pub service: S,
    pub on_err: F,
}

impl<S: Clone, F: Clone> Clone for Except<S, F> {
    fn clone(&self) -> (stage: Self)
        ensures
            cloned(self.service, stage.service),
            cloned(self.on_err, stage.on_err),
    {
        Except { service: self.service.clone(), on_err: self.on_err.clone() }
    }
}

/// What is put out for a failure of which the handler made `made`.
pub open spec fn turned<R, E2>(made: Option<E2>) -> Seq<Result<R, E2>> {
    match made {
        Some(err) => seq![Err::<R, E2>(err)],
        None => Seq::empty(),
    }
}

/// The handler `on_err` may make `out` of the results `mid`: the successes
/// as they came, and of each failure what the handler turned it into.
pub open spec fn excepted<R, E, E2, F: Fn(E) -> Option<E2>>(
    on_err: F,
    mid: Seq<Result<R, E>>,
    out: Seq<Result<R, E2>>,
) -> bool
    decreases mid.len(),
{
    if mid.len() == 0 {
        out.len() == 0
    } else {
        match mid.last() {
            Ok(value) => exists|head: Seq<Result<R, E2>>|
                #![trigger head.push(Ok::<R, E2>(value))]
                excepted(on_err, mid.drop_last(), head) && out =~= head.push(Ok::<R, E2>(value)),
            Err(err) => exists|head: Seq<Result<R, E2>>, made: Option<E2>|
                #![trigger call_ensures(on_err, (err,), made), head.add(turned::<R, E2>(made))]
                excepted(on_err, mid.drop_last(), head) && call_ensures(on_err, (err,), made)
                    && out =~= head.add(turned::<R, E2>(made)),
        }
    }
}

impl<I, R, E, E2, F, S> Service<I> for Except<S, F> where
    S: Service<I, Out = Result<R, E>>,
    F: Fn(E) -> Option<E2>,
 {
    type Out = Result<R, E2>;

    /// The stage inside is valid, and the handler takes every failure.
    open spec fn wf(&self) -> bool {
        &&& self.service.wf()
        &&& forall|err: E| call_requires(self.on_err, (err,))
    }

    open spec fn handles(&self, input: I, cx: &Context, then: &Self, out: Seq<Result<R, E2>>) -> bool {
        &&& then.on_err == self.on_err
        &&& exists|mid: Seq<Result<R, E>>|
            self.service.handles(input, cx, &then.service, mid) && excepted(self.on_err, mid, out)
    }

    fn handle(&mut self, input: I, cx: &Context) -> (out: Vec<Result<R, E2>>) {
        let results = self.service.handle(input, cx);
        let ghost mid: Seq<Result<R, E>> = results@;
        let mut out: Vec<Result<R, E2>> = Vec::new();
        for res in it: results
            invariant
                self.on_err == old(self).on_err,
                forall|err: E| call_requires(self.on_err, (err,)),
                it.seq() == mid,
                excepted(self.on_err, mid.take(it.index() as int), out@),
        {
            let ghost head: Seq<Result<R, E2>> = out@;
            let ghost done: Seq<Result<R, E>> = mid.take(it.index() + 1);
            assert(done.drop_last() =~= mid.take(it.index() as int));
            match res {
                Ok(ok) => {
                    out.push(Ok(ok));
                    assert(done.last() is Ok && done.last()->Ok_0 == ok);
                    assert(out@ =~= head.push(Ok::<R, E2>(ok)));
                },
                Err(err) => {
                    let made = (self.on_err)(err);
                    let ghost seen = made;
                    if let Some(err2) = made {
                        out.push(Err(err2));
                    }
                    assert(done.last() is Err && done.last()->Err_0 == err);
                    assert(call_ensures(self.on_err, (done.last()->Err_0,), seen));
                    assert(out@ =~= head.add(turned::<R, E2>(seen)));
                },
            }
        }
        assert(mid.take(mid.len() as int) =~= mid);
        out
    }
}

} // verus!
