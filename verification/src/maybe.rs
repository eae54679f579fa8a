//! The stage that sends some items through another stage.

use crate::chain::rights;
use crate::context::Context;
use crate::either::Either;
use crate::service::Service;
use crate::spsc::Poll;
use vstd::prelude::*;

verus! {

/// A stage that hands an item to the stage inside where the condition
/// holds of it, and hands it on as it came where it does not. The error
/// says where it arose: `Left` upstream, `Right` in the stage inside.
#[derive(Debug)]
pub struct Maybe<C, S> {
    pub service: S,
    pub cond: C,
}

impl<C: Clone, S: Clone> Clone for Maybe<C, S> {
    fn clone(&self) -> (stage: Self)
        ensures
            cloned(self.service, stage.service),
            cloned(self.cond, stage.cond),
    {
        Maybe { service: self.service.clone(), cond: self.cond.clone() }
    }
}

/// An item that goes round the stage inside, as the stage puts it out.
pub open spec fn left<I, E, OE>(input: Result<I, E>) -> Result<I, Either<E, OE>> {
    match input {
        Ok(value) => Ok::<I, Either<E, OE>>(value),
        Err(err) => Err::<I, Either<E, OE>>(Either::Left(err)),
    }
}

impl<I, E, OE, C, S> Service<Result<I, E>> for Maybe<C, S> where
    C: Fn(&Result<I, E>) -> bool,
    S: Service<Result<I, E>, Out = Result<I, OE>>,
 {
    type Out = Result<I, Either<E, OE>>;

    /// The condition takes every item, and the stage inside is valid.
    open spec fn wf(&self) -> bool {
        &&& forall|input: Result<I, E>| call_requires(self.cond, (&input,))
        &&& self.service.wf()
    }

    open spec fn handles(
        &self,
        input: Result<I, E>,
        cx: &Context,
        then: &Self,
        out: Seq<Result<I, Either<E, OE>>>,
    ) -> bool {
        &&& then.cond == self.cond
        &&& exists|holds: bool, part: Seq<Result<I, OE>>|
            #![trigger call_ensures(self.cond, (&input,), holds), rights::<I, E, OE>(part)]
            call_ensures(self.cond, (&input,), holds) && if holds {
                self.service.handles(input, cx, &then.service, part) && out == rights::<I, E, OE>(
                    part,
                )
            } else {
                then.service == self.service && out == seq![left::<I, E, OE>(input)]
            }
    }

    fn handle(&mut self, input: Result<I, E>, cx: &Context) -> (out: Vec<
        Result<I, Either<E, OE>>,
    >) {
        let holds = (self.cond)(&input);
        let mut out: Vec<Result<I, Either<E, OE>>> = Vec::new();
        if holds {
            let part = self.service.handle(input, cx);
            let ghost seen: Seq<Result<I, OE>> = part@;
            for res in it: part
                invariant
                    it.seq() == seen,
                    out@ == rights::<I, E, OE>(seen.take(it.index() as int)),
            {
                out.push(
                    match res {
                        Ok(value) => Ok(value),
                        Err(err) => Err(Either::Right(err)),
                    },
                );
                assert(out@ =~= rights::<I, E, OE>(seen.take(it.index() + 1)));
            }
            assert(seen.take(seen.len() as int) =~= seen);
            assert(call_ensures(old(self).cond, (&input,), holds) && old(self).service.handles(
                input,
                cx,
                &self.service,
                seen,
            ) && out@ == rights::<I, E, OE>(seen));
        } else {
            out.push(
                match input {
                    Ok(value) => Ok(value),
                    Err(err) => Err(Either::Left(err)),
                },
            );
            let ghost none: Seq<Result<I, OE>> = Seq::empty();
            assert(out@ =~= seq![left::<I, E, OE>(input)]);
            assert(call_ensures(old(self).cond, (&input,), holds) && rights::<I, E, OE>(none)
                == rights::<I, E, OE>(none));
        }
        out
    }
}

/// What a stream with an end mark gives: an item of the stream inside, or
/// the mark that the stream inside has ended.
#[derive(Debug, PartialEq, Eq)]
pub enum Done<T> {
    Item(T),
    Done,
}

/// A stream that says once, as an item of its own, that the stream inside
/// has ended, and is at its end after that.
#[derive(Debug)]
pub struct DoneWrapper {
    done_flag: bool,
}

impl DoneWrapper {
    /// Whether the end of the stream inside has been seen.
    pub closed spec fn done(&self) -> bool {
        self.done_flag
    }

    /// Whether the end of the stream inside has been seen.
    pub fn is_done(&self) -> (done: bool)
        ensures
            done == self.done(),
    {
        self.done_flag
    }

    /// One poll of the stream, where a poll of the stream inside gives
    /// `inner`. The stream inside is not polled any more once it has
    /// ended: then the answer is the end, whatever `inner` is.
    pub fn poll_next<T>(&mut self, inner: Poll<Option<T>>) -> (out: Poll<Option<Done<T>>>)
        ensures
            final(self).done() == (old(self).done() || inner == Poll::<Option<T>>::Ready(None)),
            out == if old(self).done() {
                Poll::Ready(None)
            } else {
                match inner {
                    Poll::Ready(Some(val)) => Poll::Ready(Some(Done::Item(val))),
                    Poll::Ready(None) => Poll::Ready(Some(Done::Done)),
                    Poll::Pending => Poll::Pending,
                }
            },
    {
        if self.done_flag {
            Poll::Ready(None)
        } else {
            match inner {
                Poll::Ready(Some(val)) => Poll::Ready(Some(Done::Item(val))),
                Poll::Ready(None) => {
                    self.done_flag = true;
                    Poll::Ready(Some(Done::Done))
                },
                Poll::Pending => Poll::Pending,
            }
        }
    }
}

/// A stream with an end mark around a stream that has not ended.
pub fn done_wrapper() -> (stream: DoneWrapper)
    ensures
        !stream.done(),
{
    DoneWrapper { done_flag: false }
}

} // verus!
