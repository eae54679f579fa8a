//! The stage that hands every item on.

use crate::context::Context;
use crate::service::Service;
use crate::void::Void;
use std::marker::PhantomData;
use vstd::prelude::*;

verus! {

/// A stage that puts out each item as it came, as a success.
#[derive(Debug)]
pub struct Pass<I>(pub PhantomData<I>);

impl<I> Clone for Pass<I> {
    fn clone(&self) -> (stage: Self)
        ensures
            stage.wf(),
    {
        Pass(PhantomData)
    }
}

impl<I> Copy for Pass<I> {

}

impl<I> Service<I> for Pass<I> {
    type Out = Result<I, Void>;

    open spec fn wf(&self) -> bool {
        true
    }

    open spec fn handles(&self, input: I, cx: &Context, then: &Self, out: Seq<Self::Out>) -> bool {
        out == seq![Ok::<I, Void>(input)]
    }

    #[inline]
    fn handle(&mut self, input: I, _cx: &Context) -> (out: Vec<Self::Out>) {
        let mut out: Vec<Self::Out> = Vec::new();
        out.push(Ok(input));
        assert(out@ =~= seq![Ok::<I, Void>(input)]);
        out
    }
}

/// The start of a pipeline: a stage that hands every item on.
#[inline]
pub fn flow<I>() -> (stage: Pass<I>)
    ensures
        stage.wf(),
{
    Pass(PhantomData)
}

} // verus!
