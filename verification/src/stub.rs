//! The stage that drops every item.

use crate::context::Context;
use crate::service::Service;
use std::marker::PhantomData;
use vstd::prelude::*;

verus! {

/// A stage that puts out nothing, whatever comes in.
#[derive(Debug)]
pub struct Stub<O>(pub PhantomData<O>);

impl<O> Clone for Stub<O> {
    fn clone(&self) -> Self {
        Stub(PhantomData)
    }
}

impl<O> Copy for Stub<O> {

}

/// A stage that puts out nothing, whatever comes in.
#[inline]
pub fn stub<O>() -> Stub<O> {
    Stub(PhantomData)
}

impl<I, O> Service<I> for Stub<O> {
    type Out = O;

    open spec fn wf(&self) -> bool {
        true
    }

    open spec fn handles(&self, input: I, cx: &Context, then: &Self, out: Seq<O>) -> bool {
        out == Seq::<O>::empty()
    }

    fn handle(&mut self, _input: I, _cx: &Context) -> (out: Vec<O>) {
        Vec::new()
    }
}

} // verus!
