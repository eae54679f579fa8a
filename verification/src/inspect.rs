//! The stage that shows every item to a callback.

use crate::context::Context;
use crate::service::Service;
use std::marker::PhantomData;
use vstd::prelude::*;

verus! {

/// A stage that calls its callback on each item and hands the item on
/// unchanged.
#[derive(Debug)]
pub struct Inspect<I, F> {
    pub cb: F,
    pub m: PhantomData<I>,
}

impl<I, F: Clone> Clone for Inspect<I, F> {
    fn clone(&self) -> (stage: Self)
        ensures
            cloned(self.cb, stage.cb),
    {
        Inspect { cb: self.cb.clone(), m: PhantomData }
    }
}

impl<I, F: Fn(&I)> Service<I> for Inspect<I, F> {
    type Out = I;

    /// The callback takes every item.
    open spec fn wf(&self) -> bool {
        forall|input: I| call_requires(self.cb, (&input,))
    }

    open spec fn handles(&self, input: I, cx: &Context, then: &Self, out: Seq<I>) -> bool {
        &&& *then == *self
        &&& out == seq![input]
        &&& call_ensures(self.cb, (&input,), ())
    }

    fn handle(&mut self, input: I, _cx: &Context) -> (out: Vec<I>) {
        (self.cb)(&input);
        let mut out: Vec<I> = Vec::new();
        out.push(input);
        assert(out@ =~= seq![input]);
        out
    }
}

} // verus!
