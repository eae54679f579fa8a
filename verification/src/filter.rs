//! The stage that lets through what passes a test.

use crate::context::Context;
use crate::service::Service;
use std::marker::PhantomData;
use vstd::prelude::*;

verus! {

/// A stage that hands an item to the stage inside where the test holds of
/// it, and drops the item where it does not.
pub struct Filter<I, F, S> {
    pub f: F,
    pub s: S,
    pub m: PhantomData<I>,
}

impl<I, F: Clone, S: Clone> Clone for Filter<I, F, S> {
    fn clone(&self) -> (stage: Self)
        ensures
            cloned(self.f, stage.f),
            cloned(self.s, stage.s),
    {
        Filter { f: self.f.clone(), s: self.s.clone(), m: PhantomData }
    }
}

impl<I, F, S> Service<I> for Filter<I, F, S> where S: Service<I>, F: Fn(&I) -> bool {
    type Out = S::Out;

    /// The test takes every item, and the stage inside is valid.
    open spec fn wf(&self) -> bool {
        &&& forall|input: I| call_requires(self.f, (&input,))
        &&& self.s.wf()
    }

    open spec fn handles(&self, input: I, cx: &Context, then: &Self, out: Seq<S::Out>) -> bool {
        &&& then.f == self.f
        &&& exists|holds: bool|
            call_ensures(self.f, (&input,), holds) && if holds {
                self.s.handles(input, cx, &then.s, out)
            } else {
                then.s == self.s && out == Seq::<S::Out>::empty()
            }
    }

    fn handle(&mut self, input: I, cx: &Context) -> (out: Vec<S::Out>) {
        let holds = (self.f)(&input);
        let out = if holds {
            self.s.handle(input, cx)
        } else {
            Vec::new()
        };
        assert(call_ensures(old(self).f, (&input,), holds));
        out
    }
}

} // verus!
