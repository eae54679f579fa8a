//! The stage that goes on with a success and hands a failure through.

use crate::context::Context;
use crate::service::Service;
use vstd::prelude::*;

verus! {

/// A stage that applies the fallible `f` to each success and hands each
/// failure on as it came.
pub fn and_then<C>(f: C) -> (stage: AndThenFn<C>)
    ensures
        stage.f == f,
{
    AndThenFn { f }
}

/// A stage that applies its fallible function to successes only.
pub struct AndThenFn<C> {
    pub f: C,
}

impl<C: Clone> Clone for AndThenFn<C> {
    fn clone(&self) -> (stage: Self)
        ensures
            cloned(self.f, stage.f),
    {
        AndThenFn { f: self.f.clone() }
    }
}

impl<I, O, E, C: Fn(I) -> Result<O, E>> Service<Result<I, E>> for AndThenFn<C> {
    type Out = Result<O, E>;

    /// The function takes every success.
    open spec fn wf(&self) -> bool {
        forall|input: I| call_requires(self.f, (input,))
    }

    open spec fn handles(
        &self,
        input: Result<I, E>,
        cx: &Context,
        then: &Self,
        out: Seq<Result<O, E>>,
    ) -> bool {
        &&& *then == *self
        &&& out.len() == 1
        &&& match input {
            Ok(ok) => call_ensures(self.f, (ok,), out[0]),
            Err(err) => out[0] == Err::<O, E>(err),
        }
    }

    fn handle(&mut self, input: Result<I, E>, _cx: &Context) -> (out: Vec<Result<O, E>>) {
        let mut out: Vec<Result<O, E>> = Vec::new();
        match input {
            Ok(ok) => {
                out.push((self.f)(ok));
            },
            Err(err) => {
                out.push(Err(err));
            },
        }
        out
    }
}

} // verus!
