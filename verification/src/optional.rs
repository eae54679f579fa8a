//! A stage that may be absent.

use crate::context::Context;
use crate::service::Service;
use vstd::prelude::*;

verus! {

/// A stage that may be left out: `None` hands every item on as a success.
impl<I, E, S: Service<I, Out = Result<I, E>>> Service<I> for Option<S> {
    type Out = Result<I, E>;

    open spec fn wf(&self) -> bool {
        self matches Some(stage) ==> stage.wf()
    }

    open spec fn handles(&self, input: I, cx: &Context, then: &Self, out: Seq<Result<I, E>>) -> bool {
        match *self {
            Some(stage) => then matches Some(after) && stage.handles(input, cx, &after, out),
            None => *then is None && out == seq![Ok::<I, E>(input)],
        }
    }

    fn handle(&mut self, input: I, cx: &Context) -> (out: Vec<Result<I, E>>) {
        match self {
            Some(stage) => stage.handle(input, cx),
            None => {
                let mut out: Vec<Result<I, E>> = Vec::new();
                out.push(Ok(input));
                assert(out@ =~= seq![Ok::<I, E>(input)]);
                out
            },
        }
    }
}

} // verus!
