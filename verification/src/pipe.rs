//! Stages on whole sequences.
//!
//! A stage of this kind is used up by one run: it takes the whole sequence
//! of items and gives the whole sequence of outputs. Most of the stages
//! here work item by item, and what they put out is the outputs for each
//! item in turn.

use crate::and_then::AndThenFn;
use crate::chain::Chain;
use crate::stub::Stub;
use std::marker::PhantomData;
use vstd::prelude::*;

verus! {

/// A stage that turns one sequence of items into one sequence of outputs.
pub trait Service<In>: Sized {
    /// What the stage puts out.
    type Out;

    /// The validity of a stage: what `handle` needs. A stage that says
    /// nothing else is always valid.
    open spec fn wf(&self) -> bool {
        true
    }

    /// For the items `input` the stage may put out `out`. Of a stage that
    /// says nothing else, nothing is known.
    open spec fn handles(&self, input: Seq<In>, out: Seq<Self::Out>) -> bool {
        true
    }

    /// Handles a whole sequence of items.
    fn handle(self, input: Vec<In>) -> (out: Vec<Self::Out>)
        requires
            self.wf(),
        ensures
            self.handles(input@, out@),
    ;
}

/// `out` is made of a part for each item of `input`, in the order of the
/// items, and `step` holds of each item and its part.
pub open spec fn each<In, Out>(
    input: Seq<In>,
    out: Seq<Out>,
    step: spec_fn(In, Seq<Out>) -> bool,
) -> bool
    decreases input.len(),
{
    if input.len() == 0 {
        out =~= Seq::empty()
    } else {
        exists|head: Seq<Out>, part: Seq<Out>|
            #![trigger head.add(part)]
            each(input.drop_last(), head, step) && step(input.last(), part) && out =~= head.add(
                part,
            )
    }
}

/// The outputs for one more item follow those for the items before it.
pub proof fn lemma_each_push<In, Out>(
    input: Seq<In>,
    head: Seq<Out>,
    item: In,
    part: Seq<Out>,
    step: spec_fn(In, Seq<Out>) -> bool,
)
    requires
        each(input, head, step),
        step(item, part),
    ensures
        each(input.push(item), head.add(part), step),
{
    let all = input.push(item);
    assert(all.drop_last() =~= input);
    assert(all.last() == item);
}

/// A stage that hands every item on as it came.
#[derive(Debug)]
pub struct Pass;

impl<I> Service<I> for Pass {
    type Out = I;

    open spec fn handles(&self, input: Seq<I>, out: Seq<I>) -> bool {
        out == input
    }

    #[inline]
    fn handle(self, input: Vec<I>) -> (out: Vec<I>) {
        input
    }
}

/// The stage that a pipeline starts from: it hands every item on.
pub fn pipeline() -> Pass {
    Pass
}

/// What becomes of an item in a stage that keeps the failures only.
pub open spec fn failure_only<I, E>(res: Result<I, E>, part: Seq<Result<(), E>>) -> bool {
    match res {
        Ok(_) => part.len() == 0,
        Err(err) => part == seq![Err::<(), E>(err)],
    }
}

/// `failure_only`, as a rule for each item.
pub open spec fn failures_only<I, E>() -> spec_fn(Result<I, E>, Seq<Result<(), E>>) -> bool {
    |res: Result<I, E>, part: Seq<Result<(), E>>| failure_only(res, part)
}

/// A stage at the end of a pipeline: it drops every success and hands on
/// every failure.
impl<I, E, O> Service<Result<I, E>> for Stub<O> {
    type Out = Result<(), E>;

    open spec fn handles(&self, input: Seq<Result<I, E>>, out: Seq<Result<(), E>>) -> bool {
        each(input, out, failures_only())
    }

    fn handle(self, input: Vec<Result<I, E>>) -> (out: Vec<Result<(), E>>) {
        let ghost items = input@;
        let mut out: Vec<Result<(), E>> = Vec::new();
        for res in it: input
            invariant
                it.seq() == items,
                each(items.take(it.index() as int), out@, failures_only::<I, E>()),
        {
            let ghost head = out@;
            let ghost seen = res;
            if let Err(err) = res {
                out.push(Err(err));
            }
            proof {
                let part = match seen {
                    Ok(_) => Seq::<Result<(), E>>::empty(),
                    Err(err) => seq![Err::<(), E>(err)],
                };
                lemma_each_push(
                    items.take(it.index() as int),
                    head,
                    seen,
                    part,
                    failures_only::<I, E>(),
                );
                assert(items.take(it.index() as int).push(seen) =~= items.take(it.index() + 1));
                assert(out@ =~= head.add(part));
            }
        }
        assert(items.take(items.len() as int) =~= items);
        out
    }
}

/// A stage that applies its function to each item.
#[derive(Debug)]
pub struct MapEachFn<U, F> {
    pub map: F,
    pub m: PhantomData<U>,
}

impl<I, U, F: Fn(I) -> U> Service<I> for MapEachFn<U, F> {
    type Out = U;

    /// The function takes every item.
    open spec fn wf(&self) -> bool {
        forall|item: I| call_requires(self.map, (item,))
    }

    /// Each output is what the function makes of the item in its place.
    open spec fn handles(&self, input: Seq<I>, out: Seq<U>) -> bool {
        &&& out.len() == input.len()
        &&& forall|i: int| 0 <= i < input.len() ==> call_ensures(self.map, (input[i],), #[trigger] out[i])
    }

    fn handle(self, input: Vec<I>) -> (out: Vec<U>) {
        let ghost items = input@;
        let mut out: Vec<U> = Vec::new();
        for item in it: input
            invariant
                forall|item: I| call_requires(self.map, (item,)),
                it.seq() == items,
                out@.len() == it.index(),
                forall|i: int|
                    0 <= i < it.index() ==> call_ensures(self.map, (items[i],), #[trigger] out@[i]),
        {
            out.push((self.map)(item));
        }
        out
    }
}

/// A stage that applies its function to each success and hands each
/// failure on.
pub struct MapOk<U, F, E> {
    pub map: F,
    pub m: PhantomData<(U, E)>,
}

/// What `map` may make of one result: the success mapped, or the failure
/// as it came.
pub open spec fn mapped_ok<I, U, E, F: Fn(I) -> U>(map: F, res: Result<I, E>, made: Result<U, E>) -> bool {
    match res {
        Ok(item) => made is Ok && call_ensures(map, (item,), made->Ok_0),
        Err(err) => made == Err::<U, E>(err),
    }
}

impl<I, U, F: Fn(I) -> U, E> Service<Result<I, E>> for MapOk<U, F, E> {
    type Out = Result<U, E>;

    /// The function takes every success.
    open spec fn wf(&self) -> bool {
        forall|item: I| call_requires(self.map, (item,))
    }

    open spec fn handles(&self, input: Seq<Result<I, E>>, out: Seq<Result<U, E>>) -> bool {
        &&& out.len() == input.len()
        &&& forall|i: int| 0 <= i < input.len() ==> mapped_ok(self.map, input[i], #[trigger] out[i])
    }

    fn handle(self, input: Vec<Result<I, E>>) -> (out: Vec<Result<U, E>>) {
        let ghost items = input@;
        let mut out: Vec<Result<U, E>> = Vec::new();
        for res in it: input
            invariant
                forall|item: I| call_requires(self.map, (item,)),
                it.seq() == items,
                out@.len() == it.index(),
                forall|i: int| 0 <= i < it.index() ==> mapped_ok(self.map, items[i], #[trigger] out@[i]),
        {
            let made = match res {
                Ok(item) => Ok((self.map)(item)),
                Err(err) => Err(err),
            };
            out.push(made);
        }
        out
    }
}

/// A stage that may be absent: without a stage inside, every item is
/// handed on as it came.
#[derive(Debug)]
pub struct Optional<S> {
    pub service: Option<S>,
}

impl<I, S: Service<I, Out = I>> Service<I> for Optional<S> {
    type Out = I;

    open spec fn wf(&self) -> bool {
        self.service matches Some(inner) ==> inner.wf()
    }

    open spec fn handles(&self, input: Seq<I>, out: Seq<I>) -> bool {
        match self.service {
            Some(inner) => inner.handles(input, out),
            None => out == input,
        }
    }

    fn handle(self, input: Vec<I>) -> (out: Vec<I>) {
        match self.service {
            Some(inner) => inner.handle(input),
            None => input,
        }
    }
}

/// Two stages in a row: the second gets all that the first puts out.
impl<I, S1: Service<I>, S2: Service<S1::Out>> Service<I> for Chain<S1, S2> {
    type Out = S2::Out;

    open spec fn wf(&self) -> bool {
        self.service1.wf() && self.service2.wf()
    }

    open spec fn handles(&self, input: Seq<I>, out: Seq<S2::Out>) -> bool {
        exists|mid: Seq<S1::Out>| #[trigger]
            self.service1.handles(input, mid) && self.service2.handles(mid, out)
    }

    fn handle(self, input: Vec<I>) -> (out: Vec<S2::Out>) {
        let mid = self.service1.handle(input);
        assert(self.service1.handles(input@, mid@));
        self.service2.handle(mid)
    }
}

/// What the last output of `Finally` is for the answer `made` of its
/// function: nothing, or the failure.
pub open spec fn closing<I, E>(made: Result<(), E>) -> Seq<Result<I, E>> {
    match made {
        Ok(_) => Seq::empty(),
        Err(err) => seq![Err::<I, E>(err)],
    }
}

/// A stage that hands every item on and, behind the last, calls its
/// function once; if the function fails, its failure is the last output.
pub struct Finally<F> {
    pub f: F,
}

impl<I, E, C: Fn() -> Result<(), E>> Service<Result<I, E>> for Finally<C> {
    type Out = Result<I, E>;

    /// The function can be called.
    open spec fn wf(&self) -> bool {
        call_requires(self.f, ())
    }

    open spec fn handles(&self, input: Seq<Result<I, E>>, out: Seq<Result<I, E>>) -> bool {
        exists|made: Result<(), E>| #[trigger]
            call_ensures(self.f, (), made) && out == input + closing::<I, E>(made)
    }

    fn handle(self, input: Vec<Result<I, E>>) -> (out: Vec<Result<I, E>>) {
        let mut out = input;
        let made = (self.f)();
        let ghost seen = made;
        if let Err(err) = made {
            out.push(Err(err));
        }
        assert(call_ensures(self.f, (), seen) && out@ =~= input@ + closing::<I, E>(seen));
        out
    }
}

/// What becomes of one result in `Except`: a success is handed on, and a
/// failure is shown to the handler, which may put another in its place.
pub open spec fn handled<I, E, C: Fn(E) -> Result<(), E>>(
    f: C,
    res: Result<I, E>,
    part: Seq<Result<I, E>>,
) -> bool {
    match res {
        Ok(item) => part == seq![Ok::<I, E>(item)],
        Err(err) => exists|made: Result<(), E>| #[trigger]
            call_ensures(f, (err,), made) && part == closing::<I, E>(made),
    }
}

/// `handled`, as a rule for each item.
pub open spec fn each_handled<I, E, C: Fn(E) -> Result<(), E>>(f: C) -> spec_fn(
    Result<I, E>,
    Seq<Result<I, E>>,
) -> bool {
    |res: Result<I, E>, part: Seq<Result<I, E>>| handled(f, res, part)
}

/// A stage that shows every failure to a handler, which drops it or puts
/// another failure in its place.
pub struct Except<F> {
    pub f: F,
}

impl<I, E, C: Fn(E) -> Result<(), E>> Service<Result<I, E>> for Except<C> {
    type Out = Result<I, E>;

    /// The handler takes every failure.
    open spec fn wf(&self) -> bool {
        forall|err: E| call_requires(self.f, (err,))
    }

    open spec fn handles(&self, input: Seq<Result<I, E>>, out: Seq<Result<I, E>>) -> bool {
        each(input, out, each_handled(self.f))
    }

    fn handle(self, input: Vec<Result<I, E>>) -> (out: Vec<Result<I, E>>) {
        let ghost items = input@;
        let mut out: Vec<Result<I, E>> = Vec::new();
        for res in it: input
            invariant
                forall|err: E| call_requires(self.f, (err,)),
                it.seq() == items,
                each(items.take(it.index() as int), out@, each_handled(self.f)),
        {
            let ghost head = out@;
            let ghost seen = res;
            let ghost mut answer: Result<(), E> = Ok(());
            match res {
                Ok(item) => {
                    out.push(Ok(item));
                },
                Err(err) => {
                    let made = (self.f)(err);
                    proof {
                        answer = made;
                    }
                    if let Err(err) = made {
                        out.push(Err(err));
                    }
                },
            }
            proof {
                let part = match seen {
                    Ok(item) => seq![Ok::<I, E>(item)],
                    Err(_) => closing::<I, E>(answer),
                };
                assert(out@ =~= head.add(part));
                assert(handled(self.f, seen, part)) by {
                    if let Err(err) = seen {
                        assert(call_ensures(self.f, (err,), answer));
                    }
                }
                lemma_each_push(
                    items.take(it.index() as int),
                    head,
                    seen,
                    part,
                    each_handled(self.f),
                );
                assert(items.take(it.index() as int).push(seen) =~= items.take(it.index() + 1));
            }
        }
        assert(items.take(items.len() as int) =~= items);
        out
    }
}

/// What the outputs for a success are when the function made `made` of
/// it: the results in `made`, or its failure.
pub open spec fn opened<G, E>(made: Result<Vec<Result<G, E>>, E>) -> Seq<Result<G, E>> {
    match made {
        Ok(list) => list@,
        Err(err) => seq![Err::<G, E>(err)],
    }
}

/// What becomes of one result in `TryFlattenMap`: a failure is handed on,
/// and in place of a success stands what the function makes of it.
pub open spec fn flattened<I, G, E, F: Fn(I) -> Result<Vec<Result<G, E>>, E>>(
    f: F,
    res: Result<I, E>,
    part: Seq<Result<G, E>>,
) -> bool {
    match res {
        Ok(item) => exists|made: Result<Vec<Result<G, E>>, E>| #[trigger]
            call_ensures(f, (item,), made) && part == opened(made),
        Err(err) => part == seq![Err::<G, E>(err)],
    }
}

/// `flattened`, as a rule for each item.
pub open spec fn each_flattened<I, G, E, F: Fn(I) -> Result<Vec<Result<G, E>>, E>>(
    f: F,
) -> spec_fn(Result<I, E>, Seq<Result<G, E>>) -> bool {
    |res: Result<I, E>, part: Seq<Result<G, E>>| flattened(f, res, part)
}

/// A stage that has its function make a sequence of results of each
/// success, and puts those sequences out one after the other.
pub struct TryFlattenMap<F> {
    pub f: F,
}

impl<I, G, E, F: Fn(I) -> Result<Vec<Result<G, E>>, E>> Service<Result<I, E>> for TryFlattenMap<F> {
    type Out = Result<G, E>;

    /// The function takes every success.
    open spec fn wf(&self) -> bool {
        forall|item: I| call_requires(self.f, (item,))
    }

    open spec fn handles(&self, input: Seq<Result<I, E>>, out: Seq<Result<G, E>>) -> bool {
        each(input, out, each_flattened(self.f))
    }

    fn handle(self, input: Vec<Result<I, E>>) -> (out: Vec<Result<G, E>>) {
        let ghost items = input@;
        let mut out: Vec<Result<G, E>> = Vec::new();
        for res in it: input
            invariant
                forall|item: I| call_requires(self.f, (item,)),
                it.seq() == items,
                each(items.take(it.index() as int), out@, each_flattened(self.f)),
        {
            let ghost head = out@;
            let ghost seen = res;
            let ghost mut part: Seq<Result<G, E>> = Seq::empty();
            match res {
                Ok(item) => {
                    let made = (self.f)(item);
                    proof {
                        part = opened(made);
                        assert(call_ensures(self.f, (item,), made));
                    }
                    match made {
                        Ok(mut list) => {
                            out.append(&mut list);
                        },
                        Err(err) => {
                            out.push(Err(err));
                        },
                    }
                },
                Err(err) => {
                    out.push(Err(err));
                    proof {
                        part = seq![Err::<G, E>(err)];
                    }
                },
            }
            proof {
                assert(out@ =~= head.add(part));
                assert(flattened(self.f, seen, part));
                lemma_each_push(
                    items.take(it.index() as int),
                    head,
                    seen,
                    part,
                    each_flattened(self.f),
                );
                assert(items.take(it.index() as int).push(seen) =~= items.take(it.index() + 1));
            }
        }
        assert(items.take(items.len() as int) =~= items);
        out
    }
}

/// A fallible function applied to each success; a failure is handed on.
impl<I, O, E, C: Fn(I) -> Result<O, E>> Service<Result<I, E>> for AndThenFn<C> {
    type Out = Result<O, E>;

    /// The function takes every success.
    open spec fn wf(&self) -> bool {
        forall|item: I| call_requires(self.f, (item,))
    }

    open spec fn handles(&self, input: Seq<Result<I, E>>, out: Seq<Result<O, E>>) -> bool {
        &&& out.len() == input.len()
        &&& forall|i: int|
            0 <= i < input.len() ==> match input[i] {
                Ok(item) => call_ensures(self.f, (item,), #[trigger] out[i]),
                Err(err) => out[i] == Err::<O, E>(err),
            }
    }

    fn handle(self, input: Vec<Result<I, E>>) -> (out: Vec<Result<O, E>>) {
        let ghost items = input@;
        let mut out: Vec<Result<O, E>> = Vec::new();
        for res in it: input
            invariant
                forall|item: I| call_requires(self.f, (item,)),
                it.seq() == items,
                out@.len() == it.index(),
                forall|i: int|
                    0 <= i < it.index() ==> match items[i] {
                        Ok(item) => call_ensures(self.f, (item,), #[trigger] out@[i]),
                        Err(err) => out@[i] == Err::<O, E>(err),
                    },
        {
            let made = match res {
                Ok(item) => (self.f)(item),
                Err(err) => Err(err),
            };
            out.push(made);
        }
        out
    }
}

/// A stage run in the background, with a queue of `buffer` outputs between
/// it and the reader. The reader gets what the stage puts out.
pub struct Spawn<S> {
    pub buffer: usize,
    pub service: S,
}

impl<I, S: Service<I>> Service<I> for Spawn<S> {
    type Out = S::Out;

    /// The queue has room for an output, and the stage inside is valid.
    open spec fn wf(&self) -> bool {
        self.buffer > 0 && self.service.wf()
    }

    open spec fn handles(&self, input: Seq<I>, out: Seq<S::Out>) -> bool {
        self.service.handles(input, out)
    }

    #[inline]
    fn handle(self, input: Vec<I>) -> (out: Vec<S::Out>) {
        self.service.handle(input)
    }
}

/// Of `all`, `out` is what comes before the token first fires: the token
/// is asked before each output, and once it has fired nothing more is put
/// out.
pub open spec fn cut<F: Fn() -> bool, O>(token: F, all: Seq<O>, out: Seq<O>) -> bool {
    &&& out.len() <= all.len()
    &&& out == all.take(out.len() as int)
    &&& out.len() > 0 ==> call_ensures(token, (), false)
    &&& out.len() < all.len() ==> call_ensures(token, (), true)
}

/// A stage whose outputs end when a token fires.
pub struct AbortFn<F, S> {
    pub token: F,
    pub service: S,
}

impl<I, F: Fn() -> bool, S: Service<I>> Service<I> for AbortFn<F, S> {
    type Out = S::Out;

    /// The token can be asked, and the stage inside is valid.
    open spec fn wf(&self) -> bool {
        call_requires(self.token, ()) && self.service.wf()
    }

    open spec fn handles(&self, input: Seq<I>, out: Seq<S::Out>) -> bool {
        exists|all: Seq<S::Out>| #[trigger]
            self.service.handles(input, all) && cut(self.token, all, out)
    }

    fn handle(self, input: Vec<I>) -> (out: Vec<S::Out>) {
        let all = self.service.handle(input);
        let ghost whole = all@;
        let mut out: Vec<S::Out> = Vec::new();
        let mut live = true;
        for res in it: all
            invariant
                call_requires(self.token, ()),
                it.seq() == whole,
                out@.len() <= it.index(),
                out@ == whole.take(out@.len() as int),
                out@.len() > 0 ==> call_ensures(self.token, (), false),
                live ==> out@.len() == it.index(),
                !live ==> call_ensures(self.token, (), true),
        {
            if live {
                let ghost head = out@;
                if (self.token)() {
                    live = false;
                } else {
                    out.push(res);
                    assert(out@ =~= whole.take(head.len() as int + 1));
                }
            }
        }
        assert(self.service.handles(input@, whole) && cut(self.token, whole, out@));
        out
    }
}

/// What every stage on whole sequences can be built into.
pub trait ServiceExt<I>: Service<I> {
    /// This stage, and then `service` on all that it puts out.
    #[inline]
    fn pipe<U>(self, service: U) -> (stage: Chain<Self, U>) where U: Service<Self::Out>
        ensures
            stage.service1 == self,
            stage.service2 == service,
    {
        Chain { service1: self, service2: service }
    }

    /// This stage, and then `service` if there is one.
    #[inline]
    fn maybe_pipe<U>(self, service: Option<U>) -> (stage: Chain<Self, Optional<U>>) where
        U: Service<Self::Out, Out = Self::Out>,

        ensures
            stage.service1 == self,
            stage.service2.service == service,
    {
        Chain { service1: self, service2: Optional { service } }
    }

    /// This stage, run in the background with a queue of `buffer` outputs.
    #[inline]
    fn spawn(self, buffer: usize) -> (stage: Spawn<Self>)
        ensures
            stage.service == self,
            stage.buffer == buffer,
    {
        Spawn { service: self, buffer }
    }

    /// This stage, with `map` applied to each of its outputs.
    #[inline]
    fn map<U, F>(self, map: F) -> (stage: Chain<Self, MapEachFn<U, F>>) where F: Fn(Self::Out) -> U
        ensures
            stage.service1 == self,
            stage.service2.map == map,
    {
        Chain { service1: self, service2: MapEachFn { map, m: PhantomData } }
    }

    /// This stage, with its outputs ending when `token` fires.
    #[inline]
    fn abort_token<F>(self, token: F) -> (stage: AbortFn<F, Self>) where F: Fn() -> bool
        ensures
            stage.service == self,
            stage.token == token,
    {
        AbortFn { token, service: self }
    }
}

impl<I, T: Service<I>> ServiceExt<I> for T {
}

/// What a stage on a sequence of results can be built into.
pub trait TryServiceExt<I, E>: Service<Result<I, E>> {
    /// This stage, with `map` applied to each of its successes.
    #[inline]
    fn map_ok<O, OE, U, C>(self, map: C) -> (stage: Chain<Self, MapOk<U, C, OE>>) where
        Self: Service<Result<I, E>, Out = Result<O, OE>>,
        C: Fn(O) -> U,

        ensures
            stage.service1 == self,
            stage.service2.map == map,
    {
        Chain { service1: self, service2: MapOk { map, m: PhantomData } }
    }

    /// This stage, with the fallible `f` applied to each of its successes.
    #[inline]
    fn and_then<O, OE, U, C>(self, f: C) -> (stage: Chain<Self, AndThenFn<C>>) where
        Self: Service<Result<I, E>, Out = Result<O, OE>>,
        C: Fn(O) -> Result<U, OE>,

        ensures
            stage.service1 == self,
            stage.service2.f == f,
    {
        Chain { service1: self, service2: AndThenFn { f } }
    }

    /// This stage, with `f` called once behind its last output.
    #[inline]
    fn finally<O, OE, C>(self, f: C) -> (stage: Chain<Self, Finally<C>>) where
        Self: Service<Result<I, E>, Out = Result<O, OE>>,
        C: Fn() -> Result<(), OE>,

        ensures
            stage.service1 == self,
            stage.service2.f == f,
    {
        Chain { service1: self, service2: Finally { f } }
    }

    /// This stage, with each of its failures shown to `f`.
    #[inline]
    fn except<O, OE, C>(self, f: C) -> (stage: Chain<Self, Except<C>>) where
        Self: Service<Result<I, E>, Out = Result<O, OE>>,
        C: Fn(OE) -> Result<(), OE>,

        ensures
            stage.service1 == self,
            stage.service2.f == f,
    {
        Chain { service1: self, service2: Except { f } }
    }

    /// This stage, with its successes dropped.
    #[inline]
    fn stub<O, OE>(self) -> (stage: Chain<Self, Stub<()>>) where
        Self: Service<Result<I, E>, Out = Result<O, OE>>,

        ensures
            stage.service1 == self,
    {
        Chain { service1: self, service2: Stub(PhantomData) }
    }

    /// This stage, with `f` making a sequence of results of each of its
    /// successes.
    #[inline]
    fn try_flatten_map<O, OE, G, C>(self, f: C) -> (stage: Chain<Self, TryFlattenMap<C>>) where
        Self: Service<Result<I, E>, Out = Result<O, OE>>,
        C: Fn(O) -> Result<Vec<Result<G, OE>>, OE>,

        ensures
            stage.service1 == self,
            stage.service2.f == f,
    {
        Chain { service1: self, service2: TryFlattenMap { f } }
    }
}

impl<I, E, T: Service<Result<I, E>>> TryServiceExt<I, E> for T {
}

} // verus!
