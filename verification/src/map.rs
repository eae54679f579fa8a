//! Stages made of a function: map, filter-map, their fallible forms, and
//! the choice between two stages.

use crate::context::Context;
use crate::service::Service;
use std::marker::PhantomData;
use vstd::prelude::*;

verus! {

/// A stage that applies `f` to each item.
pub fn map<U, F>(f: F) -> (stage: MapFn<U, F>)
    ensures
        stage.map == f,
{
    MapFn { map: f, m: PhantomData }
}

/// A stage that puts out, for each item, what its function makes of it.
#[derive(Debug)]
pub struct MapFn<U, F> {
    pub map: F,
    pub m: PhantomData<U>,
}

impl<U, F: Clone> Clone for MapFn<U, F> {
    fn clone(&self) -> (stage: Self)
        ensures
            cloned(self.map, stage.map),
    {
        MapFn { map: self.map.clone(), m: PhantomData }
    }
}

impl<I, U, F: Fn(I) -> U> Service<I> for MapFn<U, F> {
    type Out = U;

    /// The function takes every item.
    open spec fn wf(&self) -> bool {
        forall|input: I| call_requires(self.map, (input,))
    }

    open spec fn handles(&self, input: I, cx: &Context, then: &Self, out: Seq<U>) -> bool {
        &&& *then == *self
        &&& out.len() == 1
        &&& call_ensures(self.map, (input,), out[0])
    }

    fn handle(&mut self, input: I, _cx: &Context) -> (out: Vec<U>) {
        let mut out: Vec<U> = Vec::new();
        out.push((self.map)(input));
        out
    }
}

/// A stage that applies `f` to each item and drops the item where the
/// answer is `None`.
pub fn filter_map<U, F>(f: F) -> (stage: FilterMap<U, F>)
    ensures
        stage.map == f,
{
    FilterMap { map: f, m: PhantomData }
}

/// A stage that puts out what its function makes of an item, if anything.
#[derive(Debug)]
pub struct FilterMap<U, F> {
    pub map: F,
    pub m: PhantomData<U>,
}

impl<U, F: Clone> Clone for FilterMap<U, F> {
    fn clone(&self) -> (stage: Self)
        ensures
            cloned(self.map, stage.map),
    {
        FilterMap { map: self.map.clone(), m: PhantomData }
    }
}

/// The outputs for an item of which the function made `made`.
pub open spec fn kept<U>(made: Option<U>) -> Seq<U> {
    match made {
        Some(value) => seq![value],
        None => Seq::empty(),
    }
}

impl<I, U, F: Fn(I) -> Option<U>> Service<I> for FilterMap<U, F> {
    type Out = U;

    /// The function takes every item.
    open spec fn wf(&self) -> bool {
        forall|input: I| call_requires(self.map, (input,))
    }

    open spec fn handles(&self, input: I, cx: &Context, then: &Self, out: Seq<U>) -> bool {
        &&& *then == *self
        &&& exists|made: Option<U>| call_ensures(self.map, (input,), made) && out == kept(made)
    }

    fn handle(&mut self, input: I, _cx: &Context) -> (out: Vec<U>) {
        let mut out: Vec<U> = Vec::new();
        let made = (self.map)(input);
        let ghost seen = made;
        if let Some(value) = made {
            out.push(value);
        }
        assert(call_ensures(self.map, (input,), seen) && out@ =~= kept(seen));
        out
    }
}

/// A stage that applies the fallible `f` to each item.
pub fn try_map<U, E, F>(f: F) -> (stage: TryMap<U, E, F>)
    ensures
        stage.map == f,
{
    TryMap { map: f, m: PhantomData }
}

/// A stage that puts out, for each item, the success or the failure that
/// its function makes of it.
#[derive(Debug)]
pub struct TryMap<U, E, F> {
    pub map: F,
    pub m: PhantomData<(U, E)>,
}

impl<U, E, F: Clone> Clone for TryMap<U, E, F> {
    fn clone(&self) -> (stage: Self)
        ensures
            cloned(self.map, stage.map),
    {
        TryMap { map: self.map.clone(), m: PhantomData }
    }
}

impl<I, U, E, F: Fn(I) -> Result<U, E>> Service<I> for TryMap<U, E, F> {
    type Out = Result<U, E>;

    /// The function takes every item.
    open spec fn wf(&self) -> bool {
        forall|input: I| call_requires(self.map, (input,))
    }

    open spec fn handles(&self, input: I, cx: &Context, then: &Self, out: Seq<Result<U, E>>) -> bool {
        &&& *then == *self
        &&& out.len() == 1
        &&& call_ensures(self.map, (input,), out[0])
    }

    fn handle(&mut self, input: I, _cx: &Context) -> (out: Vec<Result<U, E>>) {
        let mut out: Vec<Result<U, E>> = Vec::new();
        out.push((self.map)(input));
        out
    }
}

/// A stage that applies the fallible `f` to each item and drops the item
/// where the answer is `Ok(None)`.
pub fn try_filter_map<U, E, F>(f: F) -> (stage: TryFilterMap<U, E, F>)
    ensures
        stage.map == f,
{
    TryFilterMap { map: f, m: PhantomData }
}

/// A stage that puts out the success, if any, or the failure that its
/// function makes of an item.
#[derive(Debug)]
pub struct TryFilterMap<U, E, F> {
    pub map: F,
    pub m: PhantomData<(U, E)>,
}

impl<U, E, F: Clone> Clone for TryFilterMap<U, E, F> {
    fn clone(&self) -> (stage: Self)
        ensures
            cloned(self.map, stage.map),
    {
        TryFilterMap { map: self.map.clone(), m: PhantomData }
    }
}

/// The outputs for an item of which the fallible function made `made`.
pub open spec fn try_kept<U, E>(made: Result<Option<U>, E>) -> Seq<Result<U, E>> {
    match made {
        Ok(Some(value)) => seq![Ok(value)],
        Ok(None) => Seq::empty(),
        Err(err) => seq![Err(err)],
    }
}

impl<I, U, E, F: Fn(I) -> Result<Option<U>, E>> Service<I> for TryFilterMap<U, E, F> {
    type Out = Result<U, E>;

    /// The function takes every item.
    open spec fn wf(&self) -> bool {
        forall|input: I| call_requires(self.map, (input,))
    }

    open spec fn handles(&self, input: I, cx: &Context, then: &Self, out: Seq<Result<U, E>>) -> bool {
        &&& *then == *self
        &&& exists|made: Result<Option<U>, E>|
            call_ensures(self.map, (input,), made) && out == try_kept(made)
    }

    fn handle(&mut self, input: I, _cx: &Context) -> (out: Vec<Result<U, E>>) {
        let mut out: Vec<Result<U, E>> = Vec::new();
        let made = (self.map)(input);
        let ghost seen = made;
        match made {
            Ok(Some(value)) => {
                out.push(Ok(value));
            },
            Ok(None) => {},
            Err(err) => {
                out.push(Err(err));
            },
        }
        assert(call_ensures(self.map, (input,), seen) && out@ =~= try_kept(seen));
        out
    }
}

/// A stage that hands each item to one of two stages, as a test decides.
pub struct MapIfElse<I, F, S1, S2> {
    pub f: F,
    pub on_true: S1,
    pub on_false: S2,
    pub m: PhantomData<I>,
}

impl<I, F: Clone, S1: Clone, S2: Clone> Clone for MapIfElse<I, F, S1, S2> {
    fn clone(&self) -> (stage: Self)
        ensures
            cloned(self.f, stage.f),
            cloned(self.on_true, stage.on_true),
            cloned(self.on_false, stage.on_false),
    {
        MapIfElse {
            f: self.f.clone(),
            on_true: self.on_true.clone(),
            on_false: self.on_false.clone(),
            m: PhantomData,
        }
    }
}

/// A stage that hands an item to `on_true` where `f` holds of it, and to
/// `on_false` where it does not.
pub fn map_if_else<I, O, F, S1, S2>(f: F, on_true: S1, on_false: S2) -> (stage: MapIfElse<
    I,
    F,
    S1,
    S2,
>) where F: Fn(&I) -> bool, S1: Service<I, Out = O>, S2: Service<I, Out = O>
    ensures
        stage.f == f,
        stage.on_true == on_true,
        stage.on_false == on_false,
{
    MapIfElse { f, on_true, on_false, m: PhantomData }
}

impl<I, O, F, S1, S2> Service<I> for MapIfElse<I, F, S1, S2> where
    S1: Service<I, Out = O>,
    S2: Service<I, Out = O>,
    F: Fn(&I) -> bool,
 {
    type Out = O;

    /// The test takes every item, and both stages are valid.
    open spec fn wf(&self) -> bool {
        &&& forall|input: I| call_requires(self.f, (&input,))
        &&& self.on_true.wf()
        &&& self.on_false.wf()
    }

    open spec fn handles(&self, input: I, cx: &Context, then: &Self, out: Seq<O>) -> bool {
        &&& then.f == self.f
        &&& exists|holds: bool|
            call_ensures(self.f, (&input,), holds) && if holds {
                self.on_true.handles(input, cx, &then.on_true, out) && then.on_false
                    == self.on_false
            } else {
                self.on_false.handles(input, cx, &then.on_false, out) && then.on_true
                    == self.on_true
            }
    }

    fn handle(&mut self, input: I, cx: &Context) -> (out: Vec<O>) {
        let holds = (self.f)(&input);
        let out = if holds {
            self.on_true.handle(input, cx)
        } else {
            self.on_false.handle(input, cx)
        };
        assert(call_ensures(old(self).f, (&input,), holds));
        out
    }
}

} // verus!
