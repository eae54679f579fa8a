//! Routing by case.
//!
//! A switch is built from a selector, which reads a discriminant off each
//! item, and a list of cases, each a pattern and a stage. The cases are
//! tried in the order in which they were declared, and the first whose
//! pattern takes the discriminant gets the item. An item that no case takes
//! goes to the default stage, or, where none was declared, is dropped.

use crate::context::Context;
use crate::service::Service;
use crate::stub::Stub;
use std::marker::PhantomData;
use vstd::prelude::*;
use vstd::std_specs::cmp::PartialEqSpec;

verus! {

/// A pattern for discriminants: one value, or several.
pub trait SwitchCaseMatch<T> {
    /// Whether `check_match` keeps to `takes`: it does where the equality
    /// of the discriminants is the one that `eq_spec` states.
    spec fn obeys() -> bool;

    /// The pattern takes `needle`.
    spec fn takes(&self, needle: &T) -> bool;

    /// Whether the pattern takes `needle`.
    fn check_match(&self, needle: &T) -> (hit: bool)
        ensures
            Self::obeys() ==> hit == self.takes(needle),
    ;
}

impl<T: PartialEq> SwitchCaseMatch<T> for T {
    open spec fn obeys() -> bool {
        T::obeys_eq_spec()
    }

    /// A value takes what is equal to it.
    open spec fn takes(&self, needle: &T) -> bool {
        self.eq_spec(needle)
    }

    fn check_match(&self, needle: &T) -> (hit: bool) {
        *self == *needle
    }
}

impl<const N: usize, T: PartialEq> SwitchCaseMatch<T> for [T; N] {
    open spec fn obeys() -> bool {
        T::obeys_eq_spec()
    }

    /// A list of values takes what is equal to one of them.
    open spec fn takes(&self, needle: &T) -> bool {
        exists|i: int| 0 <= i < N && (#[trigger] self@[i]).eq_spec(needle)
    }

    fn check_match(&self, needle: &T) -> (hit: bool) {
        let mut i: usize = 0;
        while i < N
            invariant
                i <= N,
                T::obeys_eq_spec() ==> forall|j: int|
                    0 <= j < i ==> !(#[trigger] self@[j]).eq_spec(needle),
            decreases N - i,
        {
            if self[i] == *needle {
                return true;
            }
            i += 1;
        }
        false
    }
}

/// A stage that can say whether an item is for it.
pub trait SwitchCase<I>: Service<I> {
    /// Asked whether `item` is for it, the stage may answer `hit`.
    spec fn decides(&self, item: &I, hit: bool) -> bool;

    /// Whether `item` is for this stage.
    fn try_match(&self, item: &I) -> (hit: bool)
        requires
            self.wf(),
        ensures
            self.decides(item, hit),
    ;
}

impl<I, O> SwitchCase<I> for Stub<O> {
    /// Nothing is for a stage that drops everything.
    open spec fn decides(&self, item: &I, hit: bool) -> bool {
        !hit
    }

    fn try_match(&self, _item: &I) -> (hit: bool) {
        false
    }
}

/// The cases declared before, asked whether `item` is for one of them, may
/// answer `hit`. Without such cases the answer is no.
pub open spec fn earlier<I, C: SwitchCase<I>>(case: Option<C>, item: &I, hit: bool) -> bool {
    match case {
        Some(inner) => inner.decides(item, hit),
        None => !hit,
    }
}

/// One of the cases declared before may handle `input` with the outputs
/// `out`, after which those cases are `then`.
pub open spec fn routed<I, C: SwitchCase<I>>(
    case: Option<C>,
    input: I,
    cx: &Context,
    then: Option<C>,
    out: Seq<C::Out>,
) -> bool {
    case matches Some(inner) && then matches Some(after) && inner.handles(input, cx, &after, out)
}

/// A switch with all its cases and a default stage.
pub struct SwitchDefaultCase<I, S, C> {
    pub case: Option<C>,
    pub service: S,
    pub m: PhantomData<I>,
}

impl<I, S, C> Service<I> for SwitchDefaultCase<I, S, C> where
    S: Service<I>,
    C: SwitchCase<I, Out = S::Out>,
 {
    type Out = S::Out;

    open spec fn wf(&self) -> bool {
        &&& self.case matches Some(inner) ==> inner.wf()
        &&& self.service.wf()
    }

    /// An item goes to the first case that takes it, and to the default
    /// stage if none does.
    open spec fn handles(&self, input: I, cx: &Context, then: &Self, out: Seq<S::Out>) -> bool {
        exists|hit: bool| #[trigger]
            earlier(self.case, &input, hit) && if hit {
                routed(self.case, input, cx, then.case, out) && then.service == self.service
            } else {
                then.case == self.case && self.service.handles(input, cx, &then.service, out)
            }
    }

    fn handle(&mut self, input: I, cx: &Context) -> (out: Vec<S::Out>) {
        let hit = match &self.case {
            Some(inner) => inner.try_match(&input),
            None => false,
        };
        let out = if hit {
            match &mut self.case {
                Some(inner) => inner.handle(input, cx),
                None => Vec::new(),
            }
        } else {
            self.service.handle(input, cx)
        };
        assert(earlier(old(self).case, &input, hit));
        out
    }
}

/// A switch up to one of its cases: the cases declared before, if any, and
/// this one's pattern and stage.
pub struct SwitchMatchCase<I, F, A, S, C> {
    pub case: Option<C>,
    pub selector: F,
    pub service: S,
    pub variant: A,
    pub m: PhantomData<I>,
}

/// The selector may read off `item` a discriminant that `variant` takes, if
/// `hit`, or does not take, if not.
pub open spec fn selects<I, D, F: Fn(&I) -> D, A: SwitchCaseMatch<D>>(
    selector: F,
    variant: A,
    item: &I,
    hit: bool,
) -> bool {
    exists|found: D| #[trigger]
        call_ensures(selector, (item,), found) && hit == variant.takes(&found)
}

impl<I, D, F, A, S, C> Service<I> for SwitchMatchCase<I, F, A, S, C> where
    S: Service<I>,
    C: SwitchCase<I, Out = S::Out>,
    A: SwitchCaseMatch<D>,
    F: Fn(&I) -> D,
 {
    type Out = S::Out;

    /// The stages are valid, the selector takes every item, and the
    /// pattern keeps to `takes`.
    open spec fn wf(&self) -> bool {
        &&& self.case matches Some(inner) ==> inner.wf()
        &&& self.service.wf()
        &&& forall|item: I| call_requires(self.selector, (&item,))
        &&& A::obeys()
    }

    /// An item goes to the first case that takes it: to one declared
    /// before, or else to this one; an item that none takes is dropped.
    open spec fn handles(&self, input: I, cx: &Context, then: &Self, out: Seq<S::Out>) -> bool {
        &&& then.selector == self.selector
        &&& then.variant == self.variant
        &&& exists|before: bool, own: bool|
            #![trigger earlier(self.case, &input, before), selects(self.selector, self.variant, &input, own)]
            earlier(self.case, &input, before) && if before {
                routed(self.case, input, cx, then.case, out) && then.service == self.service
            } else {
                then.case == self.case && selects(self.selector, self.variant, &input, own) && if own {
                    self.service.handles(input, cx, &then.service, out)
                } else {
                    then.service == self.service && out.len() == 0
                }
            }
    }

    fn handle(&mut self, input: I, cx: &Context) -> (out: Vec<S::Out>) {
        let before = match &self.case {
            Some(inner) => inner.try_match(&input),
            None => false,
        };
        let mut own = false;
        let out = if before {
            match &mut self.case {
                Some(inner) => inner.handle(input, cx),
                None => Vec::new(),
            }
        } else {
            let found = (self.selector)(&input);
            own = self.variant.check_match(&found);
            assert(call_ensures(self.selector, (&input,), found) && own == self.variant.takes(&found));
            if own {
                self.service.handle(input, cx)
            } else {
                Vec::new()
            }
        };
        let ghost chosen = selects(old(self).selector, old(self).variant, &input, own);
        assert(earlier(old(self).case, &input, before) && (!before ==> chosen));
        out
    }
}

impl<I, D, F, A, S, C> SwitchCase<I> for SwitchMatchCase<I, F, A, S, C> where
    S: Service<I>,
    C: SwitchCase<I, Out = S::Out>,
    A: SwitchCaseMatch<D>,
    F: Fn(&I) -> D,
 {
    /// An item is for this switch if one of the cases declared before
    /// takes it, or else this one does.
    open spec fn decides(&self, item: &I, hit: bool) -> bool {
        exists|before: bool| #[trigger]
            earlier(self.case, item, before) && if before {
                hit
            } else {
                selects(self.selector, self.variant, item, hit)
            }
    }

    fn try_match(&self, item: &I) -> (hit: bool) {
        let before = match &self.case {
            Some(inner) => inner.try_match(item),
            None => false,
        };
        if before {
            assert(earlier(self.case, item, before));
            return true;
        }
        let found = (self.selector)(item);
        let hit = self.variant.check_match(&found);
        assert(call_ensures(self.selector, (item,), found) && hit == self.variant.takes(&found));
        assert(earlier(self.case, item, before));
        hit
    }
}

impl<I, F: Copy, A, S, C> SwitchMatchCase<I, F, A, S, C> {
    /// Declares one more case: `service` gets the items whose discriminant
    /// `variant` takes and that no case declared before takes.
    #[inline]
    pub fn case<B, Cs>(self, variant: B, service: Cs) -> (next: SwitchMatchCase<I, F, B, Cs, Self>)
        ensures
            next.case == Some(self),
            next.selector == self.selector,
            next.variant == variant,
            next.service == service,
    {
        let selector = self.selector;
        SwitchMatchCase { selector, case: Some(self), variant, service, m: PhantomData }
    }

    /// Declares the default: `service` gets the items that no case takes.
    #[inline]
    pub fn default<Cs>(self, service: Cs) -> (whole: SwitchDefaultCase<I, Cs, Self>)
        ensures
            whole.case == Some(self),
            whole.service == service,
    {
        SwitchDefaultCase { case: Some(self), service, m: PhantomData }
    }
}

/// A switch without cases yet.
pub struct Switch<I, O, F, D> {
    pub selector: F,
    pub m: PhantomData<(I, O, D)>,
}

impl<I, O, F, D> Switch<I, O, F, D> {
    /// Declares the first case: `service` gets the items whose
    /// discriminant `variant` takes.
    #[inline]
    pub fn case<A, Cs>(self, variant: A, service: Cs) -> (next: SwitchMatchCase<
        I,
        F,
        A,
        Cs,
        Stub<O>,
    >)
        ensures
            next.case is None,
            next.selector == self.selector,
            next.variant == variant,
            next.service == service,
    {
        SwitchMatchCase {
            case: None::<Stub<O>>,
            selector: self.selector,
            variant,
            service,
            m: PhantomData,
        }
    }

    /// Declares the default of a switch without cases: `service` gets
    /// every item.
    #[inline]
    pub fn default<Cs>(self, service: Cs) -> (whole: SwitchDefaultCase<I, Cs, Stub<O>>)
        ensures
            whole.case is None,
            whole.service == service,
    {
        SwitchDefaultCase { case: None::<Stub<O>>, service, m: PhantomData }
    }
}

/// A switch without cases and without a default drops every item.
impl<I, O, F, D> Service<I> for Switch<I, O, F, D> {
    type Out = O;

    open spec fn wf(&self) -> bool {
        true
    }

    open spec fn handles(&self, input: I, cx: &Context, then: &Self, out: Seq<O>) -> bool {
        out.len() == 0
    }

    fn handle(&mut self, _input: I, _cx: &Context) -> (out: Vec<O>) {
        Vec::new()
    }
}

/// A switch on the discriminant that `selector` reads off each item.
pub fn switch<I, O, F, D>(selector: F) -> (start: Switch<I, O, F, D>) where F: Fn(&I) -> D
    ensures
        start.selector == selector,
{
    Switch { selector, m: PhantomData }
}

} // verus!
