//! The framing of a worker's outputs.
//!
//! A worker handles one item after the other and puts everything out on
//! one queue. So that a reader can tell where the outputs for an item end,
//! the worker wraps each output in `Some` and closes the item with a `None`,
//! the end-of-item mark.

use vstd::prelude::*;

verus! {

/// The outputs for one item as the worker sends them: each wrapped, and the
/// end-of-item mark behind the last.
pub open spec fn framed<T>(outs: Seq<T>) -> Seq<Option<T>> {
    Seq::new(outs.len() + 1, |i: int| if i < outs.len() { Some(outs[i]) } else { None })
}

/// The outputs for several items, framed one after the other.
pub open spec fn framed_all<T>(items: Seq<Seq<T>>) -> Seq<Option<T>>
    decreases items.len(),
{
    if items.len() == 0 {
        Seq::empty()
    } else {
        framed(items.first()) + framed_all(items.drop_first())
    }
}

/// The place of the first end-of-item mark in `queue`, or the length of
/// `queue` if it holds none.
pub open spec fn mark<T>(queue: Seq<Option<T>>) -> int
    decreases queue.len(),
{
    if queue.len() == 0 {
        0
    } else if queue.first() is None {
        0
    } else {
        1 + mark(queue.drop_first())
    }
}

/// Whether `queue` holds a whole item: an end-of-item mark.
pub open spec fn complete<T>(queue: Seq<Option<T>>) -> bool {
    mark(queue) < queue.len()
}

/// The outputs at the front of `queue`, up to the first end-of-item mark.
pub open spec fn first_item<T>(queue: Seq<Option<T>>) -> Seq<T> {
    Seq::new(mark(queue) as nat, |i: int| queue[i]->Some_0)
}

/// What is left of `queue` behind the first end-of-item mark.
pub open spec fn after_first<T>(queue: Seq<Option<T>>) -> Seq<Option<T>> {
    if complete(queue) {
        queue.skip(mark(queue) + 1)
    } else {
        Seq::empty()
    }
}

/// What is left of `queue` behind the first `n` items.
pub open spec fn after<T>(queue: Seq<Option<T>>, n: nat) -> Seq<Option<T>>
    decreases n,
{
    if n == 0 {
        queue
    } else {
        after(after_first(queue), (n - 1) as nat)
    }
}

/// The mark lies within the queue, and everything before it is an output.
pub proof fn lemma_mark<T>(queue: Seq<Option<T>>)
    ensures
        0 <= mark(queue) <= queue.len(),
        forall|i: int| 0 <= i < mark(queue) ==> (#[trigger] queue[i]) is Some,
        complete(queue) ==> queue[mark(queue)] is None,
    decreases queue.len(),
{
    if queue.len() > 0 && queue.first() is Some {
        let rest = queue.drop_first();
        lemma_mark(rest);
        assert forall|i: int| 0 <= i < mark(queue) implies (#[trigger] queue[i]) is Some by {
            if i > 0 {
                assert(queue[i] == rest[i - 1]);
            }
        }
        if complete(queue) {
            assert(queue[mark(queue)] == rest[mark(rest)]);
        }
    }
}

/// The mark is the first place that holds no output.
pub proof fn lemma_mark_is<T>(queue: Seq<Option<T>>, at: int)
    requires
        0 <= at < queue.len(),
        queue[at] is None,
        forall|i: int| 0 <= i < at ==> (#[trigger] queue[i]) is Some,
    ensures
        mark(queue) == at,
    decreases at,
{
    if at > 0 {
        let rest = queue.drop_first();
        assert(queue[0] is Some);
        assert forall|i: int| 0 <= i < at - 1 implies (#[trigger] rest[i]) is Some by {
            assert(rest[i] == queue[i + 1]);
        }
        lemma_mark_is(rest, at - 1);
    }
}

/// A reader takes off a queue exactly what the worker framed: the outputs
/// for the first item, in their order, and what follows them is left.
pub proof fn lemma_unframe<T>(outs: Seq<T>, rest: Seq<Option<T>>)
    ensures
        complete(framed(outs) + rest),
        first_item(framed(outs) + rest) == outs,
        after_first(framed(outs) + rest) == rest,
{
    let queue = framed(outs) + rest;
    lemma_mark_is(queue, outs.len() as int);
    assert(first_item(queue) =~= outs);
    assert(after_first(queue) =~= rest);
}

/// Each reader in turn gets the outputs for one item, and those alone:
/// behind the outputs for the first `n` items of `items` the queue holds
/// those for item `n`, whole and in order, and then the rest.
pub proof fn lemma_item_by_item<T>(items: Seq<Seq<T>>, n: nat)
    requires
        n < items.len(),
    ensures
        complete(after(framed_all(items), n)),
        first_item(after(framed_all(items), n)) == items[n as int],
        after(framed_all(items), n + 1) == framed_all(items.skip(n as int + 1)),
    decreases n,
{
    let queue = framed_all(items);
    let tail = items.drop_first();
    lemma_unframe(items.first(), framed_all(tail));
    if n == 0 {
        assert(items.skip(1) =~= tail);
        assert(after(after_first(queue), 0) == after_first(queue));
    } else {
        lemma_item_by_item(tail, (n - 1) as nat);
        assert(tail.skip(n as int) =~= items.skip(n as int + 1));
        assert(tail[n - 1] == items[n as int]);
        lemma_after_shift(queue, n);
    }
}

/// Skipping `n + 1` items is skipping one and then `n`, or `n` and then
/// one.
pub proof fn lemma_after_shift<T>(queue: Seq<Option<T>>, n: nat)
    ensures
        after(queue, n + 1) == after_first(after(queue, n)),
    decreases n,
{
    if n > 0 {
        lemma_after_shift(after_first(queue), (n - 1) as nat);
    } else {
        assert(after(after_first(queue), 0) == after_first(queue));
    }
}

/// Framing one more item adds its frame behind the others.
pub proof fn lemma_framed_all_push<T>(items: Seq<Seq<T>>, outs: Seq<T>)
    ensures
        framed_all(items.push(outs)) == framed_all(items) + framed(outs),
    decreases items.len(),
{
    let all = items.push(outs);
    if items.len() == 0 {
        assert(all.drop_first() =~= Seq::<Seq<T>>::empty());
        assert(framed_all(all.drop_first()) =~= Seq::<Option<T>>::empty());
        assert(framed_all(all) =~= framed_all(items) + framed(outs));
    } else {
        lemma_framed_all_push(items.drop_first(), outs);
        assert(all.drop_first() =~= items.drop_first().push(outs));
        assert(framed_all(all) =~= framed_all(items) + framed(outs));
    }
}

/// Frames the outputs for one item.
pub fn frame<T>(outs: Vec<T>) -> (queue: Vec<Option<T>>)
    ensures
        queue@ == framed(outs@),
{
    let ghost all = outs@;
    let mut queue: Vec<Option<T>> = Vec::new();
    for out in it: outs
        invariant
            it.seq() == all,
            queue@.len() == it.index(),
            forall|i: int| 0 <= i < it.index() ==> queue@[i] == Some(all[i]),
    {
        queue.push(Some(out));
    }
    queue.push(None);
    assert(queue@ =~= framed(all));
    queue
}

/// Reads one message off a worker's queue: an output, or the end of the
/// item. The end of the item is its mark, or a queue that has been closed.
pub fn unframe<T>(msg: Option<Option<T>>) -> (out: Option<T>)
    ensures
        out == match msg {
            Some(Some(val)) => Some(val),
            Some(None) => None,
            None => None,
        },
{
    match msg {
        Some(Some(val)) => Some(val),
        Some(None) => None,
        None => None,
    }
}

} // verus!
