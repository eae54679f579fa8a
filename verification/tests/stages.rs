use flowly::and_then::and_then;
use flowly::chain::{Chain, Left};
use flowly::context::Context;
use flowly::either::Either;
use flowly::except::Except;
use flowly::filter::Filter;
use flowly::inspect::Inspect;
use flowly::map::{filter_map, map_if_else, try_filter_map, try_map};
use flowly::maybe::{done_wrapper, Done, Maybe};
use flowly::pass::flow;
use flowly::scope::{gather, scope, scope_each};
use flowly::service::{Service, ServiceExt};
use flowly::spsc::Poll;
use flowly::stub::stub;
use flowly::void::Void;
use std::cell::RefCell;
use std::marker::PhantomData;

/// Puts out `n`, `n - 1`, ..., 1 for the item `n`, and fails on zero.
#[derive(Clone)]
struct Down {
    calls: u32,
}

impl Service<u32> for Down {
    type Out = Result<u32, String>;

    fn handle(&mut self, input: u32, _cx: &Context) -> Vec<Result<u32, String>> {
        self.calls += 1;
        if input == 0 {
            vec![Err("zero".to_string())]
        } else {
            (1..=input).rev().map(Ok).collect()
        }
    }

    fn finalize(&mut self, _cx: &Context) {
        self.calls = 0;
    }
}

/// Doubles an item and fails on odd ones over ten.
struct Double;

impl Service<u32> for Double {
    type Out = Result<u32, u8>;

    fn handle(&mut self, input: u32, _cx: &Context) -> Vec<Result<u32, u8>> {
        if input > 10 && input % 2 == 1 {
            vec![Err(7)]
        } else {
            vec![Ok(input * 2)]
        }
    }
}

#[test]
fn pass_hands_every_item_on() {
    let cx = Context::new();
    let mut stage = flow::<u32>();
    assert_eq!(stage.handle(4, &cx), vec![Ok::<u32, Void>(4)]);
    assert_eq!(stage.handle_stream(vec![1, 2], &cx), vec![Ok(1), Ok(2)]);
}

#[test]
fn stub_drops_every_item() {
    let cx = Context::new();
    let mut stage = stub::<u8>();
    assert_eq!(Service::<u32>::handle(&mut stage, 4, &cx), Vec::<u8>::new());
}

#[test]
fn pair_sends_each_success_through_the_second_stage() {
    let cx = Context::new();
    let mut pair = Down { calls: 0 }.flow(Double);
    assert_eq!(pair.handle(3, &cx), vec![Ok(6), Ok(4), Ok(2)]);
    assert_eq!(pair.handle(0, &cx), vec![Err(Either::Left("zero".to_string()))]);
    assert_eq!(pair.0.calls, 2);
}

#[test]
fn pair_tags_the_failures_of_the_second_stage() {
    let cx = Context::new();
    let mut pair = (Down { calls: 0 }, Double);
    assert_eq!(
        pair.handle(12, &cx)[..3],
        [Ok(24), Err(Either::Right(7)), Ok(20)]
    );
}

#[test]
fn pair_puts_out_item_after_item() {
    let cx = Context::new();
    let mut pair = (Down { calls: 0 }, Double);
    let out = pair.handle_stream(vec![2, 0, 1], &cx);
    assert_eq!(
        out,
        vec![Ok(4), Ok(2), Err(Either::Left("zero".to_string())), Ok(2)]
    );
    let mut again = (Down { calls: 0 }, Double);
    let mut by_hand = again.handle(2, &cx);
    by_hand.extend(again.handle(0, &cx));
    by_hand.extend(again.handle(1, &cx));
    assert_eq!(out, by_hand);
}

#[test]
fn left_keeps_the_error_of_the_first_stage() {
    let cx = Context::new();
    let mut stage = Left(Down { calls: 0 }, flowly::map::map(|x: u32| x + 100));
    assert_eq!(stage.handle(2, &cx), vec![Ok(102), Ok(101)]);
    assert_eq!(stage.handle(0, &cx), vec![Err("zero".to_string())]);
}

#[test]
fn chain_sends_every_output_through_the_second_stage() {
    let cx = Context::new();
    let mut stage = Chain {
        service1: Down { calls: 0 },
        service2: and_then(|x: u32| if x == 2 { Err("two".to_string()) } else { Ok(x * 3) }),
    };
    assert_eq!(
        stage.handle(3, &cx),
        vec![Ok(9), Err("two".to_string()), Ok(3)]
    );
    assert_eq!(stage.handle(0, &cx), vec![Err("zero".to_string())]);
}

#[test]
fn map_family_applies_the_function() {
    let cx = Context::new();
    assert_eq!(flowly::map::map(|x: u32| x + 1).handle(1, &cx), vec![2]);
    let mut odd = filter_map(|x: u32| if x % 2 == 1 { Some(x * 10) } else { None });
    assert_eq!(odd.handle_stream(vec![1, 2, 3], &cx), vec![10, 30]);
    let mut small = try_map(|x: u32| if x < 5 { Ok(x) } else { Err(x - 5) });
    assert_eq!(small.handle_stream(vec![4, 9], &cx), vec![Ok(4), Err(4)]);
    let mut pick = try_filter_map(|x: u32| match x {
        0 => Err("zero"),
        1 => Ok(None),
        n => Ok(Some(n)),
    });
    assert_eq!(pick.handle_stream(vec![0, 1, 2], &cx), vec![Err("zero"), Ok(2)]);
}

#[test]
fn map_if_else_picks_a_stage_by_the_test() {
    let cx = Context::new();
    let mut stage = map_if_else(
        |x: &u32| *x > 2,
        flowly::map::map(|x: u32| ("big", x)),
        flowly::map::map(|x: u32| ("small", x)),
    );
    assert_eq!(stage.handle_stream(vec![1, 5], &cx), vec![("small", 1), ("big", 5)]);
}

#[test]
fn and_then_skips_failures() {
    let cx = Context::new();
    let mut stage = and_then(|x: u32| x.checked_sub(1).ok_or("underflow"));
    assert_eq!(stage.handle(Ok(3), &cx), vec![Ok(2)]);
    assert_eq!(stage.handle(Ok(0), &cx), vec![Err("underflow")]);
    assert_eq!(stage.handle(Err("before"), &cx), vec![Err("before")]);
}

#[test]
fn inspect_shows_each_item_and_hands_it_on() {
    let cx = Context::new();
    let seen = RefCell::new(Vec::new());
    let mut stage = Inspect { cb: |x: &u32| seen.borrow_mut().push(*x), m: PhantomData };
    assert_eq!(stage.handle_stream(vec![3, 1], &cx), vec![3, 1]);
    assert_eq!(*seen.borrow(), vec![3, 1]);
}

#[test]
fn flow_inspect_shows_the_successes_only() {
    let cx = Context::new();
    let seen = RefCell::new(Vec::new());
    let mut stage = Down { calls: 0 }.flow_inspect(|x: &u32| seen.borrow_mut().push(*x));
    assert_eq!(stage.handle(2, &cx), vec![Ok(2), Ok(1)]);
    assert_eq!(stage.handle(0, &cx), vec![Err("zero".to_string())]);
    assert_eq!(*seen.borrow(), vec![2, 1]);
}

#[test]
fn flow_map_and_flow_filter_map_work_on_successes() {
    let cx = Context::new();
    let mut mapped = Down { calls: 0 }.flow_map(|x: u32| x * 2);
    assert_eq!(mapped.handle(2, &cx), vec![Ok(4), Ok(2)]);
    assert_eq!(mapped.handle(0, &cx), vec![Err("zero".to_string())]);
    let mut kept = Down { calls: 0 }.flow_filter_map(|x: u32| (x != 2).then_some(x));
    assert_eq!(kept.handle(3, &cx), vec![Ok(3), Ok(1)]);
}

#[test]
fn filter_drops_what_fails_the_test() {
    let cx = Context::new();
    let mut stage = Filter { f: |x: &u32| *x != 2, s: Down { calls: 0 }, m: PhantomData };
    assert_eq!(stage.handle(1, &cx), vec![Ok(1)]);
    assert_eq!(stage.handle(2, &cx), vec![]);
    assert_eq!(stage.s.calls, 1);
}

#[test]
fn optional_stage_hands_items_on_when_absent() {
    let cx = Context::new();
    let mut absent: Option<Double> = None;
    assert_eq!(absent.handle(5, &cx), vec![Ok(5)]);
    let mut present = Some(Double);
    assert_eq!(present.handle(5, &cx), vec![Ok(10)]);
    assert_eq!(present.handle(11, &cx), vec![Err(7)]);
}

#[test]
fn except_turns_or_drops_failures() {
    let cx = Context::new();
    let mut turned = Down { calls: 0 }.except(|err: String| Some(err.len()));
    assert_eq!(turned.handle(2, &cx), vec![Ok(2), Ok(1)]);
    assert_eq!(turned.handle(0, &cx), vec![Err(4)]);
    let mut dropped = Except { service: Down { calls: 0 }, on_err: |_: String| None::<u8> };
    assert_eq!(dropped.handle(0, &cx), vec![]);
    assert_eq!(dropped.handle(1, &cx), vec![Ok(1)]);
}

#[test]
fn maybe_sends_some_items_round() {
    let cx = Context::new();
    let mut stage = Maybe {
        service: and_then(|x: u32| if x == 4 { Err('r') } else { Ok(x + 1) }),
        cond: |x: &Result<u32, char>| matches!(x, Ok(n) if n % 2 == 0),
    };
    assert_eq!(stage.handle(Ok(2), &cx), vec![Ok(3)]);
    assert_eq!(stage.handle(Ok(3), &cx), vec![Ok(3)]);
    assert_eq!(stage.handle(Ok(4), &cx), vec![Err(Either::Right('r'))]);
    assert_eq!(stage.handle(Err('l'), &cx), vec![Err(Either::Left('l'))]);
}

#[test]
fn test_maybe_flow() {
    let cx = Context::new();
    let mut flow = Maybe {
        service: and_then(|x: i32| Ok::<i32, std::io::Error>(x * 100)),
        cond: |x: &Result<i32, std::io::Error>| match x {
            Ok(x) => *x % 2 == 0,
            Err(_) => false,
        },
    };
    let input: Vec<Result<i32, std::io::Error>> =
        [1, 2, 3, 4, 5, 6, 7, 8, 9].into_iter().map(Ok).collect();
    let mut data: Vec<i32> = flow
        .handle_stream(input, &cx)
        .into_iter()
        .map(|x| x.ok().unwrap())
        .collect();

    data.sort(); // ordering is not guarantered

    assert_eq!(data, vec![1, 3, 5, 7, 9, 200, 400, 600, 800]);
}

#[test]
fn done_wrapper_marks_the_end_once() {
    let mut stream = done_wrapper();
    assert!(matches!(stream.poll_next(Poll::Ready(Some(1))), Poll::Ready(Some(Done::Item(1)))));
    assert!(matches!(stream.poll_next(Poll::<Option<u8>>::Pending), Poll::Pending));
    assert!(matches!(stream.poll_next(Poll::Ready(None::<u8>)), Poll::Ready(Some(Done::Done))));
    assert!(matches!(stream.poll_next(Poll::Ready(Some(2))), Poll::Ready(None)));
    assert!(matches!(stream.poll_next(Poll::Ready(None::<u8>)), Poll::Ready(None)));
}

#[test]
fn gather_stops_at_the_first_failure() {
    assert_eq!(gather(vec![Ok::<u8, char>(1), Ok(2)]), Ok(vec![1, 2]));
    assert_eq!(gather(vec![Ok(1), Err('a'), Ok(2), Err('b')]), Err('a'));
    assert_eq!(gather(Vec::<Result<u8, char>>::new()), Ok(vec![]));
}

#[test]
fn scope_keeps_the_item_beside_the_outputs() {
    let cx = Context::new();
    let mut stage = scope(
        |name: &String| name.parse::<u32>().map_err(|_| "not a number"),
        Down { calls: 0 },
    );
    assert_eq!(
        stage.handle("2".to_string(), &cx),
        vec![Ok(("2".to_string(), Ok(vec![2, 1])))]
    );
    assert_eq!(
        stage.handle("0".to_string(), &cx),
        vec![Ok(("0".to_string(), Err(Either::Left("zero".to_string()))))]
    );
    assert_eq!(
        stage.handle("x".to_string(), &cx),
        vec![Ok(("x".to_string(), Err(Either::Right("not a number"))))]
    );
    assert_eq!(stage.service.calls, 2);
}

#[test]
fn scope_each_copies_the_item_for_each_output() {
    let cx = Context::new();
    let mut stage = scope_each(
        |name: &String| name.parse::<u32>().map_err(|_| "not a number"),
        Down { calls: 0 },
    );
    assert_eq!(
        stage.handle("2".to_string(), &cx),
        vec![Ok(("2".to_string(), Ok(2))), Ok(("2".to_string(), Ok(1)))]
    );
    assert_eq!(
        stage.handle("0".to_string(), &cx),
        vec![Ok(("0".to_string(), Err(Either::Left("zero".to_string()))))]
    );
    assert_eq!(
        stage.handle("x".to_string(), &cx),
        vec![Ok(("x".to_string(), Err(Either::Right("not a number"))))]
    );
}

#[test]
fn flow_scope_runs_the_scope_on_each_success() {
    let cx = Context::new();
    let mut stage = Down { calls: 0 }.flow_scope(|x: &u32| Ok::<u32, u8>(*x - 1), Down { calls: 0 });
    assert_eq!(
        stage.handle(2, &cx),
        vec![
            Ok((2, Ok(vec![1]))),
            Ok((1, Err(Either::Left("zero".to_string())))),
        ]
    );
    let mut each =
        Down { calls: 0 }.flow_scope_each(|x: &u32| Ok::<u32, u8>(*x), Down { calls: 0 });
    assert_eq!(each.handle(1, &cx), vec![Ok((1, Ok(1)))]);
}

#[test]
fn finalize_is_the_stage_s_own() {
    let cx = Context::new();
    let mut stage = Down { calls: 0 };
    stage.handle_stream(vec![1, 2], &cx);
    assert_eq!(stage.calls, 2);
    stage.finalize(&cx);
    assert_eq!(stage.calls, 0);
    let mut plain = flow::<u32>();
    plain.finalize(&cx);
    assert_eq!(plain.handle(1, &cx), vec![Ok(1)]);
}

#[test]
fn either_gives_its_side() {
    assert_eq!(Either::<u8, char>::Left(3).into_left(), 3);
    assert_eq!(Either::<u8, char>::Right('x').into_right(), 'x');
    assert_eq!(Either::<u8, char>::Left(3).clone(), Either::Left(3));
}
