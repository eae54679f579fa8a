use flowly::concurrent_each::{
    choose_free, concurrent_each, first_free, ConcurrentEach, ConcurrentRx, ConcurrentTask,
};
use flowly::context::Context;
use flowly::framing::{frame, unframe};
use flowly::service::{Service, ServiceExt};
use flowly::spsc::Poll;

#[derive(Clone)]
struct Countdown;

impl Service<u32> for Countdown {
    type Out = Result<u32, String>;

    fn handle(&mut self, input: u32, _cx: &Context) -> Vec<Result<u32, String>> {
        if input == 0 {
            vec![Err("zero".to_string())]
        } else {
            (0..input).rev().map(|n| Ok(input * 10 + n)).collect()
        }
    }
}

type Rx = ConcurrentRx<Result<u32, String>>;

fn reader(out: Vec<Result<Rx, String>>) -> Rx {
    assert_eq!(out.len(), 1);
    out.into_iter().next().unwrap().ok().unwrap()
}

fn read_all(pool: &mut ConcurrentEach<u32, Countdown>, rx: &mut Rx) -> Vec<Result<u32, String>> {
    let mut got = Vec::new();
    loop {
        match pool.poll_next(rx) {
            Poll::Ready(Some(res)) => got.push(res),
            Poll::Ready(None) => return got,
            Poll::Pending => panic!("the reader has to wait"),
        }
    }
}

#[test]
fn frame_wraps_outputs_and_ends_with_the_mark() {
    assert_eq!(frame(vec![7, 8]), vec![Some(7), Some(8), None]);
    assert_eq!(frame(Vec::<u8>::new()), vec![None]);
}

#[test]
fn unframe_reads_mark_and_closed_queue_as_the_end() {
    assert_eq!(unframe(Some(Some(5))), Some(5));
    assert_eq!(unframe(Some(None::<u8>)), None);
    assert_eq!(unframe(None::<Option<u8>>), None);
}

#[test]
fn worker_hands_out_turns_in_order() {
    let cx = Context::new();
    let mut task: ConcurrentTask<u32, Countdown> = ConcurrentTask::new(0, Countdown);
    assert!(task.is_available());
    let mut first = task.send(0, 2);
    assert!(!task.is_available());
    let mut second = task.send(0, 1);
    assert!(task.run(&cx));
    assert!(task.run(&cx));
    assert!(!task.run(&cx));
    assert!(matches!(task.poll_next(&mut second), Poll::Pending));
    assert_eq!(task.drain(&mut first), vec![Ok(21), Ok(20)]);
    assert!(first.is_done());
    assert!(!task.is_available());
    assert_eq!(task.drain(&mut second), vec![Ok(10)]);
    assert!(second.is_done());
    assert!(task.is_available());
    assert!(matches!(task.poll_next(&mut second), Poll::Ready(None)));
}

#[test]
fn reader_waits_for_the_worker() {
    let cx = Context::new();
    let mut task: ConcurrentTask<u32, Countdown> = ConcurrentTask::new(3, Countdown);
    let mut rx = task.send(3, 1);
    assert!(matches!(task.poll_next(&mut rx), Poll::Pending));
    assert_eq!(task.drain(&mut rx), vec![]);
    assert!(!rx.is_done());
    assert!(task.run(&cx));
    assert!(matches!(task.poll_next(&mut rx), Poll::Ready(Some(Ok(10)))));
    assert!(matches!(task.poll_next(&mut rx), Poll::Ready(None)));
    assert!(rx.is_done());
}

#[test]
fn pool_gives_each_item_a_worker_of_its_own_up_to_the_limit() {
    let cx = Context::new();
    let mut pool = concurrent_each::<u32, _>(Countdown, 3);
    let mut readers: Vec<Rx> = pool
        .handle_stream(vec![3, 0, 1], &cx)
        .into_iter()
        .map(|res| res.ok().unwrap())
        .collect();
    assert_eq!(pool.len(), 3);
    for (k, rx) in readers.iter().enumerate() {
        assert_eq!(rx.index(), k);
    }
    for k in [2, 0, 1] {
        assert!(pool.run(k, &cx));
    }
    assert_eq!(read_all(&mut pool, &mut readers[1]), vec![Err("zero".to_string())]);
    assert_eq!(read_all(&mut pool, &mut readers[2]), vec![Ok(10)]);
    assert_eq!(read_all(&mut pool, &mut readers[0]), vec![Ok(32), Ok(31), Ok(30)]);
}

#[test]
fn pool_of_one_makes_the_second_item_wait() {
    let cx = Context::new();
    let mut pool = Countdown.concurrent_each(1);
    let mut first = reader(pool.handle(2, &cx));
    let mut second = reader(pool.handle(1, &cx));
    assert_eq!(pool.len(), 1);
    assert_eq!(first.index(), 0);
    assert_eq!(second.index(), 0);
    assert!(pool.run(0, &cx));
    assert!(pool.run(0, &cx));
    assert!(matches!(pool.poll_next(&mut second), Poll::Pending));
    assert!(matches!(pool.poll_next(&mut first), Poll::Ready(Some(Ok(21)))));
    assert!(matches!(pool.poll_next(&mut second), Poll::Pending));
    assert!(matches!(pool.poll_next(&mut first), Poll::Ready(Some(Ok(20)))));
    assert!(matches!(pool.poll_next(&mut second), Poll::Pending));
    assert!(matches!(pool.poll_next(&mut first), Poll::Ready(None)));
    assert!(matches!(pool.poll_next(&mut second), Poll::Ready(Some(Ok(10)))));
    assert!(matches!(pool.poll_next(&mut second), Poll::Ready(None)));
}

#[test]
fn full_pool_prefers_a_free_worker() {
    let cx = Context::new();
    let mut pool = concurrent_each::<u32, _>(Countdown, 3);
    let mut readers: Vec<Rx> =
        (1..=3).map(|item| reader(pool.handle(item, &cx))).collect();
    assert!(pool.run(1, &cx));
    assert_eq!(pool.drain(&mut readers[1]), vec![Ok(21), Ok(20)]);
    for start in 0..3 {
        assert_eq!(pool.pick(start), 1);
    }
    let mut next = reader(pool.handle(1, &cx));
    assert_eq!(next.index(), 1);
    assert!(pool.run(1, &cx));
    assert_eq!(pool.drain(&mut next), vec![Ok(10)]);
}

#[test]
fn full_pool_scans_round_from_the_start() {
    let cx = Context::new();
    let mut pool = concurrent_each::<u32, _>(Countdown, 4);
    let mut readers: Vec<Rx> =
        (1..=4).map(|item| reader(pool.handle(item, &cx))).collect();
    for k in [0, 2] {
        assert!(pool.run(k, &cx));
        pool.drain(&mut readers[k]);
    }
    assert_eq!(pool.pick(0), 0);
    assert_eq!(pool.pick(1), 2);
    assert_eq!(pool.pick(2), 2);
    assert_eq!(pool.pick(3), 0);
}

#[test]
fn busy_pool_falls_back_to_the_start() {
    let cx = Context::new();
    let mut pool = concurrent_each::<u32, _>(Countdown, 3);
    for item in 1..=3 {
        pool.handle(item, &cx);
    }
    for start in 0..3 {
        assert_eq!(pool.pick(start), start);
    }
    for _ in 0..50 {
        let rx = reader(pool.handle(1, &cx));
        assert!(rx.index() < 3);
        assert_eq!(pool.len(), 3);
    }
}

#[test]
fn reader_of_another_pool_is_at_its_end() {
    let cx = Context::new();
    let mut big = concurrent_each::<u32, _>(Countdown, 2);
    big.handle(1, &cx);
    let mut rx = reader(big.handle(1, &cx));
    assert_eq!(rx.index(), 1);
    let mut small = concurrent_each::<u32, _>(Countdown, 2);
    assert!(matches!(small.poll_next(&mut rx), Poll::Ready(None)));
    assert!(rx.is_done());
}

#[test]
fn copy_of_a_pool_starts_without_workers() {
    let cx = Context::new();
    let mut pool = concurrent_each::<u32, _>(Countdown, 2);
    pool.handle(1, &cx);
    let copy = pool.clone();
    assert_eq!(pool.len(), 1);
    assert_eq!(copy.len(), 0);
}

#[test]
fn first_free_looks_once_round() {
    let free = vec![false, true, false, true];
    assert_eq!(first_free(&free, 0), 1);
    assert_eq!(first_free(&free, 1), 1);
    assert_eq!(first_free(&free, 2), 3);
    assert_eq!(first_free(&free, 3), 3);
    let late = vec![true, false, false];
    assert_eq!(first_free(&late, 1), 0);
    assert_eq!(first_free(&late, 2), 0);
    let none = vec![false, false, false];
    for start in 0..3 {
        assert_eq!(first_free(&none, start), start);
    }
}

#[test]
fn choose_free_stays_within_the_pool() {
    let none = vec![false; 5];
    let one = vec![false, false, true, false];
    for _ in 0..200 {
        assert!(choose_free(&none) < 5);
        assert_eq!(choose_free(&one), 2);
        assert_eq!(choose_free(&vec![false]), 0);
    }
}
