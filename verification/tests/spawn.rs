use flowly::context::Context;
use flowly::service::{Service, ServiceExt};
use flowly::spawn::{SpawnEachTask, MAX_SPAWN_TASKS};
use flowly::spawn_each::{deliver, relay};
use flowly::spsc::{Poll, SendError};

#[derive(Clone)]
struct Steps;

impl Service<i32> for Steps {
    type Out = Result<u64, String>;

    fn handle(&mut self, item: i32, _cx: &Context) -> Vec<Result<u64, String>> {
        if item < 0 {
            return vec![Err(format!("negative: {item}"))];
        }
        (0..4).map(|k| Ok(item as u64 + k)).collect()
    }
}

#[test]
fn relay_passes_results_until_the_abort() {
    let mut cx = Context::new();
    assert!(matches!(relay(&cx, Poll::Ready(Some(5))), Poll::Ready(Some(5))));
    assert!(matches!(relay(&cx, Poll::Ready(None::<u8>)), Poll::Ready(None)));
    assert!(matches!(relay(&cx, Poll::<Option<u8>>::Pending), Poll::Pending));
    cx.abort();
    assert!(matches!(relay(&cx, Poll::Ready(Some(5))), Poll::Ready(None)));
    assert!(matches!(relay(&cx, Poll::<Option<u8>>::Pending), Poll::Ready(None)));
}

#[test]
fn deliver_gives_all_or_nothing() {
    let mut cx = Context::new();
    assert_eq!(deliver(&cx, vec![1, 2, 3]), vec![1, 2, 3]);
    cx.abort();
    assert_eq!(deliver(&cx, vec![1, 2, 3]), Vec::<i32>::new());
}

#[test]
fn task_per_item_streams_the_results_of_a_copy() {
    let cx = Context::new();
    let mut stage = Steps.spawn_each();
    assert_eq!(stage.capacity(), 2);
    let out = stage.handle_stream(vec![10, -1], &cx);
    assert_eq!(
        out,
        vec![
            Ok(vec![Ok(10), Ok(11), Ok(12), Ok(13)]),
            Ok(vec![Err("negative: -1".to_string())]),
        ]
    );
}

#[test]
fn task_per_item_stops_on_abort() {
    let mut cx = Context::new();
    cx.abort();
    let mut stage = flowly::spawn_each::spawn_each::<i32, _>(Steps);
    assert_eq!(stage.handle(10, &cx), vec![Ok(vec![])]);
}

#[test]
fn task_queue_is_bounded() {
    let cx = Context::new();
    let mut task: SpawnEachTask<i32, Steps> = SpawnEachTask::new(0, 2, Steps, 1);
    assert!(task.try_send(2).is_ok());
    assert!(task.try_send(3).is_ok());
    let full = task.try_send(4).unwrap_err();
    assert_eq!(full.err, SendError::Full);
    assert_eq!(full.val, 4);
    let mut queue = Vec::new();
    assert!(task.run(&cx, &mut queue));
    assert_eq!(queue, vec![Some(Ok(1)), Some(Ok(2)), Some(Ok(3)), Some(Ok(4)), None]);
    assert!(task.try_send(4).is_ok());
}

#[test]
fn capped_pool_handles_item_by_item() {
    let cx = Context::new();
    let mut pool = flowly::spawn::spawn_each::<i32, _>(Steps);
    assert_eq!(pool.handle(10, &cx), vec![Ok(10), Ok(11), Ok(12), Ok(13)]);
    assert_eq!(pool.len(), 1);
    for _ in 0..20 {
        assert_eq!(pool.handle(-3, &cx), vec![Err("negative: -3".to_string())]);
    }
    assert_eq!(pool.len(), 1);
}

#[test]
fn capped_pool_fills_tasks_before_it_makes_new_ones() {
    let cx = Context::new();
    let mut pool = flowly::spawn::spawn_each::<i32, _>(Steps);
    assert_eq!(pool.place(0, 0, &cx), 0);
    assert_eq!(pool.place(1, 0, &cx), 0);
    assert_eq!(pool.place(2, 0, &cx), 0);
    assert_eq!(pool.len(), 1);
    assert_eq!(pool.place(3, 0, &cx), 1);
    assert_eq!(pool.len(), 2);
    assert_eq!(pool.place(4, 1, &cx), 1);
    assert_eq!(pool.place(5, 0, &cx), 1);
    assert_eq!(pool.place(6, 1, &cx), 2);
    assert!(pool.run(0, &cx));
    assert_eq!(pool.drain_rx(), vec![Ok(0), Ok(1), Ok(2), Ok(3)]);
    assert_eq!(pool.drain_rx(), vec![]);
    assert_eq!(pool.place(7, 2, &cx), 2);
    assert_eq!(pool.place(8, 1, &cx), 2);
    assert_eq!(pool.place(9, 1, &cx), 0);
    assert_eq!(pool.len(), 3);
}

#[test]
fn capped_pool_stops_growing_at_the_cap() {
    let cx = Context::new();
    let mut pool = flowly::spawn::spawn_each::<i32, _>(Steps);
    for item in 0..(3 * MAX_SPAWN_TASKS as i32) {
        pool.place(item, 0, &cx);
    }
    assert_eq!(pool.len(), MAX_SPAWN_TASKS);
    assert_eq!(MAX_SPAWN_TASKS, 256);
    assert_eq!(pool.drain_rx(), vec![]);
    assert_eq!(pool.place(1000, 5, &cx), 5);
    assert_eq!(pool.len(), MAX_SPAWN_TASKS);
    assert_eq!(pool.drain_rx(), vec![Ok(15), Ok(16), Ok(17), Ok(18)]);
    assert!(pool.run(5, &cx));
    assert!(pool.run(5, &cx));
    assert!(pool.run(5, &cx));
    assert!(!pool.run(5, &cx));
    pool.drain_rx();
    pool.drain_rx();
    assert_eq!(pool.drain_rx(), vec![Ok(1000), Ok(1001), Ok(1002), Ok(1003)]);
}
