use flowly::pipe::{pipeline, Service, ServiceExt, TryServiceExt};
use std::cell::Cell;

type Res = Result<i32, String>;

fn items() -> Vec<Res> {
    vec![Ok(1), Err("bad".to_string()), Ok(2)]
}

#[test]
fn pipeline_hands_every_item_on() {
    assert_eq!(pipeline().handle(vec![3, 1, 2]), vec![3, 1, 2]);
    assert_eq!(pipeline().handle(Vec::<u8>::new()), Vec::<u8>::new());
}

#[test]
fn map_applies_the_function_to_each_item() {
    let stage = pipeline().map(|x: i32| x * 2).map(|x: i32| x + 1);
    assert_eq!(stage.handle(vec![1, 2, 3]), vec![3, 5, 7]);
}

#[test]
fn map_ok_leaves_failures_alone() {
    let stage = pipeline().map_ok(|x: i32| x * 100);
    assert_eq!(
        stage.handle(items()),
        vec![Ok(100), Err("bad".to_string()), Ok(200)]
    );
}

#[test]
fn and_then_may_fail_on_a_success() {
    let stage = pipeline().and_then(|x: i32| if x > 1 { Err(format!("{x} is too much")) } else { Ok(x) });
    assert_eq!(
        stage.handle(items()),
        vec![Ok(1), Err("bad".to_string()), Err("2 is too much".to_string())]
    );
}

#[test]
fn finally_adds_its_failure_behind_the_last_item() {
    let fails =
        TryServiceExt::<i32, String>::finally::<i32, String, _>(pipeline(), || Err("at the end".to_string()));
    assert_eq!(
        fails.handle(items()),
        vec![Ok(1), Err("bad".to_string()), Ok(2), Err("at the end".to_string())]
    );
    let calls = Cell::new(0);
    let fine = TryServiceExt::<i32, String>::finally::<i32, String, _>(pipeline(), || {
        calls.set(calls.get() + 1);
        Ok::<(), String>(())
    });
    assert_eq!(fine.handle(items()), items());
    assert_eq!(calls.get(), 1);
}

#[test]
fn except_drops_or_replaces_failures() {
    let drops = TryServiceExt::<i32, String>::except::<i32, String, _>(pipeline(), |_: String| Ok(()));
    assert_eq!(drops.handle(items()), vec![Ok(1), Ok(2)]);
    let replaces = TryServiceExt::<i32, String>::except::<i32, String, _>(pipeline(), |err: String| {
        Err(err.to_uppercase())
    });
    assert_eq!(
        replaces.handle(items()),
        vec![Ok(1), Err("BAD".to_string()), Ok(2)]
    );
}

#[test]
fn stub_keeps_the_failures_only() {
    let stage = TryServiceExt::<i32, String>::stub::<i32, String>(pipeline());
    assert_eq!(stage.handle(items()), vec![Err("bad".to_string())]);
}

#[test]
fn try_flatten_map_puts_the_sequences_in_a_row() {
    let stage = pipeline().try_flatten_map(|x: i32| {
        if x == 2 {
            Err("two".to_string())
        } else {
            Ok(vec![Ok(x), Err("inside".to_string()), Ok(x * 10)])
        }
    });
    assert_eq!(
        stage.handle(items()),
        vec![
            Ok(1),
            Err("inside".to_string()),
            Ok(10),
            Err("bad".to_string()),
            Err("two".to_string()),
        ]
    );
}

#[test]
fn maybe_pipe_leaves_out_an_absent_stage() {
    let absent = pipeline().maybe_pipe(None::<flowly::pipe::MapEachFn<i32, fn(i32) -> i32>>);
    assert_eq!(absent.handle(vec![1, 2]), vec![1, 2]);
    let present = pipeline().maybe_pipe(Some(pipeline().map(|x: i32| -x)));
    assert_eq!(present.handle(vec![1, 2]), vec![-1, -2]);
}

#[test]
fn spawn_gives_what_the_stage_puts_out() {
    let stage = pipeline().map(|x: i32| x + 1).spawn(4);
    assert_eq!(stage.buffer, 4);
    assert_eq!(stage.handle(vec![1, 2, 3]), vec![2, 3, 4]);
}

#[test]
fn abort_token_cuts_the_outputs() {
    let never = ServiceExt::<i32>::abort_token(pipeline(), || false);
    assert_eq!(never.handle(vec![1, 2, 3]), vec![1, 2, 3]);
    let at_once = ServiceExt::<i32>::abort_token(pipeline(), || true);
    assert_eq!(at_once.handle(vec![1, 2, 3]), Vec::<i32>::new());
    let asked = Cell::new(0);
    let third = ServiceExt::<i32>::abort_token(pipeline(), || {
        asked.set(asked.get() + 1);
        asked.get() > 2
    });
    assert_eq!(third.handle(vec![1, 2, 3, 4]), vec![1, 2]);
    assert_eq!(asked.get(), 3);
}
