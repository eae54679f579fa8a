use flowly::context::Context;
use flowly::spsc::Poll;

#[test]
fn new_context_is_not_aborted() {
    assert!(!Context::new().has_changed());
    assert!(!Context::default().has_changed());
}

#[test]
fn abort_is_seen_by_later_copies() {
    let mut cx = Context::new();
    let before = cx;
    cx.abort();
    assert!(cx.has_changed());
    assert!(cx.clone().has_changed());
    assert!(!before.has_changed());
    cx.abort();
    assert!(cx.has_changed());
}

#[test]
fn fuse_hands_the_result_through_while_the_run_goes_on() {
    let cx = Context::new();
    assert!(matches!(cx.fuse_abort(Poll::Ready(4)), Poll::Ready(Some(4))));
    assert!(matches!(cx.fuse_abort(Poll::<u8>::Pending), Poll::Pending));
}

#[test]
fn fuse_lets_the_abort_win() {
    let mut cx = Context::new();
    cx.abort();
    assert!(matches!(cx.fuse_abort(Poll::Ready(4)), Poll::Ready(None)));
    assert!(matches!(cx.fuse_abort(Poll::<u8>::Pending), Poll::Ready(None)));
}
