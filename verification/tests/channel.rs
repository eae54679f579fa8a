use flowly::context::Context;
use flowly::pass::flow;
use flowly::service::{Service, ServiceExt};
use flowly::spsc::{channel, Poll, SendError, TryRecvError};

struct Doubler {
    seen: u32,
}

impl Service<u32> for Doubler {
    type Out = u32;

    fn handle(&mut self, input: u32, _cx: &Context) -> Vec<u32> {
        self.seen += 1;
        vec![input, input * 2]
    }
}

#[test]
fn channel_is_fifo() {
    let (mut shared, mut tx, mut rx) = channel::<&str, u8>(1);
    assert!(tx.start_send(&mut shared, "hello").is_ok());
    assert!(tx.start_send(&mut shared, "world").is_ok());
    let full = tx.start_send(&mut shared, "again").unwrap_err();
    assert_eq!(full.err, SendError::Full);
    assert_eq!(full.val, "again");
    assert_eq!(rx.try_recv(&mut shared), Ok(Some("hello")));
    assert_eq!(rx.try_recv(&mut shared), Ok(Some("world")));
    assert_eq!(rx.try_recv(&mut shared), Ok(None));
    tx.close(&mut shared);
    assert_eq!(rx.try_recv(&mut shared), Err(TryRecvError::Disconnected));
    assert!(matches!(rx.poll_recv(&mut shared, 7).0, Poll::Ready(None)));
}

#[test]
fn user_stage_streams_in_order() {
    let cx = Context::new();
    let mut stage = Doubler { seen: 0 };
    assert_eq!(stage.handle_stream(vec![1, 2, 3], &cx), vec![1, 2, 2, 4, 3, 6]);
    assert_eq!(stage.seen, 3);
    let mut plus = flowly::map::map::<u32, _>(|x: u32| x + 1);
    assert_eq!(plus.handle_stream(vec![1, 2], &cx), vec![2, 3]);
    let mut pass = flow::<u8>();
    assert_eq!(pass.handle(9, &cx).len(), 1);
}

#[test]
fn close_lets_the_buffered_items_out() {
    let (mut shared, mut tx, mut rx) = channel::<u32, u8>(3);
    assert!(tx.try_send(&mut shared, 10).0.is_ok());
    assert!(tx.try_send(&mut shared, 20).0.is_ok());
    tx.close(&mut shared);
    assert!(rx.is_closed(&shared));
    assert!(matches!(rx.poll_recv(&mut shared, 1).0, Poll::Ready(Some(10))));
    assert!(matches!(rx.poll_recv(&mut shared, 1).0, Poll::Ready(Some(20))));
    assert!(matches!(rx.poll_recv(&mut shared, 1).0, Poll::Ready(None)));
    assert_eq!(rx.try_recv(&mut shared), Err(TryRecvError::Disconnected));
}

#[test]
fn try_send_on_a_full_channel_gives_the_item_back() {
    let (mut shared, mut tx, _rx) = channel::<String, u8>(1);
    assert!(tx.try_send(&mut shared, "a".to_string()).0.is_ok());
    assert!(tx.try_send(&mut shared, "b".to_string()).0.is_ok());
    assert!(shared.is_full());
    let (res, peer) = tx.try_send(&mut shared, "c".to_string());
    let full = res.unwrap_err();
    assert_eq!(full.err, SendError::Full);
    assert_eq!(full.val, "c");
    assert_eq!(peer, None);
    assert_eq!(shared.len(), 2);
}

#[test]
fn hello_world_comes_out_in_send_order() {
    let (mut shared, mut tx, mut rx) = channel::<&str, u8>(1);
    assert!(tx.send(&mut shared, "hello", 1).0.is_ok());
    assert!(tx.send(&mut shared, "world", 2).0.is_ok());
    assert!(matches!(rx.poll_recv(&mut shared, 3).0, Poll::Ready(Some("hello"))));
    assert!(matches!(rx.poll_recv(&mut shared, 3).0, Poll::Ready(Some("world"))));
    tx.close(&mut shared);
    assert!(matches!(rx.poll_recv(&mut shared, 3).0, Poll::Ready(None)));
}

#[test]
fn least_channel_has_two_slots() {
    let (mut shared, mut tx, _rx) = channel::<u8, u8>(0);
    assert!(shared.is_empty());
    assert!(tx.start_send(&mut shared, 1).is_ok());
    assert!(tx.start_send(&mut shared, 2).is_ok());
    assert_eq!(tx.start_send(&mut shared, 3).unwrap_err().err, SendError::Full);
    let (mut shared, mut tx, _rx) = channel::<u8, u8>(5);
    for item in 0..6 {
        assert!(tx.start_send(&mut shared, item).is_ok());
    }
    assert_eq!(tx.start_send(&mut shared, 6).unwrap_err().val, 6);
    assert_eq!(shared.len(), 6);
}

#[test]
fn send_to_a_closed_channel_is_disconnected() {
    let (mut shared, mut tx, mut rx) = channel::<u8, u8>(2);
    assert!(!tx.is_closed(&shared));
    rx.close(&mut shared);
    assert!(tx.is_closed(&shared));
    let refused = tx.try_send(&mut shared, 9).0.unwrap_err();
    assert_eq!(refused.err, SendError::Disconnected);
    assert_eq!(refused.val, 9);
    let refused = tx.send(&mut shared, 8, 1).0.unwrap_err();
    assert_eq!(refused.err, SendError::Disconnected);
    assert_eq!(refused.val, 8);
}

#[test]
fn waiting_receiver_is_woken_by_a_send() {
    let (mut shared, mut tx, mut rx) = channel::<u8, &str>(1);
    let (got, peer) = rx.poll_recv(&mut shared, "consumer");
    assert!(matches!(got, Poll::Pending));
    assert_eq!(peer, None);
    let (sent, peer) = tx.send(&mut shared, 5, "producer");
    assert!(sent.is_ok());
    assert_eq!(peer, Some("consumer"));
    let (sent, peer) = tx.send(&mut shared, 6, "producer");
    assert!(sent.is_ok());
    assert_eq!(peer, None);
}

#[test]
fn waiting_sender_is_woken_by_a_receive() {
    let (mut shared, mut tx, mut rx) = channel::<u8, &str>(1);
    assert!(tx.send(&mut shared, 1, "producer").0.is_ok());
    assert!(tx.send(&mut shared, 2, "producer").0.is_ok());
    let (sent, _) = tx.send(&mut shared, 3, "producer");
    let back = sent.unwrap_err();
    assert_eq!(back.err, SendError::Full);
    assert_eq!(back.val, 3);
    let (got, peer) = rx.poll_recv(&mut shared, "consumer");
    assert!(matches!(got, Poll::Ready(Some(1))));
    assert_eq!(peer, Some("producer"));
    assert!(tx.send(&mut shared, 3, "producer").0.is_ok());
}

#[test]
fn close_wakes_the_waiting_peer() {
    let (mut shared, mut tx, mut rx) = channel::<u8, &str>(1);
    assert!(matches!(rx.poll_recv(&mut shared, "consumer").0, Poll::Pending));
    assert_eq!(tx.close(&mut shared), Some("consumer"));
    assert!(matches!(rx.poll_recv(&mut shared, "consumer").0, Poll::Ready(None)));
}

#[test]
fn ring_keeps_the_order_round_and_round() {
    let (mut shared, mut tx, mut rx) = channel::<u32, u8>(2);
    let mut next = 0;
    let mut want = 0;
    for round in 0..200 {
        for _ in 0..(round % 3 + 1) {
            if tx.start_send(&mut shared, next).is_ok() {
                next += 1;
            }
        }
        for _ in 0..(round % 2 + 1) {
            if let Ok(Some(item)) = rx.try_recv(&mut shared) {
                assert_eq!(item, want);
                want += 1;
            }
        }
    }
    assert!(want > 100);
    assert_eq!(next - want, shared.len() as u32);
}

#[test]
fn slots_are_counted_round_the_ring() {
    let shared = flowly::spsc::Shared::<u8, u8>::new(2);
    assert_eq!(shared.index(0), 0);
    assert_eq!(shared.index(2), 2);
    assert_eq!(shared.index(3), 0);
    assert_eq!(shared.index(7), 1);
}

#[test]
fn whole_channel_sends_and_receives_in_order() {
    let mut ch = flowly::trace::Channel::<u32, u8>::new(2);
    for item in [5, 6, 7] {
        assert!(ch.send(item).is_ok());
    }
    let back = ch.send(8).unwrap_err();
    assert_eq!(back.err, SendError::Full);
    assert_eq!(back.val, 8);
    assert_eq!(ch.recv(), Ok(Some(5)));
    assert!(ch.send(8).is_ok());
    assert_eq!(ch.close(), None);
    let back = ch.send(9).unwrap_err();
    assert_eq!(back.err, SendError::Disconnected);
    assert_eq!(back.val, 9);
    assert_eq!(ch.recv(), Ok(Some(6)));
    assert_eq!(ch.recv(), Ok(Some(7)));
    assert_eq!(ch.recv(), Ok(Some(8)));
    assert_eq!(ch.recv(), Err(TryRecvError::Disconnected));
}
