use tokio_test::task::spawn;

use hyper::client::conn::TrySendError;
use hyper::client::dispatch::{
    canceled, channel, delivered, dispatch_gone, opened, Callback, Envelope, Receiver, Reply,
    SendWhen, When,
};
use hyper::common::task::Polled;
use hyper::error::{Error, Kind, Link, User};

#[derive(Debug)]
struct Custom(#[allow(dead_code)] i32);

/// Whether a request was there when polled once.
fn poll_once(rx: &mut Receiver<Custom, ()>) -> Option<()> {
    match spawn(std::future::pending::<()>()).enter(|cx, _| rx.poll_recv(cx)) {
        Polled::Pending => None,
        _ => Some(()),
    }
}

fn cause_text(err: &Error) -> &str {
    match err.source() {
        Some(Link::Message(text)) => text,
        other => panic!("unexpected: {:?}", other),
    }
}

#[test]
fn drop_receiver_sends_cancel_errors() {
    let (mut tx, mut rx) = channel::<Custom, ()>();

    // must poll once for try_send to succeed
    assert!(poll_once(&mut rx).is_none(), "rx empty");

    let mut promise = tx.try_send(Custom(43)).unwrap();
    rx.shut();
    drop(rx);

    let fulfilled = promise.try_recv();
    let mut err = fulfilled
        .expect("fulfilled")
        .expect_err("promise should error");
    assert_eq!(cause_text(err.error()), "connection closed");
    match (err.error().is_canceled(), err.take_message()) {
        (true, Some(_)) => (),
        e => panic!("expected Error::Cancel(_), found {:?}", e),
    }
}

#[test]
fn sender_checks_for_want_on_send() {
    let (mut tx, mut rx) = channel::<Custom, ()>();

    // one is allowed to buffer, second is rejected
    let _ = tx.try_send(Custom(1)).expect("1 buffered");
    tx.try_send(Custom(2)).expect_err("2 not ready");

    assert!(poll_once(&mut rx).is_some(), "rx once");

    // Even though 1 has been popped, only 1 could be buffered for the
    // lifetime of the channel.
    tx.try_send(Custom(2)).expect_err("2 still not ready");

    assert!(poll_once(&mut rx).is_none(), "rx empty");

    let _ = tx.try_send(Custom(2)).expect("2 ready");
}

#[test]
fn unbounded_sender_doesnt_bound_on_want() {
    let (tx, rx) = channel::<Custom, ()>();
    let mut tx = tx.unbound();

    let _ = tx.try_send(Custom(1)).unwrap();
    let _ = tx.try_send(Custom(2)).unwrap();
    let _ = tx.try_send(Custom(3)).unwrap();

    drop(rx);

    let _ = tx.try_send(Custom(4)).unwrap_err();
}

#[test]
fn sending_without_a_retry() {
    let (mut tx, mut rx) = channel::<i32, i32>();
    let mut promise = tx.send(5).unwrap();
    assert_eq!(tx.send(6).unwrap_err(), 6);
    let (val, callback) = rx.try_recv().expect("there");
    assert_eq!(val, 5);
    assert!(!callback.is_canceled());
    callback.send(Ok(10));
    assert_eq!(promise.try_recv().unwrap().unwrap(), 10);
    assert!(rx.try_recv().is_none());
}

#[test]
fn replies_with_and_without_the_request() {
    let (mut tx, mut rx) = channel::<i32, i32>();
    let mut retry = tx.try_send(1).unwrap();
    let (val, callback) = rx.try_recv().unwrap();
    callback.send(Err(canceled(val)));
    let err = retry.try_recv().unwrap().unwrap_err();
    assert_eq!(err.message(), Some(&1));
    assert!(err.into_error().is_canceled());

    let mut tx = tx.unbound().clone();
    let mut plain = tx.send(2).unwrap();
    let (val, callback) = rx.try_recv().unwrap();
    callback.cancel(val);
    assert!(plain.try_recv().unwrap().unwrap_err().is_canceled());
}

#[test]
fn a_gone_dispatch_task_is_reported() {
    let (tx, mut rx) = channel::<i32, i32>();
    let mut tx = tx.unbound();
    let mut retry = tx.try_send(1).unwrap();
    let mut plain = tx.send(2).unwrap();
    rx.try_recv().unwrap().1.gone(true);
    rx.try_recv().unwrap().1.gone(false);
    let err = retry.try_recv().unwrap().unwrap_err();
    assert!(err.message().is_none());
    assert_eq!(*err.error().kind(), Kind::User(User::DispatchGone));
    assert_eq!(cause_text(err.error()), "user code panicked");
    let err = plain.try_recv().unwrap().unwrap_err();
    assert_eq!(cause_text(&err), "runtime dropped the dispatch task");
    assert!(dispatch_gone(true).is_user());
}

#[test]
fn replies_are_shaped_by_the_callback() {
    let (tx, _rx) = tokio::sync::oneshot::channel();
    let retry: Callback<i32, i32> = Callback::Retry(tx);
    assert!(matches!(retry.reply(Ok(3)), Reply::Retry(Ok(3))));
    let (tx, _rx) = tokio::sync::oneshot::channel();
    let plain: Callback<i32, i32> = Callback::NoRetry(tx);
    match retry.canceled_reply(5) {
        Reply::Retry(Err(e)) => {
            assert_eq!(e.message(), Some(&5));
            assert!(e.error().is_canceled());
            assert_eq!(cause_text(e.error()), "connection closed");
        }
        _ => panic!("the request was expected"),
    }
    match plain.canceled_reply(5) {
        Reply::NoRetry(Err(e)) => assert_eq!(cause_text(&e), "connection closed"),
        _ => panic!("a reply without the request was expected"),
    }
    match plain.reply(Err(TrySendError::new(Error::new_closed(), Some(4)))) {
        Reply::NoRetry(Err(e)) => assert!(e.is_closed()),
        _ => panic!("a reply without the request was expected"),
    }
}

#[test]
fn closing_is_seen_by_the_sender() {
    let (mut tx, mut rx) = channel::<i32, i32>();
    let mut task = spawn(std::future::pending::<()>());
    assert!(!tx.is_ready());
    assert!(matches!(task.enter(|cx, _| tx.poll_ready(cx)), Polled::Pending));
    assert!(matches!(
        spawn(std::future::pending::<()>()).enter(|cx, _| rx.poll_recv(cx)),
        Polled::Pending
    ));
    assert!(task.is_woken());
    assert!(tx.is_ready());
    assert!(matches!(task.enter(|cx, _| tx.poll_ready(cx)), Polled::Item(())));
    rx.close();
    assert!(tx.is_closed());
    match task.enter(|cx, _| tx.poll_ready(cx)) {
        Polled::Failed(e) => assert!(e.is_closed()),
        other => panic!("unexpected: {:?}", other),
    }
    // A closed receiver can still be polled.
    assert!(matches!(
        spawn(std::future::pending::<()>()).enter(|cx, _| rx.poll_recv(cx)),
        Polled::End
    ));
    let tx = tx.unbound();
    assert!(tx.is_closed());
    assert!(!tx.is_ready());
}

#[test]
fn envelopes_are_opened_or_come_back() {
    let envelope = |val| {
        let (tx, _rx) = tokio::sync::oneshot::channel();
        let callback: Callback<i32, i32> = Callback::Retry(tx);
        Envelope(val, callback)
    };
    assert_eq!(delivered::<i32, i32, char>(Ok(()), 'p'), Ok('p'));
    assert_eq!(delivered(Err(envelope(3)), 'p'), Err(3));
    match opened(Polled::Item(envelope(4))) {
        Polled::Item((val, _)) => assert_eq!(val, 4),
        _ => panic!("a request was expected"),
    }
    assert!(matches!(opened::<i32, i32>(Polled::Pending), Polled::Pending));
    assert!(matches!(opened::<i32, i32>(Polled::End), Polled::End));
}

#[test]
fn all_requests_in_the_queue_are_answered() {
    let (tx, mut rx) = channel::<usize, ()>();
    let mut tx = tx.unbound();
    let mut twin = tx.clone();
    let mut promises = Vec::new();
    for i in 0..500 {
        promises.push(tx.try_send(2 * i).unwrap());
        promises.push(twin.try_send(2 * i + 1).unwrap());
    }
    rx.shut();
    for (i, mut promise) in promises.into_iter().enumerate() {
        let err = promise.try_recv().unwrap().unwrap_err();
        assert!(err.error().is_canceled());
        assert_eq!(err.message(), Some(&i));
    }
    assert!(twin.is_closed());
    assert_eq!(twin.send(7).unwrap_err(), 7);
}

#[test]
fn requests_come_out_in_order() {
    let (tx, mut rx) = channel::<i32, ()>();
    let mut tx = tx.unbound();
    let promises: Vec<_> = (0..10).map(|i| tx.send(i).unwrap()).collect();
    for i in 0..10 {
        match spawn(std::future::pending::<()>()).enter(|cx, _| rx.poll_recv(cx)) {
            Polled::Item((val, callback)) => {
                assert_eq!(val, i);
                callback.send(Ok(()));
            }
            _ => panic!("a request was expected"),
        }
    }
    assert_eq!(promises.len(), 10);
}

#[test]
fn gate_lets_one_request_ahead() {
    let (mut tx, _rx) = channel::<i32, i32>();
    assert!(tx.can_send_given(false));
    assert!(!tx.can_send_given(false));
    assert!(tx.can_send_given(true));
    assert!(!tx.can_send_given(false));
}

#[test]
fn responses_are_sent_when_they_come() {
    let mut task = spawn(std::future::pending::<()>());
    let (tx, mut rx) = tokio::sync::oneshot::channel();
    let mut send: SendWhen<i32, i32> = SendWhen { call_back: Some(Callback::Retry(tx)) };
    assert!(!task.enter(|cx, _| send.poll(When::Pending, cx)));
    assert!(send.call_back.is_some());
    assert!(task.enter(|cx, _| send.poll(When::Response(8), cx)));
    assert!(send.call_back.is_none());
    assert_eq!(rx.try_recv().unwrap().unwrap(), 8);

    let (tx, mut rx) = tokio::sync::oneshot::channel();
    let mut send: SendWhen<i32, i32> = SendWhen { call_back: Some(Callback::Retry(tx)) };
    let failed = When::Failed(Error::new_incomplete(), Some(9));
    assert!(task.enter(|cx, _| send.poll(failed, cx)));
    let err = rx.try_recv().unwrap().unwrap_err();
    assert!(err.error().is_incomplete_message());
    assert_eq!(err.message(), Some(&9));

    let (tx, rx) = tokio::sync::oneshot::channel();
    let mut send: SendWhen<i32, i32> = SendWhen { call_back: Some(Callback::NoRetry(tx)) };
    assert!(!task.enter(|cx, _| send.poll(When::Pending, cx)));
    drop(rx);
    assert!(task.is_woken());
    assert!(task.enter(|cx, _| send.poll(When::Pending, cx)));
}
