use bytes::Bytes;
use std::ptr;
use std::sync::Arc;
use std::time::{Duration, Instant};
use tokio_test::task::spawn;

use hyper::common::ascii::{
    decimal_text, eq_bytes, eq_ignore_case, from_digits, signed_decimal_text, split_list, trim,
};
use hyper::common::buf::{BufList, Segment};
use hyper::common::date::{CachedDate, Moment, DATE_VALUE_LENGTH};
use hyper::common::either::Either;
use hyper::common::io::compat::{after_read, BufState, Compat};
use hyper::common::io::rewind::Rewind;
use hyper::common::task::{ready_or_closed, sent_or_closed, yield_now, Polled};
use hyper::common::time::{Dur, Time, Timer};
use hyper::common::watch;

fn hello_world_buf() -> BufList<Bytes> {
    let mut bufs = BufList::new();
    bufs.push(Bytes::from("Hello"));
    bufs.push(Bytes::from(" "));
    bufs.push(Bytes::from("World"));
    bufs
}

#[test]
fn to_bytes_shorter() {
    let mut bufs = hello_world_buf();
    let old_ptr = bufs.chunk().as_ptr();
    let start = bufs.copy_to_bytes(4);
    assert_eq!(start, "Hell");
    assert!(ptr::eq(old_ptr, start.as_ptr()));
    assert_eq!(bufs.chunk(), b"o");
    assert!(ptr::eq(old_ptr.wrapping_add(4), bufs.chunk().as_ptr()));
    assert_eq!(bufs.remaining(), 7);
}

#[test]
fn to_bytes_eq() {
    let mut bufs = hello_world_buf();
    let old_ptr = bufs.chunk().as_ptr();
    let start = bufs.copy_to_bytes(5);
    assert_eq!(start, "Hello");
    assert!(ptr::eq(old_ptr, start.as_ptr()));
    assert_eq!(bufs.chunk(), b" ");
    assert_eq!(bufs.remaining(), 6);
}

#[test]
fn to_bytes_longer() {
    let mut bufs = hello_world_buf();
    let start = bufs.copy_to_bytes(7);
    assert_eq!(start, "Hello W");
    assert_eq!(bufs.remaining(), 4);
}

#[test]
fn one_long_buf_to_bytes() {
    let mut buf = BufList::new();
    buf.push(b"Hello World" as &[_]);
    assert_eq!(buf.copy_to_bytes(5), "Hello");
    assert_eq!(buf.chunk(), b" World");
}

#[test]
fn buf_list_advances_over_buffers() {
    let mut bufs = hello_world_buf();
    assert_eq!(bufs.bufs_cnt(), 3);
    bufs.advance(0);
    assert_eq!(bufs.bufs_cnt(), 3);
    bufs.advance(6);
    assert_eq!(bufs.bufs_cnt(), 1);
    assert_eq!(bufs.chunk(), b"World");
    bufs.advance(2);
    assert_eq!(bufs.chunk(), b"rld");
    bufs.advance(3);
    assert_eq!(bufs.bufs_cnt(), 0);
    assert_eq!(bufs.chunk(), b"");
    assert_eq!(bufs.remaining(), 0);
    assert_eq!(bufs.copy_to_bytes(0), "");
}

#[test]
fn buf_list_hands_out_pieces() {
    let bufs = hello_world_buf();
    assert_eq!(bufs.chunks_vectored(2), vec![b"Hello" as &[u8], b" "]);
    assert_eq!(bufs.chunks_vectored(9).len(), 3);
    assert!(bufs.chunks_vectored(0).is_empty());
}

#[test]
fn segments_of_slices() {
    let mut s: &[u8] = b"abcdef";
    assert_eq!(s.remaining(), 6);
    Segment::advance(&mut s, 2);
    assert_eq!(Segment::copy_to_bytes(&mut s, 3), "cde");
    assert_eq!(s.chunk(), b"f");
}

#[test]
fn test_date_len() {
    assert_eq!(DATE_VALUE_LENGTH, "Sun, 06 Nov 1994 08:49:37 GMT".len());
}

#[test]
fn date_shows_its_second_until_it_is_over() {
    let mut date = CachedDate::new_at(Moment { secs: 784111777, nanos: 5 });
    assert_eq!(date.buffer(), b"Sun, 06 Nov 1994 08:49:37 GMT");
    date.check_at(Moment { secs: 784111777, nanos: 999_999_999 });
    assert_eq!(date.buffer(), b"Sun, 06 Nov 1994 08:49:37 GMT");
    // The end of the second itself still belongs to it.
    date.check_at(Moment { secs: 784111778, nanos: 0 });
    assert_eq!(date.buffer(), b"Sun, 06 Nov 1994 08:49:37 GMT");
    date.check_at(Moment { secs: 784111778, nanos: 1 });
    assert_eq!(date.buffer(), b"Sun, 06 Nov 1994 08:49:38 GMT");
    assert_eq!(date.header_value(), "Sun, 06 Nov 1994 08:49:38 GMT");
    let mut dst = b"date: ".to_vec();
    date.extend(&mut dst);
    assert_eq!(dst, b"date: Sun, 06 Nov 1994 08:49:38 GMT");
}

#[test]
fn moments_that_a_date_can_show() {
    let last = Duration::from_secs(253402300799);
    assert_eq!(Moment::of(last), Some(Moment { secs: 253402300799, nanos: 0 }));
    assert_eq!(Moment::of(last + Duration::from_secs(1)), None);
    let half = Duration::new(7, 500);
    assert_eq!(Moment::of(half), Some(Moment { secs: 7, nanos: 500 }));
    let date = CachedDate::new_at(Moment { secs: 253402300799, nanos: 0 });
    assert_eq!(date.buffer(), b"Fri, 31 Dec 9999 23:59:59 GMT");
}

#[test]
fn date_of_the_clock() {
    let mut date = CachedDate::new().expect("a clock between 1970 and 9999");
    assert!(date.check());
    assert_eq!(date.buffer().len(), DATE_VALUE_LENGTH);
    assert!(date.buffer().ends_with(b" GMT"));
}

struct FakeTimer(Instant);

impl Timer for FakeTimer {
    type Sleep = (u8, Option<Instant>);

    fn sleep(&self, _duration: Duration) -> Self::Sleep {
        (1, None)
    }

    fn sleep_until(&self, deadline: Instant) -> Self::Sleep {
        (2, Some(deadline))
    }

    fn now(&self) -> Instant {
        self.0
    }

    fn reset(&self, sleep: &mut Self::Sleep, new_deadline: Instant) {
        *sleep = (3, Some(new_deadline));
    }
}

#[test]
fn timeouts_need_a_timer() {
    let five = Duration::from_secs(5);
    let then = Instant::now();
    let some: Time<FakeTimer> = Time::Timer(Arc::new(FakeTimer(then)));
    let none: Time<FakeTimer> = Time::Empty;
    assert_eq!(some.check(Dur::Default(Some(five)), "t"), Some(five));
    assert_eq!(some.check(Dur::Configured(Some(five)), "t"), Some(five));
    assert_eq!(some.check(Dur::Default(None), "t"), None);
    assert_eq!(none.check(Dur::Default(Some(five)), "t"), None);
    assert_eq!(none.check(Dur::Configured(None), "t"), None);
    assert_eq!(some.now(), then);
    assert!(none.now() >= then);
    assert_eq!(some.sleep(five), (1, None));
    let mut sleep = some.sleep_until(then);
    assert_eq!(sleep, (2, Some(then)));
    some.reset(&mut sleep, then + five);
    assert_eq!(sleep, (3, Some(then + five)));
}

#[test]
fn watch_wakes_on_change() {
    let (mut tx, mut rx) = watch::channel(1);
    let mut task = spawn(std::future::pending::<()>());
    assert_eq!(task.enter(|cx, _| rx.load(cx)), 1);
    tx.send(1);
    assert!(!task.is_woken());
    tx.send(2);
    assert!(task.is_woken());
    assert_eq!(rx.peek(), 2);
    tx.close();
    assert_eq!(rx.peek(), watch::CLOSED);
    assert!(watch::wakes(1, 2));
    assert!(!watch::wakes(2, 2));
}

#[test]
fn yielding_wakes_at_once() {
    let mut task = spawn(std::future::pending::<()>());
    assert!(matches!(task.enter(|cx, _| yield_now(cx)), Polled::Pending));
    assert!(task.is_woken());
}

#[test]
fn failed_channels_are_closed() {
    assert!(matches!(ready_or_closed(Polled::Pending), Polled::Pending));
    assert!(matches!(ready_or_closed(Polled::Item(())), Polled::Item(())));
    match ready_or_closed(Polled::Failed(())) {
        Polled::Failed(e) => assert!(e.is_closed()),
        other => panic!("unexpected: {:?}", other),
    }
    assert!(sent_or_closed::<u8>(Ok(())).is_ok());
    assert!(sent_or_closed(Err(5)).unwrap_err().is_closed());
}

fn read_exact(stream: &mut Rewind<&[u8]>, buf: &mut [u8]) {
    let mut at = 0;
    while at < buf.len() {
        let room = buf.len() - at;
        match stream.read_prefix(room) {
            Some(chunk) => {
                buf[at..at + chunk.len()].copy_from_slice(&chunk);
                at += chunk.len();
            }
            None => {
                let inner: &mut &[u8] = stream.inner_mut();
                let n = room.min(inner.len());
                buf[at..at + n].copy_from_slice(&inner[..n]);
                *inner = &inner[n..];
                at += n;
            }
        }
    }
}

#[test]
fn partial_rewind() {
    let underlying = [104, 101, 108, 108, 111];

    let mut stream = Rewind::new(&underlying[..]);

    // Read off some bytes, ensure we filled o1
    let mut buf = [0; 2];
    read_exact(&mut stream, &mut buf);

    // Rewind the stream so that it is as if we never read in the first place.
    stream.rewind(Bytes::copy_from_slice(&buf[..]));

    let mut buf = [0; 5];
    read_exact(&mut stream, &mut buf);

    // We should have read everything that was in the MockStream
    assert_eq!(&buf, &underlying);
}

#[test]
fn full_rewind() {
    let underlying = [104, 101, 108, 108, 111];

    let mut stream = Rewind::new(&underlying[..]);

    let mut buf = [0; 5];
    read_exact(&mut stream, &mut buf);

    // Rewind the stream so that it is as if we never read in the first place.
    stream.rewind(Bytes::copy_from_slice(&buf[..]));

    let mut buf = [0; 5];
    read_exact(&mut stream, &mut buf);

    assert_eq!(&buf, &underlying);
}

#[test]
fn rewound_bytes_that_are_left() {
    let mut stream = Rewind::new_buffered((), Bytes::from_static(b"abc"));
    assert_eq!(stream.read_prefix(2).unwrap(), "ab");
    assert_eq!(stream.read_prefix(0).unwrap(), "");
    let ((), rest) = stream.into_inner();
    assert_eq!(rest, "c");
    assert_eq!(*Rewind::new(5).inner_ref(), 5);
    assert_eq!(Rewind::new(5).into_inner(), (5, Bytes::new()));
    assert!(Rewind::new_buffered((), Bytes::new()).read_prefix(4).is_none());
}

#[test]
fn compat_and_either() {
    assert_eq!(Compat::new(3).0, 3);
    let before = BufState { init: 4, filled: 2 };
    let after = BufState { init: 9, filled: 7 };
    assert_eq!(after_read(before, after), (5, 7));
    let left: Either<u8, char> = Either::left(1);
    let right: Either<u8, char> = Either::right('x');
    assert!(matches!(left, Either::Left { fut: 1 }));
    assert!(matches!(right, Either::Right { fut: 'x' }));
}

#[test]
fn digits_are_read() {
    assert_eq!(from_digits(b"0"), Some(0));
    assert_eq!(from_digits(b"007"), Some(7));
    assert_eq!(from_digits(b"18446744073709551615"), Some(u64::MAX));
    assert_eq!(from_digits(b"18446744073709551616"), None);
    assert_eq!(from_digits(b"99999999999999999999999"), None);
    assert_eq!(from_digits(b""), None);
    assert_eq!(from_digits(b"+1"), None);
    assert_eq!(from_digits(b"-1"), None);
    assert_eq!(from_digits(b"1 "), None);
    assert_eq!(from_digits(b"0x10"), None);
}

#[test]
fn numbers_are_written() {
    for n in [0, 9, 10, 4096, u64::MAX] {
        assert_eq!(decimal_text(n), n.to_string());
        assert_eq!(from_digits(decimal_text(n).as_bytes()), Some(n));
    }
    for n in [0, -1, 42, i64::MIN, i64::MAX] {
        assert_eq!(signed_decimal_text(n), n.to_string());
    }
}

#[test]
fn lists_are_split() {
    assert_eq!(split_list(b"a, b ,\tc"), vec![b"a" as &[u8], b"b", b"c"]);
    assert_eq!(split_list(b""), vec![b"" as &[u8]]);
    assert_eq!(split_list(b",x"), vec![b"" as &[u8], b"x"]);
    assert_eq!(trim(b" \t a b \t"), b"a b");
    assert!(eq_ignore_case(b"Keep-Alive", b"keep-aLIVE"));
    assert!(!eq_ignore_case(b"close", b"clos"));
    assert!(eq_bytes(b"x", b"x"));
    assert!(!eq_bytes(b"x", b"X"));
}
