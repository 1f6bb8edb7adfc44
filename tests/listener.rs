use quic_core::error::{Error, ErrorKind, FrameType};
use quic_core::listener::{ArcListener, SendWindow};
use quic_core::param::Readiness;
use std::task::Waker;

#[derive(Debug, PartialEq)]
struct Bi {
    window: u64,
}

impl SendWindow for Bi {
    fn update_window(&mut self, max_data: u64) {
        self.window = max_data;
    }
}

#[test]
fn accepts_in_order_and_sets_window() {
    let mut l: ArcListener<Bi, u32> = ArcListener::new();
    assert!(matches!(l.poll_accept_bi_stream(Waker::noop().clone(), 10), Readiness::Pending));
    assert!(l.guard().is_ok());
    l.push_bi_stream(1, Bi { window: 0 });
    l.push_bi_stream(5, Bi { window: 0 });
    l.push_uni_stream(3, 33);
    let req = l.accept_bi_stream(100);
    match req.poll(&mut l, Waker::noop().clone()) {
        Readiness::Ready(Ok((sid, s))) => {
            assert_eq!(sid, 1);
            assert_eq!(s, Bi { window: 100 });
        }
        _ => panic!("expected stream 1"),
    }
    match l.poll_accept_bi_stream(Waker::noop().clone(), 7) {
        Readiness::Ready(Ok((sid, s))) => assert_eq!((sid, s.window), (5, 7)),
        _ => panic!("expected stream 5"),
    }
    match l.accept_uni_stream().poll(&mut l, Waker::noop().clone()) {
        Readiness::Ready(Ok((sid, s))) => assert_eq!((sid, s), (3, 33)),
        _ => panic!("expected stream 3"),
    }
}

#[test]
fn failed_listener_reports_the_error() {
    let mut l: ArcListener<Bi, u32> = ArcListener::new();
    let e = Error::new(ErrorKind::Application, FrameType::Padding, "closed");
    l.on_conn_error(&e);
    assert_eq!(l.guard().unwrap_err().kind, ErrorKind::Application);
    match l.poll_accept_uni_stream(Waker::noop().clone()) {
        Readiness::Ready(Err(err)) => assert_eq!(err.reason, "closed"),
        _ => panic!("expected the error"),
    }
}
