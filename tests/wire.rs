use quic_core::reliable::ReliableFrame;
use quic_core::space::Space;
use quic_core::dispatch::{dispatch_frames, receive_and_dispatch, route_frame, PacketSpace, Route};
use quic_core::error::{ErrorKind, FrameType};
use quic_core::frame::{read_frame, read_frames, AckFrame, Frame};
use quic_core::param::Role;
use quic_core::rtt::Rtt;
use quic_core::space::scale_ack_delay;
use quic_core::tx::{AntiAmplifier, PacketMemory, Poll, Transaction};
use quic_core::cid::ConnectionId;
use quic_core::param::Readiness;
use quic_core::varint::{decode, encode};

#[test]
fn varints_encode_as_in_rfc_examples() {
    let cases: [(u64, &[u8]); 4] = [
        (37, &[0x25]),
        (15293, &[0x7b, 0xbd]),
        (494878333, &[0x9d, 0x7f, 0x3e, 0x7d]),
        (151288809941952652, &[0xc2, 0x19, 0x7c, 0x5e, 0xff, 0x14, 0xe8, 0x8c]),
    ];
    for (v, bytes) in cases {
        let mut buf = Vec::new();
        encode(&mut buf, v);
        assert_eq!(buf, bytes);
        assert_eq!(decode(bytes, 0), Some((v, bytes.len())));
    }
    assert_eq!(decode(&[0x40, 0x25], 0), Some((37, 2)));
    assert_eq!(decode(&[0x80, 0x00], 0), None);
}

#[test]
fn stream_frame_refers_to_its_data() {
    let bytes = [0x0e, 0x04, 0x05, 0x02, 0xaa, 0xbb, 0xcc];
    let (f, next) = read_frame(&bytes, 0).unwrap();
    assert_eq!(next, 6);
    match f {
        Frame::Stream { stream_id, offset, fin, start, len } => {
            assert_eq!((stream_id, offset, fin, start, len), (4, 5, false, 4, 2));
        }
        _ => panic!("not a stream frame"),
    }
    assert_eq!(read_frame(&[0x0e, 0x04, 0x05, 0x09], 0).unwrap_err().kind, ErrorKind::FrameEncoding);
}

#[test]
fn ack_frame_with_range_below_zero_is_refused() {
    assert!(read_frame(&[0x02, 0x02, 0x00, 0x00, 0x03], 0).is_err());
    let (f, _) = read_frame(&[0x02, 0x08, 0x00, 0x01, 0x00, 0x00, 0x01], 0).unwrap();
    match f {
        Frame::Ack(a) => {
            assert_eq!(a.ranges, vec![(0, 1)]);
            assert!(a.contains(8) && !a.contains(7) && a.contains(6) && a.contains(5) && !a.contains(4));
        }
        _ => panic!("not an ack"),
    }
}

#[test]
fn zero_rtt_dispatch_rejects_ack() {
    let ack = Frame::Ack(AckFrame { largest: 0, delay: 0, first_range: 0, ranges: vec![] });
    let token = Frame::NewToken { start: 0, len: 1 };
    assert_eq!(route_frame(&token, PacketSpace::OneRtt, Role::Server).unwrap_err().frame_type, FrameType::NewToken);
    let err = route_frame(&ack, PacketSpace::ZeroRtt, Role::Server).unwrap_err();
    assert_eq!(err.kind, ErrorKind::ProtocolViolation);
    assert_eq!(err.frame_type, FrameType::Ack(0));
    assert_eq!(route_frame(&ack, PacketSpace::OneRtt, Role::Server).unwrap(), Route::Ack);
}

#[test]
fn dispatch_follows_the_table() {
    let frames = read_frames(&[0x00, 0x01, 0x10, 0x05, 0x1e, 0x14, 0x03]).unwrap();
    let (routes, eliciting) = dispatch_frames(&frames, PacketSpace::OneRtt, Role::Client).unwrap();
    assert_eq!(
        routes,
        vec![Route::Nothing, Route::Nothing, Route::FlowControlSender, Route::HandshakeDone, Route::FlowControlReceiver]
    );
    assert!(eliciting);
    assert_eq!(dispatch_frames(&frames, PacketSpace::OneRtt, Role::Server).unwrap_err().kind, ErrorKind::ProtocolViolation);
    assert!(dispatch_frames(&frames, PacketSpace::Handshake, Role::Client).is_err());
    let close_only = read_frames(&[0x00, 0x1d, 0x00, 0x00]).unwrap();
    let (_, eliciting) = dispatch_frames(&close_only, PacketSpace::Initial, Role::Client).unwrap();
    assert!(!eliciting);
}

#[test]
fn rtt_follows_rfc_9002() {
    let mut rtt = Rtt::new();
    assert_eq!(rtt.loss_delay(), 374_625);
    rtt.update(100_000, 0, 25_000, true);
    assert_eq!((rtt.smoothed_rtt, rtt.rttvar, rtt.min_rtt), (100_000, 50_000, 100_000));
    rtt.update(200_000, 40_000, 25_000, true);
    assert_eq!(rtt.smoothed_rtt, 100_000 - 12_500 + 175_000 / 8);
    assert_eq!(rtt.rttvar, 50_000 - 12_500 + 75_000 / 4);
    assert_eq!(rtt.loss_delay(), 225_000);
}

#[test]
fn ack_delay_scales_and_caps() {
    assert_eq!(scale_ack_delay(100, 3, 25_000), 800);
    assert_eq!(scale_ack_delay(10_000, 3, 25_000), 25_000);
    assert_eq!(scale_ack_delay(u64::MAX / 2, 20, u64::MAX), u64::MAX);
}

#[test]
fn anti_amplifier_limits_to_three_times_received() {
    let mut a = AntiAmplifier::new();
    assert_eq!(a.credit(), 0);
    a.on_rcvd(1200);
    assert_eq!(a.credit(), 3600);
    a.on_sent(3000);
    assert_eq!(a.credit(), 600);
    assert!(a.sent <= 3 * a.received);
    a.on_validated();
    assert_eq!(a.credit(), u64::MAX);
}

#[test]
fn transaction_needs_every_source() {
    let cid = ConnectionId::from_slice(&[1, 2]).unwrap();
    let r = Transaction::prepare(Poll::Ready(10), Poll::Ready(20), Poll::Ready(30), Poll::Ready(cid));
    match r {
        Readiness::Ready(Some(mut t)) => {
            assert_eq!((t.send_quota, t.credit_limit, t.flow_limit()), (10, 20, 30));
            assert!(t.dcid().same(&cid));
            let mut anti = AntiAmplifier::new();
            anti.on_rcvd(10);
            t.commit(5, true, &mut anti);
            assert_eq!((t.send_quota, t.credit_limit, anti.sent), (5, 20, 0));
            t.commit(5, false, &mut anti);
            assert_eq!((t.send_quota, t.credit_limit, anti.sent), (0, 15, 5));
            assert!(anti.sent <= 3 * anti.received);
        }
        _ => panic!("expected a transaction"),
    }
    assert!(matches!(Transaction::prepare(Poll::Ready(10), Poll::Ready(0), Poll::Ready(30), Poll::Ready(cid)), Readiness::Pending));
    assert!(matches!(Transaction::prepare(Poll::Ready(10), Poll::Closed, Poll::Pending, Poll::Ready(cid)), Readiness::Ready(None)));
    assert!(matches!(Transaction::prepare(Poll::Pending, Poll::Closed, Poll::Ready(1), Poll::Ready(cid)), Readiness::Pending));
    assert!(matches!(Transaction::prepare(Poll::Ready(1), Poll::Ready(1), Poll::Ready(1), Poll::Closed), Readiness::Ready(None)));
}

#[test]
fn packet_memory_writes_within_room() {
    assert!(PacketMemory::new(&[0x40, 1, 2], 20, 16, 0, 1).is_none());
    let mut m = PacketMemory::new(&[0x40, 1, 2], 27, 16, 9, 2).unwrap();
    assert_eq!(m.room, 6);
    assert!(m.is_empty());
    assert!(m.dump_ping_frame());
    let ack = AckFrame { largest: 3, delay: 0, first_range: 3, ranges: vec![] };
    assert!(m.dump_ack_frame(&ack));
    assert_eq!(m.payload, vec![0x01, 0x02, 0x03, 0x00, 0x00, 0x03]);
    assert!(!m.dump_ping_frame());
    assert_eq!(m.records.len(), 2);
}

#[test]
fn error_codes_follow_rfc() {
    assert_eq!(ErrorKind::TransportParameter.code(), 0x08);
    assert_eq!(ErrorKind::ProtocolViolation.code(), 0x0a);
    assert_eq!(ErrorKind::Crypto(0x2a).code(), 0x012a);
}

#[test]
fn transaction_loads_a_space_within_its_rights() {
    let cid = ConnectionId::from_slice(&[1]).unwrap();
    let mut t = match Transaction::prepare(Poll::Ready(100), Poll::Ready(4), Poll::Ready(30), Poll::Ready(cid)) {
        Readiness::Ready(Some(t)) => t,
        _ => panic!("expected a transaction"),
    };
    let mut space: Space<u64> = Space::new(true);
    space.write_frame(ReliableFrame::MaxData { max: 100 });
    space.write_frame(ReliableFrame::MaxData { max: 100 });
    let mut buf = Vec::new();
    let mut anti = AntiAmplifier::new();
    anti.on_rcvd(2);
    let (pn, n) = t.load_space(&mut space, &mut buf, 0, &mut anti).unwrap();
    assert_eq!((pn, n), (0, 3));
    assert_eq!((t.send_quota, t.credit_limit, anti.sent), (97, 1, 3));
    assert_eq!(space.frames.len(), 1);
    let (pn, n) = t.load_space(&mut space, &mut buf, 0, &mut anti).unwrap();
    assert_eq!((pn, n), (1, 0));
    assert_eq!(space.frames.len(), 1);
}

#[test]
fn refused_packet_is_not_recorded() {
    let mut space: Space<u64> = Space::new(true);
    let err = receive_and_dispatch(&mut space, 3, &[0x01, 0x07, 0x01, 0xaa], 0, PacketSpace::OneRtt, Role::Server).unwrap_err();
    assert_eq!(err.kind, ErrorKind::ProtocolViolation);
    assert_eq!(err.frame_type, FrameType::NewToken);
    assert!(space.rcvd.states.is_empty());
    let (frames, routes) = receive_and_dispatch(&mut space, 3, &[0x01, 0x07, 0x01, 0xaa], 0, PacketSpace::OneRtt, Role::Client).unwrap();
    assert_eq!(frames.len(), 2);
    assert_eq!(routes, vec![Route::Nothing, Route::Token]);
    assert_eq!(space.rcvd.states.len(), 4);
}

#[test]
fn load_space_failure_changes_nothing() {
    let cid = ConnectionId::from_slice(&[1]).unwrap();
    let mut t = match Transaction::prepare(Poll::Ready(100), Poll::Ready(100), Poll::Ready(30), Poll::Ready(cid)) {
        Readiness::Ready(Some(t)) => t,
        _ => panic!("expected a transaction"),
    };
    let mut space: Space<u64> = Space::new(true);
    space.sent_offset = quic_core::varint::VARINT_MAX + 1;
    space.write_frame(ReliableFrame::Ping);
    let mut anti = AntiAmplifier::new();
    anti.on_rcvd(100);
    let mut buf = Vec::new();
    assert!(t.load_space(&mut space, &mut buf, 0, &mut anti).is_err());
    assert!(buf.is_empty());
    assert_eq!((t.send_quota, t.credit_limit, anti.sent), (100, 100, 0));
    assert_eq!(space.frames.len(), 1);
}
