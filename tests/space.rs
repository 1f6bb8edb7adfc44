use quic_core::error::{ErrorKind, FrameType};
use quic_core::frame::{write_ack_frame, AckFrame, Frame};
use quic_core::rcvd::State;
use quic_core::reliable::ReliableFrame;
use quic_core::rtt::Rtt;
use quic_core::space::{Notice, Record, Space, DEFAULT_MAX_ACK_DELAY};

const PING: [u8; 1] = [0x01];

fn ack_payload(ack: &AckFrame) -> Vec<u8> {
    let mut v = Vec::new();
    write_ack_frame(&mut v, ack);
    v
}

fn ack(largest: u64, first_range: u64, ranges: Vec<(u64, u64)>) -> AckFrame {
    AckFrame { largest, delay: 0, first_range, ranges }
}

#[test]
fn space_it_works() {
    assert_eq!(2 + 2, 4);
}

#[test]
fn data_space_it_works() {
    assert_eq!(2 + 2, 4);
}

#[test]
fn ordered_packets_give_one_range_after_max_ack_delay() {
    let mut space: Space<u64> = Space::new(true);
    for pn in 0..3u64 {
        let frames = space.receive(pn, &PING, 1_000).unwrap();
        assert_eq!(frames.len(), 1);
        assert!(matches!(frames[0], Frame::Ping));
    }
    assert!(!space.need_send_ack_frame(1_000));
    assert!(space.need_send_ack_frame(1_000 + DEFAULT_MAX_ACK_DELAY));
    let a = space.rcvd.gen_ack_frame(1_000 + DEFAULT_MAX_ACK_DELAY);
    assert_eq!(a.largest, 2);
    assert_eq!(a.first_range, 2);
    assert!(a.ranges.is_empty());
    assert_eq!(a.delay, DEFAULT_MAX_ACK_DELAY);
}

#[test]
fn small_gap_is_reported_as_a_range() {
    let mut space: Space<u64> = Space::new(true);
    space.receive(0, &PING, 0).unwrap();
    space.receive(2, &PING, 0).unwrap();
    let a = space.rcvd.gen_ack_frame(0);
    assert_eq!(a.largest, 2);
    assert_eq!(a.first_range, 0);
    assert_eq!(a.ranges, vec![(0, 0)]);
    assert!(a.contains(0) && !a.contains(1) && a.contains(2));
}

#[test]
fn gap_triggers_immediate_ack() {
    let mut space: Space<u64> = Space::new(true);
    space.receive(0, &PING, 0).unwrap();
    assert!(!space.new_lost_event);
    assert!(!space.need_send_ack_frame(0));
    space.receive(2, &PING, 0).unwrap();
    assert!(space.new_lost_event);
    assert!(space.need_send_ack_frame(0));
    let a = space.rcvd.gen_ack_frame(0);
    assert_eq!((a.largest, a.first_range, a.ranges.clone()), (2, 0, vec![(0, 0)]));
}

#[test]
fn filling_a_gap_from_below_is_no_new_loss() {
    let mut space: Space<u64> = Space::new(true);
    space.receive(2, &PING, 0).unwrap();
    space.new_lost_event = false;
    space.receive(1, &PING, 0).unwrap();
    assert!(!space.new_lost_event);
}

#[test]
fn ack_emission_syncs_every_entry() {
    let mut space: Space<u64> = Space::new(true);
    space.receive(0, &PING, 0).unwrap();
    space.receive(1, &[0x00], 0).unwrap();
    space.receive(3, &PING, 0).unwrap();
    let mut buf = Vec::new();
    let (pn, sent) = space.try_send(&mut buf, 1200, DEFAULT_MAX_ACK_DELAY).unwrap();
    assert_eq!(pn, 0);
    assert_eq!(sent, 0);
    let expected = ack_payload(&AckFrame { largest: 3, delay: DEFAULT_MAX_ACK_DELAY, first_range: 0, ranges: vec![(0, 1)] });
    assert_eq!(buf, expected);
    assert_eq!(space.rcvd.states, vec![State::Synced(0), State::Synced(0), State::Unreached, State::Synced(0)]);
    assert!(space.time_to_sync.is_none());
    assert_eq!(space.last_synced_ack_largest, 3);
}

#[test]
fn duplicate_packet_is_a_no_op() {
    let mut space: Space<u64> = Space::new(true);
    let first = space.receive(10, &PING, 5).unwrap();
    assert_eq!(first.len(), 1);
    assert_eq!(space.rcvd.get(10), State::Important(5));
    let again = space.receive(10, &[0x1e], 9).unwrap();
    assert!(again.is_empty());
    assert_eq!(space.rcvd.get(10), State::Important(5));
}

#[test]
fn zero_rtt_space_rejects_ack() {
    let mut space: Space<u64> = Space::new(false);
    let payload = ack_payload(&ack(0, 0, vec![]));
    let err = space.receive(0, &payload, 0).unwrap_err();
    assert_eq!(err.kind, ErrorKind::ProtocolViolation);
    assert_eq!(err.frame_type, FrameType::Ack(0));
    assert_eq!(space.rcvd.states.len(), 0);
}

#[test]
fn zero_rtt_space_reports_the_first_forbidden_frame() {
    let mut space: Space<u64> = Space::new(false);
    let err = space.receive(0, &[0x01, 0x06, 0x00, 0x00, 0x1e], 0).unwrap_err();
    assert_eq!(err.kind, ErrorKind::ProtocolViolation);
    assert_eq!(err.frame_type, FrameType::Crypto);
    let err = space.receive(0, &[0x19, 0x00], 0).unwrap_err();
    assert_eq!(err.frame_type, FrameType::RetireConnectionId);
    assert!(space.receive(0, &[0x10, 0x05], 0).is_ok());
}

#[test]
fn old_packet_above_largest_acked_is_lost_by_time() {
    let mut space: Space<u64> = Space::new(true);
    let mut buf = Vec::new();
    space.try_send(&mut buf, 1200, 0).unwrap();
    send_with_frame(&mut space, 0, 1);
    send_with_frame(&mut space, 5_000, 2);
    let mut rtt = Rtt::new();
    space.on_ack_received(&ack(0, 0, vec![]), 1_000_000, &mut rtt).unwrap();
    let requeued: Vec<ReliableFrame> = space.frames.iter().cloned().collect();
    assert_eq!(requeued, vec![ReliableFrame::MaxData { max: 1 }, ReliableFrame::MaxData { max: 2 }]);
    assert!(space.loss_time.is_none());
}

#[test]
fn malformed_payload_is_frame_encoding_error() {
    let mut space: Space<u64> = Space::new(true);
    let err = space.receive(0, &[0x04, 0x01], 0).unwrap_err();
    assert_eq!(err.kind, ErrorKind::FrameEncoding);
    assert_eq!(space.rcvd.states.len(), 0);
}

fn send_with_frame(space: &mut Space<u64>, now: u64, max: u64) -> u64 {
    space.write_frame(ReliableFrame::MaxData { max });
    let mut buf = Vec::new();
    let (pn, sent) = space.try_send(&mut buf, 1200, now).unwrap();
    assert_eq!(sent, buf.len());
    pn
}

#[test]
fn try_send_writes_queued_frames_in_order_within_budget() {
    let mut space: Space<u64> = Space::new(true);
    space.write_frame(ReliableFrame::MaxData { max: 100 });
    space.write_frame(ReliableFrame::Ping);
    let mut buf = Vec::new();
    let (pn, sent) = space.try_send(&mut buf, 3, 7).unwrap();
    assert_eq!(pn, 0);
    assert_eq!(sent, 3);
    assert_eq!(buf, vec![0x10, 0x40, 0x64]);
    assert_eq!(space.frames.len(), 1);
    let p = space.sent[0].as_ref().unwrap();
    assert_eq!(p.send_time, 7);
    assert!(p.is_ack_eliciting);
    assert!(matches!(p.payload[0], Record::Frame(ReliableFrame::MaxData { max: 100 })));
}

#[test]
fn fast_retransmit_requeues_lost_frames() {
    let mut space: Space<u64> = Space::new(true);
    for pn in 0..8u64 {
        assert_eq!(send_with_frame(&mut space, 0, pn), pn);
    }
    assert_eq!(send_with_frame(&mut space, 1_000_000, 8), 8);
    let mut rtt = Rtt::new();
    let notices = space.on_ack_received(&ack(8, 0, vec![(0, 1)]), 1_010_000, &mut rtt).unwrap();
    let acked: Vec<u64> = notices
        .iter()
        .map(|n| match n {
            Notice::FrameAcked(ReliableFrame::MaxData { max }) => *max,
            _ => panic!("unexpected notice"),
        })
        .collect();
    assert_eq!(acked, vec![5, 6, 8]);
    let requeued: Vec<u64> = space
        .frames
        .iter()
        .map(|f| match f {
            ReliableFrame::MaxData { max } => *max,
            _ => panic!("unexpected frame"),
        })
        .collect();
    assert_eq!(requeued, vec![0, 1, 2, 3, 4, 7]);
    assert_eq!(space.largest_acked_pn, 8);
    assert_eq!(rtt.latest_rtt, 10_000);
    assert!(space.sent.is_empty());
    assert_eq!(space.sent_offset, 9);
}

#[test]
fn recent_packet_is_not_lost_before_loss_delay() {
    let mut space: Space<u64> = Space::new(true);
    for pn in 0..3u64 {
        send_with_frame(&mut space, 1_000, pn);
    }
    let mut rtt = Rtt::new();
    space.on_ack_received(&ack(2, 0, vec![]), 11_000, &mut rtt).unwrap();
    assert_eq!(rtt.smoothed_rtt, 10_000);
    assert!(space.frames.is_empty());
    assert!(space.sent[0].is_some() && space.sent[1].is_some());
    assert_eq!(space.loss_time, Some(1_000 + 11_250));
}

#[test]
fn same_ack_twice_changes_nothing_more() {
    let mut space: Space<u64> = Space::new(true);
    for pn in 0..5u64 {
        send_with_frame(&mut space, 0, pn);
    }
    let mut rtt = Rtt::new();
    let a = ack(4, 1, vec![]);
    assert!(space.on_ack_received(&a, 100, &mut rtt).is_some());
    let frames = space.frames.clone();
    let offset = space.sent_offset;
    let len = space.sent.len();
    let rtt_after = rtt;
    assert!(space.on_ack_received(&a, 200, &mut rtt).is_none());
    assert_eq!(space.frames, frames);
    assert_eq!(space.sent_offset, offset);
    assert_eq!(space.sent.len(), len);
    assert_eq!(rtt.smoothed_rtt, rtt_after.smoothed_rtt);
    assert_eq!(space.largest_acked_pn, 4);
}

#[test]
fn stale_ack_leaves_largest_acked() {
    let mut space: Space<u64> = Space::new(true);
    for pn in 0..5u64 {
        send_with_frame(&mut space, 0, pn);
    }
    let mut rtt = Rtt::new();
    space.on_ack_received(&ack(4, 0, vec![]), 10, &mut rtt).unwrap();
    assert!(space.on_ack_received(&ack(3, 0, vec![]), 20, &mut rtt).is_none());
    assert_eq!(space.largest_acked_pn, 4);
}

#[test]
fn acked_data_records_are_never_reported_lost() {
    let mut space: Space<u64> = Space::new(true);
    let mut buf = Vec::new();
    space.try_send(&mut buf, 1200, 0).unwrap();
    space.sent[0].as_mut().unwrap().payload.push(Record::Data(42));
    let mut rtt = Rtt::new();
    let notices = space.on_ack_received(&ack(0, 0, vec![]), 1_000_000, &mut rtt).unwrap();
    assert!(matches!(notices[..], [Notice::DataAcked(42)]));
}

#[test]
fn ack_record_slides_the_receive_window() {
    let mut space: Space<u64> = Space::new(true);
    for pn in 0..6u64 {
        space.receive(pn, &PING, 0).unwrap();
    }
    let mut buf = Vec::new();
    space.try_send(&mut buf, 1200, DEFAULT_MAX_ACK_DELAY).unwrap();
    let mut rtt = Rtt::new();
    space.on_ack_received(&ack(0, 0, vec![]), DEFAULT_MAX_ACK_DELAY, &mut rtt).unwrap();
    assert_eq!(space.rcvd.offset, 2);
    assert_eq!(space.rcvd.states.len(), 4);
}
