use quic_core::data_space::{DataSpace, Delivery, Incoming, Outgoing, WriteFrame};
use quic_core::frame::{read_frames, AckFrame};
use quic_core::param::Readiness;
use quic_core::reliable::ReliableFrame;
use std::task::Waker;

#[derive(Debug, Default)]
struct Out {
    stopped: bool,
    window: u64,
    acked: Vec<(u64, u64)>,
}

impl Outgoing for Out {
    fn stop(&mut self) {
        self.stopped = true;
    }
    fn update_window(&mut self, max_data: u64) {
        self.window = max_data;
    }
    fn ack_recv(&mut self, start: u64, end: u64) -> bool {
        self.acked.push((start, end));
        end >= 10
    }
}

#[derive(Debug, Default)]
struct In {
    data: Vec<(u64, Vec<u8>)>,
    reset: bool,
}

impl Incoming for In {
    fn recv(&mut self, offset: u64, data: &[u8]) {
        self.data.push((offset, data.to_vec()));
    }
    fn recv_reset(&mut self) {
        self.reset = true;
    }
}

#[test]
fn frames_reach_their_streams() {
    let mut ds: DataSpace<Out, In> = DataSpace::new();
    ds.create_sender(4, Out::default());
    ds.create_recver(4, In::default());
    let payload = [0x0e, 0x04, 0x05, 0x02, 0xaa, 0xbb, 0x05, 0x04, 0x00, 0x11, 0x04, 0x30, 0x12, 0x07];
    let frames = read_frames(&payload).unwrap();
    let made = ds.recv(&payload, &frames, 0);
    assert_eq!(
        made,
        vec![
            Delivery::Data { stream_id: 4, offset: 5, start: 4, len: 2 },
            Delivery::Stop { stream_id: 4 },
            Delivery::Window { stream_id: 4, max: 0x30 },
        ]
    );
    assert_eq!(ds.input[&4].data, vec![(5, vec![0xaa, 0xbb])]);
    assert!(ds.output[&4].stopped);
    assert_eq!(ds.output[&4].window, 0x30);
    assert_eq!(ds.max_bi_streams, 7);
    assert_eq!(ds.frames.len(), 1);
    assert_eq!(ds.frames[0], ReliableFrame::ResetStream { stream_id: 4, app_error_code: 0, final_size: 0 });
}

#[test]
fn sent_packets_are_confirmed_by_ack() {
    let mut ds: DataSpace<Out, In> = DataSpace::new();
    ds.create_sender(4, Out::default());
    ds.create_recver(4, In::default());
    assert!(matches!(ds.poll_send(Waker::noop().clone(), 0), Readiness::Pending));
    ds.send_waker = None;
    ds.push_packet(vec![1], vec![WriteFrame::Stream { stream_id: 4, offset: 0, length: 4 }]);
    ds.push_packet(vec![2], vec![WriteFrame::Stream { stream_id: 4, offset: 4, length: 6 }]);
    match ds.poll_send(Waker::noop().clone(), 100) {
        Readiness::Ready((pn, bytes)) => assert_eq!((pn, bytes), (0, vec![1])),
        _ => panic!("expected packet 0"),
    }
    match ds.poll_send(Waker::noop().clone(), 200) {
        Readiness::Ready((pn, bytes)) => assert_eq!((pn, bytes), (1, vec![2])),
        _ => panic!("expected packet 1"),
    }
    let sample = ds.recv_ack(&AckFrame { largest: 1, delay: 50, first_range: 1, ranges: vec![] }, 1_000);
    assert_eq!(sample, Some(750));
    assert_eq!(ds.output[&4].acked, vec![(0, 4), (4, 10)]);
    assert!(!ds.input.contains_key(&4));
    assert!(ds.inflight_packets.iter().all(|p| p.is_none()));
}

#[test]
fn acks_in_received_frames_confirm_inflight_packets() {
    let mut ds: DataSpace<Out, In> = DataSpace::new();
    ds.create_sender(4, Out::default());
    ds.create_recver(4, In::default());
    ds.push_packet(vec![1], vec![WriteFrame::Reliable(ReliableFrame::ResetStream { stream_id: 4, app_error_code: 0, final_size: 0 })]);
    ds.push_packet(vec![2], vec![]);
    let _ = ds.poll_send(Waker::noop().clone(), 0);
    let _ = ds.poll_send(Waker::noop().clone(), 0);
    let payload = [0x02, 0x00, 0x00, 0x00, 0x00];
    let frames = read_frames(&payload).unwrap();
    ds.recv(&payload, &frames, 10);
    assert!(ds.inflight_packets[0].is_none());
    assert!(ds.inflight_packets[1].is_some());
    assert!(!ds.input.contains_key(&4));
}
