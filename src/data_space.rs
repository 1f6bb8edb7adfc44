//! The data space's stream side: frames that concern streams go to the
//! stream halves by stream ID, control frames the streams ask for are queued,
//! and packets handed out for sending are tracked until acknowledged.

use std::collections::HashMap;
use std::collections::VecDeque;
use std::task::Waker;
use vstd::prelude::*;
use crate::frame::{acks, frame_views, AckFrame, Frame, FrameSpec};
use crate::param::{wake, Readiness};
use crate::reliable::ReliableFrame;

verus! {

/// The sending half of a stream, as the data space drives it.
pub trait Outgoing {
    /// The peer asked to stop receiving.
    fn stop(&mut self);

    /// The peer raised the stream's flow-control limit.
    fn update_window(&mut self, max_data: u64);

    /// The bytes `start..end` were acknowledged; whether all data is now.
    fn ack_recv(&mut self, start: u64, end: u64) -> bool;
}

/// The receiving half of a stream, as the data space drives it.
pub trait Incoming {
    /// Data at `offset` arrived.
    fn recv(&mut self, offset: u64, data: &[u8]);

    /// The peer reset the stream.
    fn recv_reset(&mut self);
}

/// What a packet handed out for sending carried.
#[derive(Clone, Copy, Debug, PartialEq, Eq, Structural)]
pub enum WriteFrame {
    Stream { stream_id: u64, offset: u64, length: u64 },
    Ack { largest: u64 },
    Reliable(ReliableFrame),
}

/// What a received frame hands to one half of a stream.
#[derive(Clone, Copy, Debug, PartialEq, Eq, Structural)]
pub enum Delivery {
    /// Stream data at `offset`: the `len` bytes of the payload from `start`,
    /// to the receiving half.
    Data { stream_id: u64, offset: u64, start: usize, len: usize },
    /// A RESET_STREAM, to the receiving half.
    Reset { stream_id: u64 },
    /// A STOP_SENDING, to the sending half.
    Stop { stream_id: u64 },
    /// A MAX_STREAM_DATA limit, to the sending half.
    Window { stream_id: u64, max: u64 },
}

/// The deliveries the frames `fs` make, in order.
pub open spec fn deliveries_for(fs: Seq<FrameSpec>) -> Seq<Delivery>
    decreases fs.len(),
{
    if fs.len() == 0 {
        Seq::empty()
    } else {
        deliveries_for(fs.drop_last()) + match fs.last() {
            FrameSpec::Stream { stream_id, offset, start, len, .. } => seq![
                Delivery::Data { stream_id, offset, start: start as usize, len: len as usize },
            ],
            FrameSpec::ResetStream { stream_id, .. } => seq![Delivery::Reset { stream_id }],
            FrameSpec::StopSending { stream_id, .. } => seq![Delivery::Stop { stream_id }],
            FrameSpec::MaxStreamData { stream_id, max } => seq![Delivery::Window { stream_id, max }],
            _ => Seq::empty(),
        }
    }
}

/// A packet waiting to be sent: its bytes and what it carries.
pub type PendingPacket = (Vec<u8>, Vec<WriteFrame>);

/// The stream limit after the MAX_STREAMS frames of `fs` (bidirectional
/// ones, or unidirectional ones when `uni`), from `init`: the largest seen.
pub open spec fn max_streams_after(fs: Seq<FrameSpec>, uni: bool, init: u64) -> u64
    decreases fs.len(),
{
    if fs.len() == 0 {
        init
    } else {
        let prev = max_streams_after(fs.drop_last(), uni, init);
        match fs.last() {
            FrameSpec::MaxStreams { uni: u, max } => if u == uni && max > prev { max } else { prev },
            _ => prev,
        }
    }
}

/// The RESET_STREAM frames queued in answer to the STOP_SENDING frames of
/// `fs`, in order.
pub open spec fn resets_for(fs: Seq<FrameSpec>) -> Seq<ReliableFrame>
    decreases fs.len(),
{
    if fs.len() == 0 {
        Seq::empty()
    } else {
        resets_for(fs.drop_last()) + match fs.last() {
            FrameSpec::StopSending { stream_id, .. } => seq![
                ReliableFrame::ResetStream { stream_id, app_error_code: 0, final_size: 0 },
            ],
            _ => Seq::empty(),
        }
    }
}

/// Whether an ACK frame of `fs` whose largest is not below `base`
/// acknowledges `pn`.
pub open spec fn acked_in(fs: Seq<FrameSpec>, base: u64, pn: int) -> bool
    decreases fs.len(),
{
    if fs.len() == 0 {
        false
    } else {
        acked_in(fs.drop_last(), base, pn) || match fs.last() {
            FrameSpec::Ack { largest, first_range, ranges, .. } => largest >= base && acks(largest, first_range, ranges, pn),
            _ => false,
        }
    }
}

/// `a - b`, or zero when `b` is larger.
pub open spec fn sat_sub(a: u64, b: u64) -> u64 {
    if a >= b { (a - b) as u64 } else { 0 }
}

/// The RTT sample an ACK frame gives at `now`: when the packet `largest`
/// was in flight (entry `largest - base` of `inflight`) and the frame
/// acknowledges it, the time since it was sent less the reported delay.
pub open spec fn ack_sample(inflight: Seq<Option<(u64, Vec<WriteFrame>)>>, base: u64, ack: AckFrame, now: u64) -> Option<u64> {
    if base <= ack.largest && ack.largest - base < inflight.len() && ack.spec_acks(ack.largest as int) {
        match inflight[ack.largest - base] {
            Some((t, _)) => Some(sat_sub(sat_sub(now, t), ack.delay)),
            None => None,
        }
    } else {
        None
    }
}

/// Whether `p` holds a RESET_STREAM for stream `sid`.
pub open spec fn resets_stream(p: Seq<WriteFrame>, sid: u64) -> bool {
    exists|i: int| 0 <= i < p.len() && (#[trigger] p[i] matches WriteFrame::Reliable(ReliableFrame::ResetStream { stream_id, .. }) && stream_id == sid)
}

/// The data space.
#[derive(Debug)]
pub struct DataSpace<O, I> {
    pub output: HashMap<u64, O>,
    pub input: HashMap<u64, I>,
    /// The peer's limits on streams this side opens: bidirectional, then
    /// unidirectional.
    pub max_bi_streams: u64,
    pub max_uni_streams: u64,
    /// Control frames to send.
    pub frames: VecDeque<ReliableFrame>,
    pub pending_packets: VecDeque<PendingPacket>,
    pub send_waker: Option<Waker>,
    /// Packets handed out, by number from `inflight_pktid`: send time and
    /// what they carried; `None` once acknowledged.
    pub inflight_packets: Vec<Option<(u64, Vec<WriteFrame>)>>,
    pub inflight_pktid: u64,
}

impl<O: Outgoing, I: Incoming> DataSpace<O, I> {
    pub open spec fn wf(&self) -> bool {
        self.inflight_pktid + self.inflight_packets@.len() <= u64::MAX
    }

    pub fn new() -> (r: DataSpace<O, I>)
        ensures
            r.wf(),
            r.output@ == Map::<u64, O>::empty(),
            r.input@ == Map::<u64, I>::empty(),
            r.frames@.len() == 0,
            r.inflight_packets@.len() == 0,
            r.inflight_pktid == 0,
    {
        DataSpace {
            output: HashMap::new(),
            input: HashMap::new(),
            max_bi_streams: 0,
            max_uni_streams: 0,
            frames: VecDeque::new(),
            pending_packets: VecDeque::new(),
            send_waker: None,
            inflight_packets: Vec::new(),
            inflight_pktid: 0,
        }
    }

    /// Registers the sending half of stream `sid`.
    pub fn create_sender(&mut self, sid: u64, outgoing: O)
        ensures
            final(self).output@ == old(self).output@.insert(sid, outgoing),
            final(self).input@ == old(self).input@,
            final(self).frames@ == old(self).frames@,
    {
        self.output.insert(sid, outgoing);
    }

    /// Registers the receiving half of stream `sid`.
    pub fn create_recver(&mut self, sid: u64, incoming: I)
        ensures
            final(self).input@ == old(self).input@.insert(sid, incoming),
            final(self).output@ == old(self).output@,
            final(self).frames@ == old(self).frames@,
    {
        self.input.insert(sid, incoming);
    }

    /// The application cancelled the sending half: a RESET_STREAM is queued.
    pub fn on_cancelled_by_app(&mut self, sid: u64)
        ensures
            final(self).frames@ == old(self).frames@.push(
                ReliableFrame::ResetStream { stream_id: sid, app_error_code: 0, final_size: 0 },
            ),
            final(self).output@ == old(self).output@,
            final(self).input@ == old(self).input@,
            final(self).inflight_packets@ == old(self).inflight_packets@,
            final(self).inflight_pktid == old(self).inflight_pktid,
            final(self).max_bi_streams == old(self).max_bi_streams,
            final(self).max_uni_streams == old(self).max_uni_streams,
    {
        self.frames.push_back(ReliableFrame::ResetStream { stream_id: sid, app_error_code: 0, final_size: 0 });
    }

    /// The receiving half wants a larger window: a MAX_STREAM_DATA is queued.
    pub fn on_window_update(&mut self, sid: u64, max_data: u64)
        ensures
            final(self).frames@ == old(self).frames@.push(ReliableFrame::MaxStreamData { stream_id: sid, max: max_data }),
    {
        self.frames.push_back(ReliableFrame::MaxStreamData { stream_id: sid, max: max_data });
    }

    /// The application stopped the receiving half: a STOP_SENDING is queued.
    pub fn on_stopped_by_app(&mut self, sid: u64)
        ensures
            final(self).frames@ == old(self).frames@.push(ReliableFrame::StopSending { stream_id: sid, app_error_code: 0 }),
    {
        self.frames.push_back(ReliableFrame::StopSending { stream_id: sid, app_error_code: 0 });
    }

    /// Hands the frames of a received packet to the streams: STREAM data and
    /// RESET_STREAM to the receiving half, STOP_SENDING to the sending half
    /// (and a RESET_STREAM is queued in answer), MAX_STREAM_DATA to the
    /// sending half, MAX_STREAMS raises the stream limits; ACK frames are
    /// processed at `now`. Returns what the frames hand to stream halves, in
    /// order; a delivery reaches the half when the stream has one registered.
    pub fn recv(&mut self, payload: &[u8], frames: &Vec<Frame>, now: u64) -> (r: Vec<Delivery>)
        requires
            old(self).wf(),
        ensures
            r@ == deliveries_for(frame_views(frames@)),
            final(self).wf(),
            final(self).output@.dom() == old(self).output@.dom(),
            final(self).input@.dom().subset_of(old(self).input@.dom()),
            final(self).max_bi_streams == max_streams_after(frame_views(frames@), false, old(self).max_bi_streams),
            final(self).max_uni_streams == max_streams_after(frame_views(frames@), true, old(self).max_uni_streams),
            final(self).frames@ == old(self).frames@ + resets_for(frame_views(frames@)),
            final(self).inflight_pktid == old(self).inflight_pktid,
            final(self).inflight_packets@.len() == old(self).inflight_packets@.len(),
            forall|j: int| 0 <= j < old(self).inflight_packets@.len() ==> #[trigger] final(self).inflight_packets@[j] == if acked_in(
                frame_views(frames@),
                old(self).inflight_pktid,
                old(self).inflight_pktid + j,
            ) {
                None
            } else {
                old(self).inflight_packets@[j]
            },
    {
        let mut made: Vec<Delivery> = Vec::new();
        let mut i: usize = 0;
        while i < frames.len()
            invariant
                self.wf(),
                i <= frames@.len(),
                made@ == deliveries_for(frame_views(frames@).take(i as int)),
                self.output@.dom() == old(self).output@.dom(),
                self.input@.dom().subset_of(old(self).input@.dom()),
                self.max_bi_streams == max_streams_after(frame_views(frames@).take(i as int), false, old(self).max_bi_streams),
                self.max_uni_streams == max_streams_after(frame_views(frames@).take(i as int), true, old(self).max_uni_streams),
                self.frames@ == old(self).frames@ + resets_for(frame_views(frames@).take(i as int)),
                self.inflight_pktid == old(self).inflight_pktid,
                self.inflight_packets@.len() == old(self).inflight_packets@.len(),
                forall|j: int| 0 <= j < old(self).inflight_packets@.len() ==> #[trigger] self.inflight_packets@[j] == if acked_in(
                    frame_views(frames@).take(i as int),
                    old(self).inflight_pktid,
                    old(self).inflight_pktid + j,
                ) {
                    None
                } else {
                    old(self).inflight_packets@[j]
                },
            decreases frames@.len() - i,
        {
            let ghost fs = frame_views(frames@);
            let ghost before_inflight = self.inflight_packets@;
            proof {
                assert(fs.take(i + 1).drop_last() =~= fs.take(i as int));
                assert(fs.take(i + 1).last() == frames@[i as int]@);
            }
            match &frames[i] {
                Frame::Ack(ack) => {
                    let _ = self.recv_ack(ack, now);
                },
                Frame::Stream { stream_id, offset, start, len, .. } => {
                    made.push(Delivery::Data { stream_id: *stream_id, offset: *offset, start: *start, len: *len });
                    if *start <= payload.len() && *len <= payload.len() - *start {
                        if let Some(mut incoming) = self.input.remove(stream_id) {
                            incoming.recv(*offset, &payload[*start..*start + *len]);
                            self.input.insert(*stream_id, incoming);
                        }
                    }
                },
                Frame::ResetStream { stream_id, .. } => {
                    made.push(Delivery::Reset { stream_id: *stream_id });
                    if let Some(mut incoming) = self.input.remove(stream_id) {
                        incoming.recv_reset();
                        self.input.insert(*stream_id, incoming);
                    }
                },
                Frame::StopSending { stream_id, .. } => {
                    made.push(Delivery::Stop { stream_id: *stream_id });
                    if let Some(mut outgoing) = self.output.remove(stream_id) {
                        outgoing.stop();
                        self.output.insert(*stream_id, outgoing);
                    }
                    self.on_cancelled_by_app(*stream_id);
                },
                Frame::MaxStreamData { stream_id, max } => {
                    made.push(Delivery::Window { stream_id: *stream_id, max: *max });
                    if let Some(mut outgoing) = self.output.remove(stream_id) {
                        outgoing.update_window(*max);
                        self.output.insert(*stream_id, outgoing);
                    }
                },
                Frame::MaxStreams { uni, max } => {
                    if *uni {
                        if *max > self.max_uni_streams {
                            self.max_uni_streams = *max;
                        }
                    } else if *max > self.max_bi_streams {
                        self.max_bi_streams = *max;
                    }
                },
                _ => {},
            }
            proof {
                assert(self.output@.dom() =~= old(self).output@.dom());
                assert(made@ =~= deliveries_for(fs.take(i + 1)));
                assert(self.frames@ =~= old(self).frames@ + resets_for(fs.take(i + 1)));
                assert forall|j: int| 0 <= j < old(self).inflight_packets@.len() implies #[trigger] self.inflight_packets@[j] == if acked_in(
                    fs.take(i + 1),
                    old(self).inflight_pktid,
                    old(self).inflight_pktid + j,
                ) {
                    None
                } else {
                    old(self).inflight_packets@[j]
                } by {
                    assert(self.inflight_packets@[j] == before_inflight[j] || (self.inflight_packets@[j] is None && acked_in(fs.take(i + 1), old(self).inflight_pktid, old(self).inflight_pktid + j)));
                }
            }
            i = i + 1;
        }
        proof {
            assert(frame_views(frames@).take(i as int) =~= frame_views(frames@));
        }
        made
    }

    /// Processes an ACK frame at `now`: each awaiting packet it acknowledges
    /// is confirmed to its streams. Returns the RTT sample of its largest
    /// packet (less the reported delay, at least zero) when that one was
    /// awaiting.
    pub fn recv_ack(&mut self, ack: &AckFrame, now: u64) -> (r: Option<u64>)
        requires
            old(self).wf(),
        ensures
            final(self).wf(),
            ack.largest < old(self).inflight_pktid ==> r is None && final(self).inflight_packets@ == old(self).inflight_packets@,
            r == ack_sample(old(self).inflight_packets@, old(self).inflight_pktid, *ack, now),
            final(self).inflight_pktid == old(self).inflight_pktid,
            final(self).inflight_packets@.len() == old(self).inflight_packets@.len(),
            forall|i: int| 0 <= i < old(self).inflight_packets@.len() ==> #[trigger] final(self).inflight_packets@[i] == if ack.largest >= old(self).inflight_pktid && ack.spec_acks(old(self).inflight_pktid + i) {
                None
            } else {
                old(self).inflight_packets@[i]
            },
            final(self).output@.dom() == old(self).output@.dom(),
            final(self).input@.dom().subset_of(old(self).input@.dom()),
            final(self).frames@ == old(self).frames@,
            final(self).max_bi_streams == old(self).max_bi_streams,
            final(self).max_uni_streams == old(self).max_uni_streams,
    {
        if ack.largest < self.inflight_pktid {
            return None;
        }
        let mut sample: Option<u64> = None;
        let ghost s0 = self.inflight_packets@;
        let mut i: usize = 0;
        while i < self.inflight_packets.len()
            invariant
                self.wf(),
                s0 == old(self).inflight_packets@,
                self.inflight_pktid == old(self).inflight_pktid,
                ack.largest >= self.inflight_pktid,
                self.inflight_packets@.len() == s0.len(),
                i <= s0.len(),
                forall|j: int| 0 <= j < i ==> #[trigger] self.inflight_packets@[j] == if ack.spec_acks(self.inflight_pktid + j) { None } else { s0[j] },
                forall|j: int| i <= j < s0.len() ==> self.inflight_packets@[j] == s0[j],
                sample == if ack.largest - self.inflight_pktid < i { ack_sample(s0, self.inflight_pktid, *ack, now) } else { None },
                self.output@.dom() == old(self).output@.dom(),
                self.input@.dom().subset_of(old(self).input@.dom()),
                self.frames@ == old(self).frames@,
                self.max_bi_streams == old(self).max_bi_streams,
                self.max_uni_streams == old(self).max_uni_streams,
            decreases s0.len() - i,
        {
            let pn = self.inflight_pktid + i as u64;
            assert(self.inflight_packets@[i as int] == s0[i as int]);
            if ack.contains(pn) {
                let entry = self.inflight_packets.remove(i);
                self.inflight_packets.insert(i, None);
                if let Some((sent_at, payload)) = entry {
                    if pn == ack.largest {
                        sample = Some(now.saturating_sub(sent_at).saturating_sub(ack.delay));
                    }
                    self.ack_recv(payload);
                }
            }
            i = i + 1;
        }
        sample
    }

    /// Tells the streams that the frames of a packet were acknowledged: the
    /// sending half of a stream frame learns which bytes arrived, and once
    /// all of them did, or once a RESET_STREAM is acknowledged, the stream's
    /// receiving half is dropped.
    pub fn ack_recv(&mut self, payload: Vec<WriteFrame>)
        ensures
            final(self).output@.dom() == old(self).output@.dom(),
            final(self).input@.dom().subset_of(old(self).input@.dom()),
            final(self).frames@ == old(self).frames@,
            final(self).inflight_packets@ == old(self).inflight_packets@,
            final(self).inflight_pktid == old(self).inflight_pktid,
            final(self).max_bi_streams == old(self).max_bi_streams,
            final(self).max_uni_streams == old(self).max_uni_streams,
            forall|sid: u64| resets_stream(payload@, sid) ==> !(#[trigger] final(self).input@.contains_key(sid)),
    {
        let mut i: usize = 0;
        while i < payload.len()
            invariant
                i <= payload@.len(),
                self.output@.dom() == old(self).output@.dom(),
                self.input@.dom().subset_of(old(self).input@.dom()),
                self.frames@ == old(self).frames@,
                self.inflight_packets@ == old(self).inflight_packets@,
                self.inflight_pktid == old(self).inflight_pktid,
                self.max_bi_streams == old(self).max_bi_streams,
                self.max_uni_streams == old(self).max_uni_streams,
                forall|sid: u64| resets_stream(payload@.take(i as int), sid) ==> !(#[trigger] self.input@.contains_key(sid)),
            decreases payload@.len() - i,
        {
            let ghost in0 = self.input@;
            match payload[i] {
                WriteFrame::Stream { stream_id, offset, length } => {
                    let end = offset.saturating_add(length);
                    if let Some(mut outgoing) = self.output.remove(&stream_id) {
                        let all_data_recved = outgoing.ack_recv(offset, end);
                        self.output.insert(stream_id, outgoing);
                        if all_data_recved {
                            let _ = self.input.remove(&stream_id);
                        }
                    }
                    assert(self.output@.dom() =~= old(self).output@.dom());
                },
                WriteFrame::Reliable(ReliableFrame::ResetStream { stream_id, .. }) => {
                    let _ = self.input.remove(&stream_id);
                },
                _ => {},
            }
            proof {
                assert forall|sid: u64| resets_stream(payload@.take(i + 1), sid) implies !(#[trigger] self.input@.contains_key(sid)) by {
                    let k = choose|k: int| 0 <= k < payload@.take(i + 1).len() && (#[trigger] payload@.take(i + 1)[k] matches WriteFrame::Reliable(ReliableFrame::ResetStream { stream_id, .. }) && stream_id == sid);
                    if k < i {
                        assert(payload@.take(i as int)[k] == payload@.take(i + 1)[k]);
                        assert(resets_stream(payload@.take(i as int), sid));
                    }
                }
            }
            i = i + 1;
        }
        proof {
            assert(payload@.take(i as int) =~= payload@);
        }
    }

    /// Queues a packet for sending and wakes a waiting sender.
    pub fn push_packet(&mut self, packet: Vec<u8>, frames: Vec<WriteFrame>)
        ensures
            final(self).pending_packets@.len() == old(self).pending_packets@.len() + 1,
            final(self).send_waker is None,
            final(self).inflight_packets@ == old(self).inflight_packets@,
            final(self).inflight_pktid == old(self).inflight_pktid,
    {
        self.pending_packets.push_back((packet, frames));
        if let Some(w) = self.send_waker.take() {
            wake(w);
        }
    }

    /// The next packet to send, with its number; it is tracked as sent at
    /// `now`. With none queued the waker is kept.
    pub fn poll_send(&mut self, waker: Waker, now: u64) -> (r: Readiness<(u64, Vec<u8>)>)
        requires
            old(self).wf(),
            old(self).send_waker is None,
            old(self).inflight_pktid + old(self).inflight_packets@.len() < u64::MAX,
        ensures
            final(self).wf(),
            old(self).pending_packets@.len() == 0 ==> (r is Pending && final(self).send_waker == Some(waker)
                && final(self).inflight_packets@ == old(self).inflight_packets@),
            old(self).pending_packets@.len() > 0 ==> (r matches Readiness::Ready((pn, bytes))
                && pn == old(self).inflight_pktid + old(self).inflight_packets@.len()
                && bytes == old(self).pending_packets@[0].0
                && final(self).inflight_packets@ == old(self).inflight_packets@.push(Some((now, old(self).pending_packets@[0].1)))
                && final(self).pending_packets@ == old(self).pending_packets@.subrange(1, old(self).pending_packets@.len() as int)),
            final(self).inflight_pktid == old(self).inflight_pktid,
    {
        match self.pending_packets.pop_front() {
            None => {
                self.send_waker = Some(waker);
                Readiness::Pending
            },
            Some((pkt, frames)) => {
                self.inflight_packets.push(Some((now, frames)));
                let pktid = self.inflight_pktid + self.inflight_packets.len() as u64 - 1;
                Readiness::Ready((pktid, pkt))
            },
        }
    }
}

} // verus!
