//! A packet-number space: the reliability engine of one epoch. It records
//! sent packets with what they carried, records received packets, emits ACK
//! frames, processes the peer's ACK frames, detects loss and requeues lost
//! control frames. Times are in microseconds, handed in by the caller.

use std::collections::VecDeque;
use vstd::prelude::*;
use crate::error::{Error, ErrorKind, FrameType};
use crate::frame::{
    ack_bytes, frame_views, spec_frame_type, frames_from, read_frames, spec_is_ack_eliciting, write_ack_frame,
    AckFrame, Frame, FrameSpec,
};
use crate::rcvd::{reports, RcvdRecords, State};
use crate::reliable::ReliableFrame;
use crate::rtt::{sat_add, Rtt};
use crate::frame::ack_encodable;
use crate::varint::VARINT_MAX;
use crate::rtt::{rtt_after, spec_loss_delay};
use vstd::arithmetic::power2::{lemma_pow2_unfold, pow2};

verus! {

/// Packets this many numbers below a newer acknowledged one are lost.
pub const PACKET_THRESHOLD: u64 = 3;

/// The ACK delay assumed before the peer's parameters are known: 25 ms.
pub const DEFAULT_MAX_ACK_DELAY: u64 = 25_000;

/// What a sent packet carried, kept until it is acknowledged or lost.
#[derive(Debug)]
pub enum Record<D> {
    /// A control frame: requeued on loss.
    Frame(ReliableFrame),
    /// A data frame: its sender is told of acknowledgement or loss.
    Data(D),
    /// An ACK frame with this largest packet number.
    Ack(u64),
}

/// A sent packet awaiting acknowledgement.
#[derive(Debug)]
pub struct SentPacket<D> {
    pub send_time: u64,
    pub payload: Vec<Record<D>>,
    pub sent_bytes: usize,
    pub is_ack_eliciting: bool,
}

/// What the owner of the space learns from an ACK frame.
#[derive(Debug)]
pub enum Notice<D> {
    FrameAcked(ReliableFrame),
    DataAcked(D),
    DataMayLoss(D),
}

/// The frames that may not come in a 0-RTT packet.
pub open spec fn forbidden_in_0rtt(f: FrameSpec) -> bool {
    f is Ack || f is Crypto || f is HandshakeDone || f is NewToken || f is PathResponse
        || f is RetireConnectionId
}

/// The index of the first frame of `fs` from `i` on that may not come in a
/// 0-RTT packet.
pub open spec fn first_forbidden(fs: Seq<FrameSpec>, i: int) -> Option<int>
    decreases fs.len() - i,
{
    if i < 0 || i >= fs.len() {
        None
    } else if forbidden_in_0rtt(fs[i]) {
        Some(i)
    } else {
        first_forbidden(fs, i + 1)
    }
}

/// Whether some frame of `fs` makes the packet ack-eliciting.
pub open spec fn any_ack_eliciting(fs: Seq<FrameSpec>) -> bool {
    exists|i: int| 0 <= i < fs.len() && spec_is_ack_eliciting(fs[i])
}

/// The number of frames from the front of `fs` whose encodings fit, one
/// after another, in `budget` bytes.
pub open spec fn fit_count(fs: Seq<ReliableFrame>, budget: int) -> nat
    decreases fs.len(),
{
    if fs.len() == 0 || fs[0].spec_bytes().len() > budget {
        0
    } else {
        1 + fit_count(fs.subrange(1, fs.len() as int), budget - fs[0].spec_bytes().len())
    }
}

/// The concatenated encodings of `fs`.
pub open spec fn frames_bytes(fs: Seq<ReliableFrame>) -> Seq<u8>
    decreases fs.len(),
{
    if fs.len() == 0 {
        Seq::empty()
    } else {
        fs[0].spec_bytes() + frames_bytes(fs.subrange(1, fs.len() as int))
    }
}

/// The records of control frames.
pub open spec fn frame_records<D>(fs: Seq<ReliableFrame>) -> Seq<Record<D>> {
    fs.map_values(|f: ReliableFrame| Record::Frame(f))
}

proof fn lemma_frames_bytes_push(fs: Seq<ReliableFrame>, x: ReliableFrame)
    ensures
        frames_bytes(fs.push(x)) == frames_bytes(fs) + x.spec_bytes(),
    decreases fs.len(),
{
    if fs.len() == 0 {
        assert(fs.push(x).subrange(1, 1) =~= Seq::<ReliableFrame>::empty());
        assert(frames_bytes(Seq::<ReliableFrame>::empty()) =~= Seq::<u8>::empty());
        assert(fs.push(x)[0] == x);
        assert(frames_bytes(fs.push(x)) =~= x.spec_bytes());
    } else {
        lemma_frames_bytes_push(fs.subrange(1, fs.len() as int), x);
        assert(fs.push(x).subrange(1, fs.len() + 1 as int) =~= fs.subrange(1, fs.len() as int).push(x));
        assert(frames_bytes(fs.push(x)) =~= frames_bytes(fs) + x.spec_bytes());
    }
}

proof fn lemma_varints_bytes_nonempty(v: Seq<u64>)
    requires
        v.len() > 0,
    ensures
        crate::reliable::varints_bytes(v).len() > 0,
    decreases v.len(),
{
    crate::varint::lemma_varint_bytes_len(v.last() as nat);
}

/// The notices that acknowledging a packet with these records gives.
pub open spec fn confirm_notices<D>(p: Seq<Record<D>>) -> Seq<Notice<D>>
    decreases p.len(),
{
    if p.len() == 0 {
        Seq::empty()
    } else {
        confirm_notices(p.drop_last()) + match p.last() {
            Record::Frame(f) => seq![Notice::FrameAcked(f)],
            Record::Data(d) => seq![Notice::DataAcked(d)],
            Record::Ack(_) => Seq::empty(),
        }
    }
}

/// How far acknowledging a packet with these records lets the window of
/// received packets slide: for each ACK record, its largest less `tol`.
pub open spec fn drain_target<D>(p: Seq<Record<D>>, tol: u64) -> int
    decreases p.len(),
{
    if p.len() == 0 {
        0
    } else {
        let prev = drain_target(p.drop_last(), tol);
        match p.last() {
            Record::Ack(l) => {
                let t = if l >= tol { l - tol } else { 0 };
                if t > prev { t } else { prev }
            },
            _ => prev,
        }
    }
}

/// The control frames among the records of a lost packet.
pub open spec fn lost_frames<D>(p: Seq<Record<D>>) -> Seq<ReliableFrame>
    decreases p.len(),
{
    if p.len() == 0 {
        Seq::empty()
    } else {
        lost_frames(p.drop_last()) + match p.last() {
            Record::Frame(f) => seq![f],
            _ => Seq::empty(),
        }
    }
}

/// The notices that losing a packet with these records gives.
pub open spec fn loss_notices<D>(p: Seq<Record<D>>) -> Seq<Notice<D>>
    decreases p.len(),
{
    if p.len() == 0 {
        Seq::empty()
    } else {
        loss_notices(p.drop_last()) + match p.last() {
            Record::Data(d) => seq![Notice::DataMayLoss(d)],
            _ => Seq::empty(),
        }
    }
}

/// Whether packet `pn`, unacknowledged, counts as lost once `largest` is
/// acknowledged: it is at least `PACKET_THRESHOLD` below it, or it was sent
/// at least `loss_delay` before `now`.
pub open spec fn declared_lost<D>(p: SentPacket<D>, pn: int, largest: u64, now: u64, loss_delay: u64) -> bool {
    pn + PACKET_THRESHOLD <= largest || sat_add(p.send_time, loss_delay) <= now
}

/// The sent packets, those that `ack` acknowledges taken out.
pub open spec fn after_confirm<D>(sent: Seq<Option<SentPacket<D>>>, off: int, ack: AckFrame) -> Seq<Option<SentPacket<D>>> {
    Seq::new(sent.len(), |i: int| if sent[i] is Some && ack.spec_acks(off + i) { None } else { sent[i] })
}

/// The notices and the window target from acknowledging the first `i`
/// entries of `sent`.
pub open spec fn confirm_upto<D>(sent: Seq<Option<SentPacket<D>>>, off: int, ack: AckFrame, tol: u64, i: int) -> (Seq<Notice<D>>, int)
    decreases i,
{
    if i <= 0 {
        (Seq::empty(), 0)
    } else {
        let (ns, t) = confirm_upto(sent, off, ack, tol, i - 1);
        match sent[i - 1] {
            Some(p) => if ack.spec_acks(off + i - 1) {
                let pt = drain_target(p.payload@, tol);
                (ns + confirm_notices(p.payload@), if pt > t { pt } else { t })
            } else {
                (ns, t)
            },
            None => (ns, t),
        }
    }
}

/// The requeued frames, the notices and the next loss time from loss
/// detection over the first `i` entries of `sent`.
pub open spec fn loss_upto<D>(sent: Seq<Option<SentPacket<D>>>, off: int, largest: u64, now: u64, ld: u64, i: int) -> (Seq<ReliableFrame>, Seq<Notice<D>>, Option<u64>)
    decreases i,
{
    if i <= 0 {
        (Seq::empty(), Seq::empty(), None)
    } else {
        let (fs, ns, lt) = loss_upto(sent, off, largest, now, ld, i - 1);
        match sent[i - 1] {
            Some(p) => if declared_lost(p, off + i - 1, largest, now, ld) {
                (fs + lost_frames(p.payload@), ns + loss_notices(p.payload@), lt)
            } else {
                let t = sat_add(p.send_time, ld);
                (fs, ns, match lt { Some(x) => Some(if x < t { x } else { t }), None => Some(t) })
            },
            None => (fs, ns, lt),
        }
    }
}

/// The window offset after sliding the window of `r` to `n`.
pub open spec fn slid_offset(r: RcvdRecords, n: int) -> int {
    if n <= r.offset {
        r.offset as int
    } else if n < r.end() {
        n
    } else {
        r.end()
    }
}

/// The ACK delay a frame reports, in microseconds: scaled by
/// `2^exponent`, saturating, and capped at `max_ack_delay`.
pub open spec fn scaled_ack_delay(delay: u64, exponent: u8, max_ack_delay: u64) -> u64 {
    let scaled = if delay as int * pow2(exponent as nat) > u64::MAX { u64::MAX } else { (delay as int * pow2(exponent as nat)) as u64 };
    if scaled > max_ack_delay { max_ack_delay } else { scaled }
}

proof fn lemma_drain_target_nonneg<D>(p: Seq<Record<D>>, tol: u64)
    ensures
        drain_target(p, tol) >= 0,
    decreases p.len(),
{
    if p.len() > 0 {
        lemma_drain_target_nonneg(p.drop_last(), tol);
    }
}

/// The ACK delay of a frame in microseconds: `delay × 2^exponent`,
/// saturating, capped at `max_ack_delay`.
pub fn scale_ack_delay(delay: u64, exponent: u8, max_ack_delay: u64) -> (r: u64)
    ensures
        r == scaled_ack_delay(delay, exponent, max_ack_delay),
{
    let mut d = delay;
    let mut j: u8 = 0;
    proof {
        vstd::arithmetic::power2::lemma2_to64();
    }
    while j < exponent
        invariant
            j <= exponent,
            d == if delay as int * pow2(j as nat) > u64::MAX { u64::MAX as int } else { delay as int * pow2(j as nat) },
        decreases exponent - j,
    {
        proof {
            lemma_pow2_unfold((j + 1) as nat);
            let p = pow2(j as nat);
            assert(delay as int * pow2((j + 1) as nat) == 2 * (delay as int * p)) by (nonlinear_arith)
                requires
                    pow2((j + 1) as nat) == 2 * p,
            ;
        }
        if d > u64::MAX / 2 {
            d = u64::MAX;
        } else {
            d = d * 2;
        }
        j = j + 1;
    }
    if d > max_ack_delay {
        max_ack_delay
    } else {
        d
    }
}

proof fn lemma_confirm_none<D>(sent: Seq<Option<SentPacket<D>>>, off: int, ack: AckFrame, tol: u64, i: int)
    requires
        0 <= i <= sent.len(),
        forall|j: int| 0 <= j < sent.len() ==> !(sent[j] is Some && ack.spec_acks(off + j)),
    ensures
        confirm_upto(sent, off, ack, tol, i) == (Seq::<Notice<D>>::empty(), 0int),
        after_confirm(sent, off, ack) =~= sent,
    decreases i,
{
    if i > 0 {
        lemma_confirm_none(sent, off, ack, tol, i - 1);
    }
}

/// The packet-number space.
#[derive(Debug)]
pub struct Space<D> {
    /// Control frames waiting to be sent, retransmissions included.
    pub frames: VecDeque<ReliableFrame>,
    /// The packet number of `sent[0]`.
    pub sent_offset: u64,
    /// Sent packets by number from `sent_offset`; `None` once acknowledged
    /// or lost.
    pub sent: Vec<Option<SentPacket<D>>>,
    pub disorder_tolerance: u64,
    pub time_of_last_sent_ack_eliciting_packet: Option<u64>,
    pub largest_acked_pn: u64,
    pub loss_time: Option<u64>,
    pub rcvd: RcvdRecords,
    pub largest_rcvd_ack_eliciting_pn: u64,
    pub last_synced_ack_largest: u64,
    pub new_lost_event: bool,
    pub rcvd_unreached_packet: bool,
    pub time_to_sync: Option<u64>,
    pub max_ack_delay: u64,
    /// The peer's ACK delay exponent.
    pub ack_delay_exponent: u8,
    pub handshake_confirmed: bool,
    /// False for the 0-RTT half of the data space, which never acknowledges.
    pub reliable: bool,
}

impl<D> Space<D> {
    /// The packet number the next sent packet gets.
    pub open spec fn next_pn(&self) -> int {
        self.sent_offset + self.sent@.len()
    }

    pub open spec fn wf(&self) -> bool {
        &&& self.rcvd.wf()
        &&& self.next_pn() <= VARINT_MAX + 1
        &&& self.ack_delay_exponent <= 20
        &&& self.last_synced_ack_largest <= VARINT_MAX
        &&& self.largest_rcvd_ack_eliciting_pn <= VARINT_MAX
        &&& self.loss_flag_inv()
        &&& forall|i: int| 0 <= i < self.frames@.len() ==> (#[trigger] self.frames@[i]).wf()
        &&& forall|i: int, j: int|
            0 <= i < self.sent@.len() && self.sent@[i] is Some && 0 <= j
                < self.sent@[i]->Some_0.payload@.len() ==> (#[trigger] self.sent@[i]->Some_0.payload@[j] matches Record::Frame(f) ==> f.wf())
    }

    /// A packet not received between the last reported largest and the
    /// largest ack-eliciting packet received has raised the loss flag; the
    /// largest ack-eliciting packet lies in the window, received.
    pub open spec fn loss_flag_inv(&self) -> bool {
        &&& (self.largest_rcvd_ack_eliciting_pn == 0 || self.largest_rcvd_ack_eliciting_pn < self.rcvd.end())
        &&& (self.largest_rcvd_ack_eliciting_pn > 0 && self.largest_rcvd_ack_eliciting_pn >= self.rcvd.offset ==> self.rcvd.state_at(
            self.largest_rcvd_ack_eliciting_pn as int,
        ).is_rcvd())
        &&& forall|q: int|
            self.last_synced_ack_largest < q < self.largest_rcvd_ack_eliciting_pn && self.rcvd.offset <= q
                && #[trigger] self.rcvd.state_at(q) == State::NotReceived ==> self.new_lost_event
    }

    /// Every field but those of the receive side is the same in `a` and `b`.
    pub open spec fn same_send_side(a: &Space<D>, b: &Space<D>) -> bool {
        &&& a.frames@ == b.frames@
        &&& a.sent_offset == b.sent_offset
        &&& a.sent@ == b.sent@
        &&& a.disorder_tolerance == b.disorder_tolerance
        &&& a.time_of_last_sent_ack_eliciting_packet == b.time_of_last_sent_ack_eliciting_packet
        &&& a.largest_acked_pn == b.largest_acked_pn
        &&& a.loss_time == b.loss_time
        &&& a.max_ack_delay == b.max_ack_delay
        &&& a.ack_delay_exponent == b.ack_delay_exponent
        &&& a.handshake_confirmed == b.handshake_confirmed
        &&& a.reliable == b.reliable
    }

    /// Whether a not-received packet lies between the largest ack-eliciting
    /// packet received so far and `pn`.
    pub open spec fn gap_below(&self, pn: int) -> bool {
        exists|j: int|
            self.largest_rcvd_ack_eliciting_pn < j && j < pn && self.rcvd.offset <= j
                && #[trigger] self.rcvd.state_at(j) == State::NotReceived
    }

    /// Whether an ACK frame is due at `now`.
    pub open spec fn ack_due(&self, now: u64) -> bool {
        &&& self.reliable
        &&& exists|j: int| 0 <= j < self.rcvd.states@.len() && self.rcvd.states@[j] is Important
        &&& (self.new_lost_event || self.rcvd_unreached_packet || (self.time_to_sync matches Some(
            t,
        ) && t <= now))
    }

    /// An empty space; `reliable` is false for 0-RTT.
    pub fn new(reliable: bool) -> (r: Space<D>)
        ensures
            r.wf(),
            r.reliable == reliable,
            r.sent_offset == 0,
            r.sent@.len() == 0,
            r.frames@.len() == 0,
            r.rcvd.offset == 0,
            r.rcvd.states@.len() == 0,
            r.largest_acked_pn == 0,
            r.last_synced_ack_largest == 0,
            r.largest_rcvd_ack_eliciting_pn == 0,
            r.loss_time is None,
            r.ack_delay_exponent == 3,
            r.disorder_tolerance == PACKET_THRESHOLD,
            !r.handshake_confirmed,
            r.max_ack_delay == DEFAULT_MAX_ACK_DELAY,
            r.time_to_sync is None,
            !r.new_lost_event,
            !r.rcvd_unreached_packet,
    {
        Space {
            frames: VecDeque::new(),
            sent_offset: 0,
            sent: Vec::new(),
            disorder_tolerance: PACKET_THRESHOLD,
            time_of_last_sent_ack_eliciting_packet: None,
            largest_acked_pn: 0,
            loss_time: None,
            rcvd: RcvdRecords::new(),
            largest_rcvd_ack_eliciting_pn: 0,
            last_synced_ack_largest: 0,
            new_lost_event: false,
            rcvd_unreached_packet: false,
            time_to_sync: None,
            max_ack_delay: DEFAULT_MAX_ACK_DELAY,
            ack_delay_exponent: 3,
            handshake_confirmed: false,
            reliable,
        }
    }

    /// Queues a control frame for sending.
    pub fn write_frame(&mut self, frame: ReliableFrame)
        requires
            old(self).wf(),
            frame.wf(),
        ensures
            final(self).wf(),
            final(self).frames@ == old(self).frames@.push(frame),
            final(self).sent@ == old(self).sent@,
            final(self).sent_offset == old(self).sent_offset,
    {
        self.frames.push_back(frame);
    }

    /// Takes the peer's `max_ack_delay` (µs) and `ack_delay_exponent`.
    pub fn set_peer_ack_params(&mut self, max_ack_delay: u64, ack_delay_exponent: u8)
        requires
            old(self).wf(),
            ack_delay_exponent <= 20,
        ensures
            final(self).wf(),
            final(self).max_ack_delay == max_ack_delay,
            final(self).ack_delay_exponent == ack_delay_exponent,
            final(self).reliable == old(self).reliable,
            final(self).sent@ == old(self).sent@,
            final(self).frames@ == old(self).frames@,
            final(self).rcvd == old(self).rcvd,
    {
        self.max_ack_delay = max_ack_delay;
        self.ack_delay_exponent = ack_delay_exponent;
    }

    /// Records that the handshake is confirmed.
    pub fn set_handshake_confirmed(&mut self)
        requires
            old(self).wf(),
        ensures
            final(self).wf(),
            final(self).handshake_confirmed,
            final(self).reliable == old(self).reliable,
            final(self).sent@ == old(self).sent@,
            final(self).frames@ == old(self).frames@,
            final(self).rcvd == old(self).rcvd,
    {
        self.handshake_confirmed = true;
    }

    /// Whether an ACK frame must be sent at `now`: never in 0-RTT; otherwise
    /// when an ack-eliciting packet awaits acknowledgement and a loss was
    /// seen, a gap already reported was filled, or the ACK deadline passed.
    pub fn need_send_ack_frame(&self, now: u64) -> (r: bool)
        ensures
            r == self.ack_due(now),
    {
        if !self.reliable {
            return false;
        }
        if !self.rcvd.has_important() {
            return false;
        }
        if self.new_lost_event || self.rcvd_unreached_packet {
            return true;
        }
        match self.time_to_sync {
            Some(t) => t <= now,
            None => false,
        }
    }

    fn gap_below_exec(&self, pn: u64) -> (r: bool)
        requires
            self.wf(),
        ensures
            r == self.gap_below(pn as int),
    {
        if self.largest_rcvd_ack_eliciting_pn >= pn {
            return false;
        }
        let hi = pn;
        let mut j = if self.largest_rcvd_ack_eliciting_pn + 1 > self.rcvd.offset {
            self.largest_rcvd_ack_eliciting_pn + 1
        } else {
            self.rcvd.offset
        };
        while j < hi
            invariant
                self.wf(),
                j >= self.rcvd.offset,
                j > self.largest_rcvd_ack_eliciting_pn,
                hi == pn,
                forall|q: int|
                    self.largest_rcvd_ack_eliciting_pn < q < j && self.rcvd.offset <= q ==> #[trigger] self.rcvd.state_at(q)
                        != State::NotReceived,
            decreases hi - j,
        {
            if self.rcvd.get(j) == State::NotReceived {
                return true;
            }
            j = j + 1;
        }
        false
    }

    /// Takes a decrypted packet `pn` received at `now` and returns its frames
    /// for dispatch (ACK frames go to `on_ack_received`). A packet below the
    /// window or already received is dropped: no frames, no change. A payload
    /// that is not a sequence of frames is a FRAME_ENCODING error, and a
    /// frame that 0-RTT forbids a PROTOCOL_VIOLATION; the space is then left
    /// as it was.
    pub fn receive(&mut self, pn: u64, payload: &[u8], now: u64) -> (r: Result<Vec<Frame>, Error>)
        requires
            old(self).wf(),
            pn <= VARINT_MAX,
            pn >= old(self).rcvd.offset ==> pn - old(self).rcvd.offset <= usize::MAX,
        ensures
            final(self).wf(),
            (pn < old(self).rcvd.offset || old(self).rcvd.state_at(pn as int).is_rcvd()) ==> (r matches Ok(v)
                && v@.len() == 0 && *final(self) == *old(self)),
            !(pn < old(self).rcvd.offset || old(self).rcvd.state_at(pn as int).is_rcvd()) ==> match frames_from(
                payload@,
                0,
            ) {
                None => r matches Err(e) && e.kind == ErrorKind::FrameEncoding && *final(self) == *old(self),
                Some(fs) => if !old(self).reliable && first_forbidden(fs, 0) is Some {
                    r matches Err(e) && e.kind == ErrorKind::ProtocolViolation
                        && e.frame_type == spec_frame_type(fs[first_forbidden(fs, 0)->Some_0]) && *final(self) == *old(self)
                } else {
                    let e = any_ack_eliciting(fs);
                    &&& r matches Ok(v) && frame_views(v@) == fs
                    &&& Space::same_send_side(final(self), old(self))
                    &&& final(self).rcvd.offset == old(self).rcvd.offset
                    &&& final(self).rcvd.end() == if pn < old(self).rcvd.end() { old(self).rcvd.end() } else { pn + 1 }
                    &&& forall|q: int| #[trigger] final(self).rcvd.state_at(q) == if q == pn {
                            State::spec_rcvd(now, e)
                        } else {
                            old(self).rcvd.state_at(q)
                        }
                    &&& final(self).largest_rcvd_ack_eliciting_pn == if e && pn > old(self).largest_rcvd_ack_eliciting_pn {
                            pn
                        } else {
                            old(self).largest_rcvd_ack_eliciting_pn
                        }
                    &&& final(self).new_lost_event == (old(self).new_lost_event || (e && pn > old(self).largest_rcvd_ack_eliciting_pn
                            && old(self).gap_below(pn as int)))
                    &&& final(self).rcvd_unreached_packet == (old(self).rcvd_unreached_packet || (e && pn
                            < old(self).last_synced_ack_largest))
                    &&& final(self).time_to_sync == if e && old(self).time_to_sync is None {
                            Some(sat_add(now, old(self).max_ack_delay))
                        } else {
                            old(self).time_to_sync
                        }
                    &&& final(self).last_synced_ack_largest == old(self).last_synced_ack_largest
                },
            },
    {
        if pn < self.rcvd.offset {
            return Ok(Vec::new());
        }
        if self.rcvd.get(pn).is_received() {
            return Ok(Vec::new());
        }
        let frames = match read_frames(payload) {
            Ok(v) => v,
            Err(e) => return Err(e),
        };
        let ghost fs = frame_views(frames@);
        let mut is_ack_eliciting = false;
        let mut forbidden: Option<FrameType> = None;
        let mut i: usize = 0;
        while i < frames.len() && forbidden.is_none()
            invariant
                fs == frame_views(frames@),
                i <= frames@.len(),
                is_ack_eliciting == exists|j: int| 0 <= j < i && spec_is_ack_eliciting(fs[j]),
                forbidden is None ==> (!old(self).reliable ==> first_forbidden(fs, 0) == first_forbidden(fs, i as int)),
                forbidden matches Some(ft) ==> !old(self).reliable && i >= 1 && first_forbidden(fs, 0) == Some(i - 1)
                    && ft == spec_frame_type(fs[i - 1]),
                self.reliable == old(self).reliable,
            decreases frames@.len() - i,
        {
            let f = &frames[i];
            assert(fs[i as int] == f@);
            let bad = match f {
                Frame::Ack(_) | Frame::Crypto { .. } | Frame::HandshakeDone | Frame::NewToken { .. }
                | Frame::PathResponse { .. } | Frame::RetireConnectionId { .. } => true,
                _ => false,
            };
            if !self.reliable && bad {
                proof {
                    assert(forbidden_in_0rtt(fs[i as int]));
                }
                forbidden = Some(f.frame_type());
            }
            if f.is_ack_eliciting() {
                is_ack_eliciting = true;
            }
            i = i + 1;
        }
        if let Some(ft) = forbidden {
            return Err(Error::new(ErrorKind::ProtocolViolation, ft, "frame not allowed in 0-RTT packets"));
        }
        proof {
            if !old(self).reliable {
                assert(first_forbidden(fs, i as int) is None);
            }
        }
        let gap = is_ack_eliciting && pn > self.largest_rcvd_ack_eliciting_pn && self.gap_below_exec(pn);
        self.rcvd.insert(pn, State::rcvd(now, is_ack_eliciting));
        if is_ack_eliciting {
            if self.largest_rcvd_ack_eliciting_pn < pn {
                self.largest_rcvd_ack_eliciting_pn = pn;
                self.new_lost_event = self.new_lost_event || gap;
            }
            if pn < self.last_synced_ack_largest {
                self.rcvd_unreached_packet = true;
            }
            if self.time_to_sync.is_none() {
                self.time_to_sync = Some(now.saturating_add(self.max_ack_delay));
            }
        }
        Ok(frames)
    }

    /// The effect of `try_send(buf, max_bytes, now)` taking `old` to `new`,
    /// the buffer from `b0` to `b1`, with result `r`.
    pub open spec fn send_step(
        old: Space<D>,
        new: Space<D>,
        b0: Seq<u8>,
        b1: Seq<u8>,
        max_bytes: usize,
        now: u64,
        r: Result<(u64, usize), Error>,
    ) -> bool {
        &&& (r is Err <==> old.next_pn() > VARINT_MAX)
        &&& (r is Err ==> new == old && b1 == b0)
        &&& (r matches Ok((pn, n)) ==> {
                let k = fit_count(old.frames@, max_bytes as int);
                let sent = old.frames@.take(k as int);
                let due = old.ack_due(now);
                let p = new.sent@.last()->Some_0;
                &&& pn == old.next_pn()
                &&& n == frames_bytes(sent).len()
                &&& n <= max_bytes
                &&& new.frames@ == old.frames@.skip(k as int)
                &&& new.sent_offset == old.sent_offset
                &&& new.sent@ == old.sent@.push(new.sent@.last())
                &&& new.next_pn() == old.next_pn() + 1
                &&& new.sent@.last() is Some
                &&& p.send_time == now
                &&& p.sent_bytes == n
                &&& p.is_ack_eliciting == (k > 0)
                &&& p.payload@ == (if due {
                    seq![Record::<D>::Ack((old.rcvd.end() - 1) as u64)]
                } else {
                    Seq::<Record<D>>::empty()
                }) + frame_records(sent)
                &&& due ==> exists|a: AckFrame|
                    reports(a, old.rcvd, now) && b1 == b0 + ack_bytes(a)
                        + frames_bytes(sent)
                &&& !due ==> b1 == b0 + frames_bytes(sent)
                &&& due ==> {
                    &&& new.rcvd.offset == old.rcvd.offset
                    &&& new.rcvd.states@ == old.rcvd.states@.map_values(
                        |s: State| s.spec_synced(),
                    )
                    &&& new.last_synced_ack_largest == old.rcvd.end() - 1
                    &&& !new.new_lost_event
                    &&& !new.rcvd_unreached_packet
                    &&& new.time_to_sync is None
                    &&& forall|j: int| 0 <= j < new.rcvd.states@.len() ==> !(#[trigger] new.rcvd.states@[j] is Important)
                        && !(new.rcvd.states@[j] is Ignored)
                }
                &&& !due ==> {
                    &&& new.rcvd == old.rcvd
                    &&& new.last_synced_ack_largest == old.last_synced_ack_largest
                    &&& new.new_lost_event == old.new_lost_event
                    &&& new.rcvd_unreached_packet == old.rcvd_unreached_packet
                    &&& new.time_to_sync == old.time_to_sync
                }
                &&& new.largest_acked_pn == old.largest_acked_pn
                &&& new.largest_rcvd_ack_eliciting_pn == old.largest_rcvd_ack_eliciting_pn
                &&& new.reliable == old.reliable
                &&& new.max_ack_delay == old.max_ack_delay
                &&& new.loss_time == old.loss_time
            })
    }

    /// Assembles the next packet into `buf`: an ACK frame first when one is
    /// due (it takes no share of `max_bytes`), then queued control frames in
    /// order while they fit in `max_bytes`. The packet is recorded as sent at
    /// `now`; the result is its number and the bytes its control frames took.
    /// Past the last packet number the space is exhausted: an error, and
    /// nothing changes.
    pub fn try_send(&mut self, buf: &mut Vec<u8>, max_bytes: usize, now: u64) -> (r: Result<
        (u64, usize),
        Error,
    >)
        requires
            old(self).wf(),
        ensures
            final(self).wf(),
            Space::send_step(*old(self), *final(self), old(buf)@, final(buf)@, max_bytes, now, r),
    {
        if self.sent_offset > VARINT_MAX || self.sent.len() as u64 > VARINT_MAX - self.sent_offset {
            return Err(Error::new(ErrorKind::Internal, FrameType::Padding, "packet numbers exhausted"));
        }
        let pn = self.sent_offset + self.sent.len() as u64;
        let mut payload: Vec<Record<D>> = Vec::new();
        let ghost base = buf@;
        let ghost prefix: Seq<Record<D>> = Seq::empty();
        if self.need_send_ack_frame(now) {
            let ack = self.rcvd.gen_ack_frame(now);
            write_ack_frame(buf, &ack);
            self.time_to_sync = None;
            self.new_lost_event = false;
            self.rcvd_unreached_packet = false;
            self.last_synced_ack_largest = ack.largest;
            payload.push(Record::Ack(ack.largest));
            self.rcvd.sync_all();
            proof {
                prefix = seq![Record::Ack(ack.largest)];
                assert(reports(ack, old(self).rcvd, now));
            }
        }
        let ghost head = buf@;
        let ghost fr0 = self.frames@;
        let ghost mid = *self;
        let mut budget = max_bytes;
        let mut sent_bytes: usize = 0;
        let ghost mut k: int = 0;
        let mut stop = false;
        proof {
            assert(fr0.take(0) =~= Seq::<ReliableFrame>::empty());
            assert(fr0.skip(0) =~= fr0);
            assert(frame_records::<D>(fr0.take(0)) =~= Seq::<Record<D>>::empty());
            assert(payload@ =~= prefix + frame_records::<D>(fr0.take(0)));
        }
        while self.frames.len() > 0 && !stop
            invariant
                self.wf(),
                fr0 == old(self).frames@,
                0 <= k <= fr0.len(),
                self.frames@ == fr0.skip(k),
                buf@ == head + frames_bytes(fr0.take(k)),
                payload@ == prefix + frame_records::<D>(fr0.take(k)),
                sent_bytes == frames_bytes(fr0.take(k)).len(),
                sent_bytes <= max_bytes,
                budget == max_bytes - sent_bytes,
                stop ==> fit_count(self.frames@, budget as int) == 0,
                fit_count(fr0, max_bytes as int) == k + fit_count(self.frames@, budget as int),
                forall|j: int| 0 <= j < payload@.len() ==> (#[trigger] payload@[j] matches Record::Frame(f) ==> f.wf()),
                self.sent@ == old(self).sent@,
                self.sent_offset == old(self).sent_offset,
                self.next_pn() <= VARINT_MAX,
                self.rcvd == mid.rcvd,
                self.last_synced_ack_largest == mid.last_synced_ack_largest,
                self.new_lost_event == mid.new_lost_event,
                self.rcvd_unreached_packet == mid.rcvd_unreached_packet,
                self.time_to_sync == mid.time_to_sync,
                self.largest_acked_pn == mid.largest_acked_pn,
                self.largest_rcvd_ack_eliciting_pn == mid.largest_rcvd_ack_eliciting_pn,
                self.reliable == mid.reliable,
                self.max_ack_delay == mid.max_ack_delay,
                self.loss_time == mid.loss_time,
            decreases self.frames@.len() + if stop { 0int } else { 1int },
        {
            let f = self.frames[0];
            assert(self.frames@[0].wf());
            assert(fr0.skip(k)[0] == fr0[k]);
            let n = f.encoded_len();
            if n > budget {
                stop = true;
            } else {
                let _ = self.frames.pop_front();
                f.write(buf);
                payload.push(Record::Frame(f));
                proof {
                    assert(fr0[k] == f);
                    assert(fr0.take(k + 1) =~= fr0.take(k).push(f));
                    lemma_frames_bytes_push(fr0.take(k), f);
                    assert(fr0.skip(k + 1) =~= fr0.skip(k).subrange(1, fr0.skip(k).len() as int));
                    assert(frame_records::<D>(fr0.take(k + 1)) =~= frame_records::<D>(fr0.take(k)).push(Record::Frame(f)));
                    assert(payload@ =~= prefix + frame_records::<D>(fr0.take(k + 1)));
                    assert(buf@ =~= head + frames_bytes(fr0.take(k + 1)));
                }
                budget = budget - n;
                sent_bytes = sent_bytes + n;
                proof {
                    k = k + 1;
                }
            }
        }
        let is_ack_eliciting = sent_bytes > 0;
        proof {
            if k > 0 {
                assert(fr0.take(k) =~= fr0.take(k - 1).push(fr0[k - 1]));
                lemma_frames_bytes_push(fr0.take(k - 1), fr0[k - 1]);
                assert(fr0[k - 1].spec_words().len() > 0);
                crate::varint::lemma_varint_bytes_len(fr0[k - 1].spec_words()[0] as nat);
                lemma_varints_bytes_nonempty(fr0[k - 1].spec_words());
            }
        }
        if is_ack_eliciting {
            self.time_of_last_sent_ack_eliciting_packet = Some(now);
        }
        self.sent.push(Some(SentPacket { send_time: now, payload, sent_bytes, is_ack_eliciting }));
        proof {
            assert(fit_count(self.frames@, budget as int) == 0);
            assert(k == fit_count(fr0, max_bytes as int));
            assert(self.sent@.drop_last() =~= old(self).sent@);
        }
        Ok((pn, sent_bytes))
    }

    /// The packet sent as `pn`, while it awaits acknowledgement.
    pub open spec fn sent_at(&self, pn: int) -> Option<SentPacket<D>> {
        if self.sent_offset <= pn < self.next_pn() {
            self.sent@[pn - self.sent_offset]
        } else {
            None
        }
    }

    /// Whether `ack` acknowledges a packet that still awaits it.
    pub open spec fn newly_acked(&self, ack: AckFrame) -> bool {
        exists|pn: int| #[trigger] self.sent_at(pn) is Some && ack.spec_acks(pn)
    }

    /// The fields that ACK processing leaves alone.
    pub open spec fn same_fixed(a: &Space<D>, b: &Space<D>) -> bool {
        &&& a.disorder_tolerance == b.disorder_tolerance
        &&& a.time_of_last_sent_ack_eliciting_packet == b.time_of_last_sent_ack_eliciting_packet
        &&& a.largest_rcvd_ack_eliciting_pn == b.largest_rcvd_ack_eliciting_pn
        &&& a.last_synced_ack_largest == b.last_synced_ack_largest
        &&& a.new_lost_event == b.new_lost_event
        &&& a.rcvd_unreached_packet == b.rcvd_unreached_packet
        &&& a.time_to_sync == b.time_to_sync
        &&& a.max_ack_delay == b.max_ack_delay
        &&& a.ack_delay_exponent == b.ack_delay_exponent
        &&& a.handshake_confirmed == b.handshake_confirmed
        &&& a.reliable == b.reliable
    }

    /// Two states that hold the same data (the vectors by their contents).
    pub open spec fn same_state(a: &Space<D>, b: &Space<D>) -> bool {
        &&& Space::same_fixed(a, b)
        &&& a.frames@ == b.frames@
        &&& a.sent_offset == b.sent_offset
        &&& a.sent@ == b.sent@
        &&& a.largest_acked_pn == b.largest_acked_pn
        &&& a.loss_time == b.loss_time
        &&& a.rcvd.offset == b.rcvd.offset
        &&& a.rcvd.states@ == b.rcvd.states@
    }

    /// The effect of `on_ack_received(ack, now, rtt)` taking `old` to `new`
    /// and `rtt0` to `rtt1` with result `r`.
    pub open spec fn ack_step(
        old: Space<D>,
        new: Space<D>,
        rtt0: Rtt,
        rtt1: Rtt,
        ack: AckFrame,
        now: u64,
        r: Option<Seq<Notice<D>>>,
    ) -> bool {
        if ack.largest < old.largest_acked_pn {
            r is None && new == old && rtt1 == rtt0
        } else if !old.newly_acked(ack) {
            &&& r is None
            &&& rtt1 == rtt0
            &&& new.largest_acked_pn == ack.largest
            &&& Space::same_fixed(&old, &new)
            &&& new.frames@ == old.frames@
            &&& new.sent_offset == old.sent_offset
            &&& new.sent@ == old.sent@
            &&& new.loss_time == old.loss_time
            &&& new.rcvd.offset == old.rcvd.offset
            &&& new.rcvd.states@ == old.rcvd.states@
        } else {
            let off = old.sent_offset as int;
            let tol = old.disorder_tolerance;
            let (cn, target) = confirm_upto(old.sent@, off, ack, tol, old.sent@.len() as int);
            let mid = after_confirm(old.sent@, off, ack);
            let sampled = old.sent_at(ack.largest as int);
            let rtt_mid = match sampled {
                Some(p) => if p.is_ack_eliciting {
                    rtt_after(
                        rtt0,
                        if now >= p.send_time { (now - p.send_time) as u64 } else { 0 },
                        scaled_ack_delay(ack.delay, old.ack_delay_exponent, old.max_ack_delay),
                    )
                } else {
                    rtt0
                },
                None => rtt0,
            };
            let ld = spec_loss_delay(rtt_mid);
            let (lf, ln, lt) = loss_upto(mid, off, ack.largest, now, ld, mid.len() as int);
            &&& rtt1 == rtt_mid
            &&& r == Some(cn + ln)
            &&& new.frames@ == old.frames@ + lf
            &&& new.loss_time == lt
            &&& new.largest_acked_pn == ack.largest
            &&& Space::same_fixed(&old, &new)
            &&& new.next_pn() == old.next_pn()
            &&& new.sent_offset >= old.sent_offset
            &&& (new.sent@.len() == 0 || new.sent@[0] is Some)
            &&& forall|pn: int| #[trigger] new.sent_at(pn) == match old.sent_at(pn) {
                None => None,
                Some(p) => if ack.spec_acks(pn) || declared_lost(p, pn, ack.largest, now, ld) {
                    None
                } else {
                    Some(p)
                },
            }
            &&& new.rcvd.offset == slid_offset(old.rcvd, target)
            &&& new.rcvd.end() == old.rcvd.end()
            &&& forall|q: int| q >= new.rcvd.offset ==> #[trigger] new.rcvd.state_at(q) == old.rcvd.state_at(q)
        }
    }

    /// Acknowledges the records of one packet: notices for its frames and
    /// data, and the window of received packets slides past what its ACK
    /// records reported.
    fn confirm_payload(&mut self, payload: Vec<Record<D>>, notices: &mut Vec<Notice<D>>)
        requires
            old(self).wf(),
        ensures
            final(self).wf(),
            final(notices)@ == old(notices)@ + confirm_notices(payload@),
            final(self).rcvd.offset == slid_offset(old(self).rcvd, drain_target(payload@, old(self).disorder_tolerance)),
            final(self).rcvd.end() == old(self).rcvd.end(),
            forall|q: int| q >= final(self).rcvd.offset ==> #[trigger] final(self).rcvd.state_at(q) == old(self).rcvd.state_at(q),
            Space::same_fixed(old(self), final(self)),
            final(self).frames@ == old(self).frames@,
            final(self).sent@ == old(self).sent@,
            final(self).sent_offset == old(self).sent_offset,
            final(self).largest_acked_pn == old(self).largest_acked_pn,
            final(self).loss_time == old(self).loss_time,
    {
        let ghost orig = payload@;
        let ghost base = notices@;
        let mut payload = payload;
        let ghost mut j: int = 0;
        proof {
            assert(orig.take(0) =~= Seq::<Record<D>>::empty());
            assert(notices@ =~= base + confirm_notices(orig.take(0)));
            assert(orig.skip(0) =~= orig);
        }
        while payload.len() > 0
            invariant
                self.wf(),
                0 <= j <= orig.len(),
                payload@ == orig.skip(j),
                notices@ == base + confirm_notices(orig.take(j)),
                self.rcvd.offset == slid_offset(old(self).rcvd, drain_target(orig.take(j), self.disorder_tolerance)),
                self.rcvd.end() == old(self).rcvd.end(),
                forall|q: int| q >= self.rcvd.offset ==> #[trigger] self.rcvd.state_at(q) == old(self).rcvd.state_at(q),
                Space::same_fixed(old(self), self),
                self.frames@ == old(self).frames@,
                self.sent@ == old(self).sent@,
                self.sent_offset == old(self).sent_offset,
                self.largest_acked_pn == old(self).largest_acked_pn,
                self.loss_time == old(self).loss_time,
            decreases payload@.len(),
        {
            let rec = payload.remove(0);
            proof {
                assert(orig[j] == rec);
                assert(orig.take(j + 1).drop_last() =~= orig.take(j));
                assert(orig.take(j + 1).last() == rec);
                assert(orig.skip(j + 1) =~= orig.skip(j).subrange(1, orig.skip(j).len() as int));
            }
            match rec {
                Record::Ack(l) => {
                    let ghost before = self.rcvd;
                    self.rcvd.drain_to(l.saturating_sub(self.disorder_tolerance));
                    proof {
                        assert(notices@ =~= base + confirm_notices(orig.take(j + 1)));
                    }
                },
                Record::Frame(f) => {
                    notices.push(Notice::FrameAcked(f));
                    proof {
                        assert(notices@ =~= base + confirm_notices(orig.take(j + 1)));
                    }
                },
                Record::Data(d) => {
                    notices.push(Notice::DataAcked(d));
                    proof {
                        assert(notices@ =~= base + confirm_notices(orig.take(j + 1)));
                    }
                },
            }
            proof {
                j = j + 1;
            }
        }
        proof {
            assert(orig.take(j) =~= orig);
        }
    }

    /// Takes out every packet that `ack` acknowledges and acknowledges its
    /// records. Returns whether there was one, and the send time of the
    /// packet `ack.largest` when it was one of them and ack-eliciting.
    fn confirm_acked(&mut self, ack: &AckFrame, notices: &mut Vec<Notice<D>>) -> (r: (bool, Option<u64>))
        requires
            old(self).wf(),
        ensures
            final(self).wf(),
            r.0 == old(self).newly_acked(*ack),
            r.1 == match old(self).sent_at(ack.largest as int) {
                Some(p) => if p.is_ack_eliciting && ack.spec_acks(ack.largest as int) { Some(p.send_time) } else { None },
                None => None,
            },
            ({
                let (cn, target) = confirm_upto(old(self).sent@, old(self).sent_offset as int, *ack, old(self).disorder_tolerance, old(self).sent@.len() as int);
                &&& final(notices)@ == old(notices)@ + cn
                &&& final(self).rcvd.offset == slid_offset(old(self).rcvd, target)
            }),
            final(self).sent@ == after_confirm(old(self).sent@, old(self).sent_offset as int, *ack),
            final(self).rcvd.end() == old(self).rcvd.end(),
            forall|q: int| q >= final(self).rcvd.offset ==> #[trigger] final(self).rcvd.state_at(q) == old(self).rcvd.state_at(q),
            Space::same_fixed(old(self), final(self)),
            final(self).frames@ == old(self).frames@,
            final(self).sent_offset == old(self).sent_offset,
            final(self).largest_acked_pn == old(self).largest_acked_pn,
            final(self).loss_time == old(self).loss_time,
    {
        let ghost s0 = old(self).sent@;
        let ghost off = self.sent_offset as int;
        let ghost tol = self.disorder_tolerance;
        let ghost base = notices@;
        let ghost mid = after_confirm(s0, off, *ack);
        let mut newly = false;
        let mut sample: Option<u64> = None;
        let mut i: usize = 0;
        while i < self.sent.len()
            invariant
                self.wf(),
                off == self.sent_offset,
                off == old(self).sent_offset,
                tol == self.disorder_tolerance,
                mid == after_confirm(s0, off, *ack),
                s0 == old(self).sent@,
                i <= s0.len(),
                self.sent@.len() == s0.len(),
                forall|j: int| 0 <= j < i ==> self.sent@[j] == mid[j],
                forall|j: int| i <= j < s0.len() ==> self.sent@[j] == s0[j],
                newly == exists|j: int| 0 <= j < i && s0[j] is Some && ack.spec_acks(off + j),
                sample == (if ack.largest - off < i { match old(self).sent_at(ack.largest as int) {
                    Some(p) => if p.is_ack_eliciting && ack.spec_acks(ack.largest as int) { Some(p.send_time) } else { None },
                    None => None,
                } } else { None }),
                notices@ == base + confirm_upto(s0, off, *ack, tol, i as int).0,
                self.rcvd.offset == slid_offset(old(self).rcvd, confirm_upto(s0, off, *ack, tol, i as int).1),
                confirm_upto(s0, off, *ack, tol, i as int).1 >= 0,
                self.rcvd.end() == old(self).rcvd.end(),
                forall|q: int| q >= self.rcvd.offset ==> #[trigger] self.rcvd.state_at(q) == old(self).rcvd.state_at(q),
                Space::same_fixed(old(self), self),
                self.frames@ == old(self).frames@,
                self.largest_acked_pn == old(self).largest_acked_pn,
                self.loss_time == old(self).loss_time,
            decreases s0.len() - i,
        {
            let pn = self.sent_offset + i as u64;
            let take = self.sent[i].is_some() && ack.contains(pn);
            let ghost entry0 = s0[i as int];
            assert(self.sent@[i as int] == entry0);
            if take {
                let entry = self.sent.remove(i);
                self.sent.insert(i, None);
                match entry {
                    Some(p) => {
                        if pn == ack.largest && p.is_ack_eliciting {
                            sample = Some(p.send_time);
                        }
                        let ghost r_before = self.rcvd;
                        let ghost t_before = confirm_upto(s0, off, *ack, tol, i as int).1;
                        proof {
                            assert(s0[i as int] == Some(p));
                            assert forall|a: int, b: int| 0 <= a < self.sent@.len() && self.sent@[a] is Some && 0 <= b < self.sent@[a]->Some_0.payload@.len() implies (#[trigger] self.sent@[a]->Some_0.payload@[b] matches Record::Frame(f) ==> f.wf()) by {
                                if a < i {
                                    assert(mid[a] == s0[a] || mid[a] is None);
                                }
                                assert(self.sent@[a] == old(self).sent@[a] || self.sent@[a] is None);
                            }
                            assert(self.wf());
                        }
                        self.confirm_payload(p.payload, notices);
                        proof {
                            let pt = drain_target(p.payload@, tol);
                            assert(pt >= 0) by {
                                lemma_drain_target_nonneg(p.payload@, tol);
                            }
                        }
                    },
                    None => {},
                }
                newly = true;
            }
            proof {
                if ack.largest - off == i {
                    assert(old(self).sent_at(ack.largest as int) == s0[i as int]);
                    assert(pn == ack.largest);
                }
                assert(self.sent@[i as int] == mid[i as int]);
                assert(confirm_upto(s0, off, *ack, tol, i + 1) == {
                    let (ns, t) = confirm_upto(s0, off, *ack, tol, i as int);
                    match s0[i as int] {
                        Some(p) => if ack.spec_acks(off + i) {
                            let pt = drain_target(p.payload@, tol);
                            (ns + confirm_notices(p.payload@), if pt > t { pt } else { t })
                        } else {
                            (ns, t)
                        },
                        None => (ns, t),
                    }
                });
                if newly {
                    assert(exists|j: int| 0 <= j < i + 1 && s0[j] is Some && ack.spec_acks(off + j));
                }
            }
            i = i + 1;
        }
        proof {
            assert(self.sent@ =~= mid);
            if newly {
                let j = choose|j: int| 0 <= j < s0.len() && s0[j] is Some && ack.spec_acks(off + j);
                assert(old(self).sent_at(off + j) is Some);
            }
            if old(self).newly_acked(*ack) {
                let pn = choose|pn: int| #[trigger] old(self).sent_at(pn) is Some && ack.spec_acks(pn);
                assert(s0[pn - off] is Some);
            }
        }
        (newly, sample)
    }

    /// Handles the records of a lost packet: control frames are queued again,
    /// data records give a may-loss notice, ACK records need nothing.
    fn requeue_payload(&mut self, payload: Vec<Record<D>>, notices: &mut Vec<Notice<D>>)
        requires
            old(self).wf(),
            forall|b: int| 0 <= b < payload@.len() ==> (#[trigger] payload@[b] matches Record::Frame(f) ==> f.wf()),
        ensures
            final(self).wf(),
            final(self).frames@ == old(self).frames@ + lost_frames(payload@),
            final(notices)@ == old(notices)@ + loss_notices(payload@),
            Space::same_fixed(old(self), final(self)),
            final(self).sent@ == old(self).sent@,
            final(self).sent_offset == old(self).sent_offset,
            final(self).largest_acked_pn == old(self).largest_acked_pn,
            final(self).loss_time == old(self).loss_time,
            final(self).rcvd == old(self).rcvd,
    {
        let ghost orig = payload@;
        let mut payload = payload;
        let ghost mut j: int = 0;
        proof {
            assert(orig.take(0) =~= Seq::<Record<D>>::empty());
            assert(self.frames@ =~= old(self).frames@ + lost_frames(orig.take(0)));
            assert(notices@ =~= old(notices)@ + loss_notices(orig.take(0)));
            assert(orig.skip(0) =~= orig);
        }
        while payload.len() > 0
            invariant
                self.wf(),
                0 <= j <= orig.len(),
                payload@ == orig.skip(j),
                forall|b: int| 0 <= b < orig.len() ==> (#[trigger] orig[b] matches Record::Frame(f) ==> f.wf()),
                self.frames@ == old(self).frames@ + lost_frames(orig.take(j)),
                notices@ == old(notices)@ + loss_notices(orig.take(j)),
                Space::same_fixed(old(self), self),
                self.sent@ == old(self).sent@,
                self.sent_offset == old(self).sent_offset,
                self.largest_acked_pn == old(self).largest_acked_pn,
                self.loss_time == old(self).loss_time,
                self.rcvd == old(self).rcvd,
            decreases payload@.len(),
        {
            let rec = payload.remove(0);
            proof {
                assert(orig[j] == rec);
                assert(orig.take(j + 1).drop_last() =~= orig.take(j));
                assert(orig.take(j + 1).last() == rec);
                assert(orig.skip(j + 1) =~= orig.skip(j).subrange(1, orig.skip(j).len() as int));
            }
            match rec {
                Record::Frame(f) => {
                    self.frames.push_back(f);
                },
                Record::Data(d) => {
                    notices.push(Notice::DataMayLoss(d));
                },
                Record::Ack(_) => {},
            }
            proof {
                assert(self.frames@ =~= old(self).frames@ + lost_frames(orig.take(j + 1)));
                assert(notices@ =~= old(notices)@ + loss_notices(orig.take(j + 1)));
                j = j + 1;
            }
        }
        proof {
            assert(orig.take(j) =~= orig);
        }
    }

    /// Declares lost every awaiting packet that is `PACKET_THRESHOLD` below
    /// `largest` or was sent `loss_delay` before `now`,
    /// and sets the loss timer to the earliest time another would be.
    fn detect_lost(&mut self, largest: u64, now: u64, loss_delay: u64, notices: &mut Vec<Notice<D>>)
        requires
            old(self).wf(),
        ensures
            final(self).wf(),
            ({
                let (lf, ln, lt) = loss_upto(old(self).sent@, old(self).sent_offset as int, largest, now, loss_delay, old(self).sent@.len() as int);
                &&& final(self).frames@ == old(self).frames@ + lf
                &&& final(notices)@ == old(notices)@ + ln
                &&& final(self).loss_time == lt
            }),
            final(self).sent@.len() == old(self).sent@.len(),
            forall|j: int| 0 <= j < old(self).sent@.len() ==> #[trigger] final(self).sent@[j] == match old(self).sent@[j] {
                None => None,
                Some(p) => if declared_lost(p, old(self).sent_offset + j, largest, now, loss_delay) { None } else { Some(p) },
            },
            Space::same_fixed(old(self), final(self)),
            final(self).sent_offset == old(self).sent_offset,
            final(self).largest_acked_pn == old(self).largest_acked_pn,
            final(self).rcvd == old(self).rcvd,
    {
        let ghost s0 = old(self).sent@;
        let ghost off = self.sent_offset as int;
        self.loss_time = None;
        let mut i: usize = 0;
        while i < self.sent.len()
            invariant
                self.wf(),
                off == self.sent_offset,
                off == old(self).sent_offset,
                s0 == old(self).sent@,
                i <= s0.len(),
                self.sent@.len() == s0.len(),
                forall|j: int| 0 <= j < i ==> #[trigger] self.sent@[j] == match s0[j] {
                    None => None,
                    Some(p) => if declared_lost(p, off + j, largest, now, loss_delay) { None } else { Some(p) },
                },
                forall|j: int| i <= j < s0.len() ==> self.sent@[j] == s0[j],
                ({
                    let (lf, ln, lt) = loss_upto(s0, off, largest, now, loss_delay, i as int);
                    &&& self.frames@ == old(self).frames@ + lf
                    &&& notices@ == old(notices)@ + ln
                    &&& self.loss_time == lt
                }),
                Space::same_fixed(old(self), self),
                self.largest_acked_pn == old(self).largest_acked_pn,
                self.rcvd == old(self).rcvd,
            decreases s0.len() - i,
        {
            let pn = self.sent_offset + i as u64;
            let ghost prev = loss_upto(s0, off, largest, now, loss_delay, i as int);
            assert(self.sent@[i as int] == s0[i as int]);
            let lost;
            let st;
            match &self.sent[i] {
                Some(p) => {
                    st = p.send_time;
                    lost = pn + PACKET_THRESHOLD <= largest || p.send_time.saturating_add(loss_delay) <= now;
                },
                None => {
                    st = 0;
                    lost = false;
                },
            }
            if self.sent[i].is_some() {
                if lost {
                    let entry = self.sent.remove(i);
                    self.sent.insert(i, None);
                    match entry {
                        Some(p) => {
                            proof {
                                assert(s0[i as int] == Some(p));
                                assert forall|b: int| 0 <= b < p.payload@.len() implies (#[trigger] p.payload@[b] matches Record::Frame(f) ==> f.wf()) by {
                                    assert(old(self).sent@[i as int]->Some_0.payload@[b] == p.payload@[b]);
                                }
                                assert forall|a: int, b: int| 0 <= a < self.sent@.len() && self.sent@[a] is Some && 0 <= b < self.sent@[a]->Some_0.payload@.len() implies (#[trigger] self.sent@[a]->Some_0.payload@[b] matches Record::Frame(f) ==> f.wf()) by {
                                    if a < i {
                                        assert(self.sent@[a] == s0[a] || self.sent@[a] is None);
                                    }
                                    assert(self.sent@[a] == old(self).sent@[a] || self.sent@[a] is None);
                                }
                            }
                            self.requeue_payload(p.payload, notices);
                        },
                        None => {},
                    }
                } else {
                    let t = st.saturating_add(loss_delay);
                    self.loss_time = match self.loss_time {
                        Some(x) => Some(if x < t { x } else { t }),
                        None => Some(t),
                    };
                }
            }
            proof {
                assert(self.sent@[i as int] == match s0[i as int] {
                    None => None,
                    Some(p) => if declared_lost(p, off + i, largest, now, loss_delay) { None } else { Some(p) },
                });
            }
            i = i + 1;
        }
    }

    /// Drops the leading entries of `sent` that no longer await anything.
    fn compact(&mut self)
        requires
            old(self).wf(),
        ensures
            final(self).wf(),
            final(self).next_pn() == old(self).next_pn(),
            final(self).sent_offset >= old(self).sent_offset,
            final(self).sent@.len() == 0 || final(self).sent@[0] is Some,
            forall|pn: int| #[trigger] final(self).sent_at(pn) == old(self).sent_at(pn),
            Space::same_fixed(old(self), final(self)),
            final(self).frames@ == old(self).frames@,
            final(self).largest_acked_pn == old(self).largest_acked_pn,
            final(self).loss_time == old(self).loss_time,
            final(self).rcvd == old(self).rcvd,
    {
        let mut n: usize = 0;
        while n < self.sent.len() && self.sent[n].is_none()
            invariant
                n <= self.sent@.len(),
                forall|j: int| 0 <= j < n ==> self.sent@[j] is None,
            decreases self.sent@.len() - n,
        {
            n = n + 1;
        }
        let ghost s0 = self.sent@;
        let tail = self.sent.split_off(n);
        self.sent = tail;
        self.sent_offset = self.sent_offset + n as u64;
        proof {
            assert forall|pn: int| #[trigger] self.sent_at(pn) == old(self).sent_at(pn) by {
                if old(self).sent_offset <= pn < old(self).sent_offset + n {
                    assert(s0[pn - old(self).sent_offset] is None);
                }
            }
            assert forall|a: int, b: int| 0 <= a < self.sent@.len() && self.sent@[a] is Some && 0 <= b < self.sent@[a]->Some_0.payload@.len() implies (#[trigger] self.sent@[a]->Some_0.payload@[b] matches Record::Frame(f) ==> f.wf()) by {
                assert(self.sent@[a] == old(self).sent@[a + n]);
            }
        }
    }

    /// Processes an ACK frame from the peer at `now`. A frame whose largest is
    /// below the largest already acknowledged is stale and changes nothing.
    /// Otherwise the largest acknowledged becomes its largest; every awaiting
    /// packet it acknowledges is confirmed (notices for its frames and data;
    /// its ACK records slide the window of received packets); when the
    /// largest was among them and ack-eliciting, the RTT takes a sample; then
    /// loss detection runs and the loss timer is set. The notices are
    /// returned, or `None` when nothing new was acknowledged: such a frame
    /// only raises the largest acknowledged number, and neither loss
    /// detection nor the loss timer runs (as RFC 9002's `OnAckReceived`
    /// returns when no packet is newly acknowledged).
    pub fn on_ack_received(&mut self, ack: &AckFrame, now: u64, rtt: &mut Rtt) -> (r: Option<Vec<Notice<D>>>)
        requires
            old(self).wf(),
        ensures
            final(self).wf(),
            Space::ack_step(*old(self), *final(self), *old(rtt), *final(rtt), *ack, now, match r {
                Some(v) => Some(v@),
                None => None,
            }),
    {
        if ack.largest < self.largest_acked_pn {
            return None;
        }
        self.largest_acked_pn = ack.largest;
        let mut notices: Vec<Notice<D>> = Vec::new();
        let ghost s1 = *self;
        proof {
            assert forall|pn: int| #[trigger] s1.sent_at(pn) == old(self).sent_at(pn) by {}
            if s1.newly_acked(*ack) {
                let pn = choose|pn: int| #[trigger] s1.sent_at(pn) is Some && ack.spec_acks(pn);
                assert(old(self).sent_at(pn) is Some);
            }
            if old(self).newly_acked(*ack) {
                let pn = choose|pn: int| #[trigger] old(self).sent_at(pn) is Some && ack.spec_acks(pn);
                assert(s1.sent_at(pn) is Some);
            }
            assert(s1.newly_acked(*ack) == old(self).newly_acked(*ack));
        }
        let (newly, sample) = self.confirm_acked(ack, &mut notices);
        if !newly {
            proof {
                let off = s1.sent_offset as int;
                assert forall|j: int| 0 <= j < s1.sent@.len() implies !(s1.sent@[j] is Some && ack.spec_acks(off + j)) by {
                    assert(s1.sent_at(off + j) == s1.sent@[j]);
                }
                lemma_confirm_none(s1.sent@, off, *ack, s1.disorder_tolerance, s1.sent@.len() as int);
                assert(self.sent@ =~= s1.sent@);
                assert(self.rcvd.states@ =~= s1.rcvd.states@) by {
                    assert forall|k: int| 0 <= k < self.rcvd.states@.len() implies self.rcvd.states@[k] == s1.rcvd.states@[k] by {
                        assert(self.rcvd.state_at(self.rcvd.offset + k) == s1.rcvd.state_at(self.rcvd.offset + k));
                    }
                }
            }
            return None;
        }
        if let Some(t) = sample {
            let delay = scale_ack_delay(ack.delay, self.ack_delay_exponent, self.max_ack_delay);
            rtt.update(now.saturating_sub(t), delay, self.max_ack_delay, self.handshake_confirmed);
        }
        let ld = rtt.loss_delay();
        let ghost s2 = *self;
        let ghost cn = notices@;
        self.detect_lost(ack.largest, now, ld, &mut notices);
        let ghost s3 = *self;
        self.compact();
        proof {
            let off = old(self).sent_offset as int;
            assert(s2.sent@ == after_confirm(old(self).sent@, off, *ack));
            assert forall|pn: int| #[trigger] self.sent_at(pn) == match old(self).sent_at(pn) {
                None => None,
                Some(p) => if ack.spec_acks(pn) || declared_lost(p, pn, ack.largest, now, ld) {
                    None
                } else {
                    Some(p)
                },
            } by {
                assert(self.sent_at(pn) == s3.sent_at(pn));
                if off <= pn < old(self).next_pn() {
                    assert(s3.sent@[pn - off] == match s2.sent@[pn - off] {
                        None => None,
                        Some(p) => if declared_lost(p, off + (pn - off), ack.largest, now, ld) { None } else { Some(p) },
                    });
                }
            }
            if sample is Some {
                assert(scaled_ack_delay(ack.delay, old(self).ack_delay_exponent, old(self).max_ack_delay) <= old(self).max_ack_delay);
            }
        }
        Some(notices)
    }
}

/// Assembling the next packet of a packet-number space into a buffer.
pub trait TrySend {
    spec fn ready(&self) -> bool;

    /// Writes the next packet into `buf`, at most `max_bytes` of it
    /// counting against the budget; the packet's number and those bytes.
    fn try_send(&mut self, buf: &mut Vec<u8>, max_bytes: usize, now: u64) -> (r: Result<(u64, usize), Error>)
        requires
            old(self).ready(),
        ensures
            final(self).ready(),
            r matches Ok((_, n)) ==> n <= max_bytes,
    ;
}

impl<D> TrySend for Space<D> {
    open spec fn ready(&self) -> bool {
        self.wf()
    }

    fn try_send(&mut self, buf: &mut Vec<u8>, max_bytes: usize, now: u64) -> (r: Result<(u64, usize), Error>) {
        Space::try_send(self, buf, max_bytes, now)
    }
}

/// Applying the same ACK frame a second time leaves the space as the first
/// application left it, reports nothing and takes no RTT sample.
pub proof fn lemma_ack_idempotent<D>(
    s0: Space<D>,
    s1: Space<D>,
    s2: Space<D>,
    rtt0: Rtt,
    rtt1: Rtt,
    rtt2: Rtt,
    ack: AckFrame,
    now1: u64,
    now2: u64,
    r1: Option<Seq<Notice<D>>>,
    r2: Option<Seq<Notice<D>>>,
)
    requires
        Space::ack_step(s0, s1, rtt0, rtt1, ack, now1, r1),
        Space::ack_step(s1, s2, rtt1, rtt2, ack, now2, r2),
    ensures
        Space::same_state(&s1, &s2),
        r2 is None,
        rtt2 == rtt1,
{
    if ack.largest >= s0.largest_acked_pn {
        if s0.newly_acked(ack) {
            assert forall|pn: int| !(#[trigger] s1.sent_at(pn) is Some && ack.spec_acks(pn)) by {}
        } else {
            if s1.newly_acked(ack) {
                let pn = choose|pn: int| #[trigger] s1.sent_at(pn) is Some && ack.spec_acks(pn);
                assert(s0.sent_at(pn) is Some);
            }
        }
        assert(!s1.newly_acked(ack));
    }
}

/// In every well-formed state, a packet not received between the last
/// reported largest and `PACKET_THRESHOLD` below the largest ack-eliciting
/// packet has raised the loss flag, so an ACK frame is due.
pub proof fn lemma_gap_raises_loss_flag<D>(s: Space<D>, q: int)
    requires
        s.wf(),
        s.last_synced_ack_largest < q,
        q + PACKET_THRESHOLD < s.largest_rcvd_ack_eliciting_pn,
        s.rcvd.offset <= q,
        s.rcvd.state_at(q) == State::NotReceived,
    ensures
        s.new_lost_event,
{
}

/// The largest acknowledged packet number never decreases.
pub proof fn lemma_largest_acked_monotone<D>(
    s0: Space<D>,
    s1: Space<D>,
    rtt0: Rtt,
    rtt1: Rtt,
    ack: AckFrame,
    now: u64,
    r: Option<Seq<Notice<D>>>,
)
    requires
        Space::ack_step(s0, s1, rtt0, rtt1, ack, now, r),
    ensures
        s1.largest_acked_pn >= s0.largest_acked_pn,
{
}

/// A packet that an ACK frame acknowledges is not declared lost by it (loss
/// detection runs over the packets with the acknowledged ones taken out); and a
/// packet declared lost (dropped without being acknowledged) is no longer
/// awaited, so no later ACK frame confirms it: its data records get a
/// may-loss notice only if it is never acknowledged.
pub proof fn lemma_no_spurious_loss<D>(
    s0: Space<D>,
    s1: Space<D>,
    s2: Space<D>,
    rtt0: Rtt,
    rtt1: Rtt,
    rtt2: Rtt,
    a1: AckFrame,
    a2: AckFrame,
    now1: u64,
    now2: u64,
    r1: Option<Seq<Notice<D>>>,
    r2: Option<Seq<Notice<D>>>,
    pn: int,
)
    requires
        Space::ack_step(s0, s1, rtt0, rtt1, a1, now1, r1),
        Space::ack_step(s1, s2, rtt1, rtt2, a2, now2, r2),
        s0.sent_at(pn) is Some,
    ensures
        a1.spec_acks(pn) && a1.largest >= s0.largest_acked_pn ==> s1.sent_at(pn) is None,
        a1.spec_acks(pn) ==> after_confirm(s0.sent@, s0.sent_offset as int, a1)[pn - s0.sent_offset] is None,
        s1.sent_at(pn) is None && !a1.spec_acks(pn) ==> s2.sent_at(pn) is None && !(s1.sent_at(pn) is Some
            && a2.spec_acks(pn)),
{
    assert(s0.sent@[pn - s0.sent_offset] == s0.sent_at(pn));
    if a1.largest >= s0.largest_acked_pn && !s0.newly_acked(a1) && a1.spec_acks(pn) {
        assert(s0.sent_at(pn) is Some && a1.spec_acks(pn));
    }
    if s1.sent_at(pn) is None && a2.largest >= s1.largest_acked_pn && !s1.newly_acked(a2) {
        assert(s2.sent@ == s1.sent@);
    }
}

/// A packet is declared lost only once it is `PACKET_THRESHOLD` below the
/// largest acknowledged packet, or once `loss_delay` has passed since it was
/// sent.
pub proof fn lemma_loss_delay_bound<D>(
    s0: Space<D>,
    s1: Space<D>,
    rtt0: Rtt,
    rtt1: Rtt,
    ack: AckFrame,
    now: u64,
    r: Option<Seq<Notice<D>>>,
    pn: int,
)
    requires
        Space::ack_step(s0, s1, rtt0, rtt1, ack, now, r),
        s0.sent_at(pn) is Some,
        s1.sent_at(pn) is None,
        !ack.spec_acks(pn),
    ensures
        pn + PACKET_THRESHOLD <= ack.largest || sat_add(s0.sent_at(pn)->Some_0.send_time, spec_loss_delay(rtt1)) <= now,
{
    if ack.largest >= s0.largest_acked_pn && !s0.newly_acked(ack) {
        assert(s1.sent@ == s0.sent@);
    }
}

} // verus!
