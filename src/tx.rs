//! The transmission planner: anti-amplification accounting, the decision
//! whether a transaction (one datagram's worth of sending) may start, and the
//! packet being assembled with what it records.

use vstd::prelude::*;
use crate::cid::ConnectionId;
use crate::frame::{ack_bytes, ack_encodable, write_ack_frame, AckFrame};
use crate::param::Readiness;
use crate::reliable::ReliableFrame;
use crate::space::Space;
use crate::error::Error;
use crate::rtt::sat_add;

verus! {

/// Before path validation a server sends at most this many times what it
/// received.
pub const DEFAULT_ANTI_FACTOR: u64 = 3;

/// Bytes received and sent on a path, and whether the path is validated.
#[derive(Clone, Copy, Debug)]
pub struct AntiAmplifier {
    pub received: u64,
    pub sent: u64,
    pub validated: bool,
}

impl AntiAmplifier {
    /// Before validation, what was sent is at most three times what was
    /// received.
    pub open spec fn wf(&self) -> bool {
        self.validated || self.sent <= DEFAULT_ANTI_FACTOR * self.received
    }

    /// What may still be sent before validation, saturating.
    pub open spec fn spec_credit(&self) -> u64 {
        if self.validated {
            u64::MAX
        } else if DEFAULT_ANTI_FACTOR * self.received > u64::MAX {
            (u64::MAX - self.sent) as u64
        } else {
            (DEFAULT_ANTI_FACTOR * self.received - self.sent) as u64
        }
    }

    pub fn new() -> (r: AntiAmplifier)
        ensures
            r.wf(),
            r.received == 0 && r.sent == 0 && !r.validated,
    {
        AntiAmplifier { received: 0, sent: 0, validated: false }
    }

    /// Bytes that may be sent now: unlimited once the path is validated.
    pub fn credit(&self) -> (r: u64)
        requires
            self.wf(),
        ensures
            r == self.spec_credit(),
    {
        if self.validated {
            return u64::MAX;
        }
        let limit = if self.received > u64::MAX / DEFAULT_ANTI_FACTOR {
            u64::MAX
        } else {
            self.received * DEFAULT_ANTI_FACTOR
        };
        limit - self.sent
    }

    /// Counts `n` bytes received from the peer on this path.
    pub fn on_rcvd(&mut self, n: u64)
        requires
            old(self).wf(),
        ensures
            final(self).wf(),
            final(self).received == if old(self).received + n > u64::MAX { u64::MAX } else { (old(self).received + n) as u64 },
            final(self).sent == old(self).sent,
            final(self).validated == old(self).validated,
    {
        self.received = self.received.saturating_add(n);
    }

    /// Counts `n` bytes sent, within the credit.
    pub fn on_sent(&mut self, n: u64)
        requires
            old(self).wf(),
            n <= old(self).spec_credit(),
        ensures
            final(self).wf(),
            final(self).sent == sat_add(old(self).sent, n),
            final(self).received == old(self).received,
            final(self).validated == old(self).validated,
    {
        self.sent = self.sent.saturating_add(n);
    }

    /// The path is validated: no limit from now on.
    pub fn on_validated(&mut self)
        ensures
            final(self).validated,
            final(self).wf(),
    {
        self.validated = true;
    }
}

/// Spending the credit never lets a server send more than three times what
/// it received before the path is validated.
pub proof fn lemma_anti_amplification(a: AntiAmplifier, n: u64)
    requires
        a.wf(),
        !a.validated,
        n <= a.spec_credit(),
    ensures
        a.sent + n <= DEFAULT_ANTI_FACTOR * a.received,
{
}

/// A commit within the path's credit leaves what a server sent before
/// validation at most three times what it received.
pub proof fn lemma_commit_keeps_anti_amplification(a0: AntiAmplifier, a1: AntiAmplifier, n: u64)
    requires
        a0.wf(),
        !a0.validated,
        n <= a0.spec_credit(),
        a1.sent == sat_add(a0.sent, n),
        a1.received == a0.received,
        a1.validated == a0.validated,
    ensures
        a1.sent <= DEFAULT_ANTI_FACTOR * a1.received,
        a1.wf(),
{
}

/// What one source of sending rights has to say when polled.
#[derive(Clone, Copy, Debug)]
pub enum Poll<T> {
    Ready(T),
    Pending,
    /// The source is gone for good (connection closed, no CID left).
    Closed,
}

/// The rights one datagram's sending holds: the destination CID, the send
/// quota from congestion control, the anti-amplification credit and the
/// connection-level flow-control window.
#[derive(Clone, Copy, Debug)]
pub struct Transaction {
    pub dcid: ConnectionId,
    pub send_quota: u64,
    pub credit_limit: u64,
    pub flow_limit: u64,
}

/// The planner's decision, from what each source said: the transaction
/// when all four grant something, `None` once one of them is closed, and
/// pending otherwise (sources consulted in order: congestion control, then
/// anti-amplification, then flow control, then the CID pool).
pub open spec fn spec_prepare(
    quota: Poll<u64>,
    credit: Poll<u64>,
    flow: Poll<u64>,
    dcid: Poll<ConnectionId>,
) -> Option<Option<Transaction>> {
    match quota {
        Poll::Closed => Some(None),
        Poll::Pending => None,
        Poll::Ready(q) => if q == 0 {
            None
        } else {
            match credit {
                Poll::Closed => Some(None),
                Poll::Pending => None,
                Poll::Ready(c) => if c == 0 {
                    None
                } else {
                    match flow {
                        Poll::Closed => Some(None),
                        Poll::Pending => None,
                        Poll::Ready(f) => match dcid {
                            Poll::Closed => Some(None),
                            Poll::Pending => None,
                            Poll::Ready(d) => Some(
                                Some(Transaction { dcid: d, send_quota: q, credit_limit: c, flow_limit: f }),
                            ),
                        },
                    }
                },
            }
        },
    }
}

impl Transaction {
    /// Decides whether a transaction can start; `None` inside `Ready` means
    /// sending has ended for good.
    pub fn prepare(quota: Poll<u64>, credit: Poll<u64>, flow: Poll<u64>, dcid: Poll<ConnectionId>) -> (r: Readiness<
        Option<Transaction>,
    >)
        ensures
            match spec_prepare(quota, credit, flow, dcid) {
                Some(t) => r matches Readiness::Ready(x) && x == t,
                None => r is Pending,
            },
    {
        let q = match quota {
            Poll::Closed => return Readiness::Ready(None),
            Poll::Pending => return Readiness::Pending,
            Poll::Ready(q) => q,
        };
        if q == 0 {
            return Readiness::Pending;
        }
        let c = match credit {
            Poll::Closed => return Readiness::Ready(None),
            Poll::Pending => return Readiness::Pending,
            Poll::Ready(c) => c,
        };
        if c == 0 {
            return Readiness::Pending;
        }
        let f = match flow {
            Poll::Closed => return Readiness::Ready(None),
            Poll::Pending => return Readiness::Pending,
            Poll::Ready(f) => f,
        };
        match dcid {
            Poll::Closed => Readiness::Ready(None),
            Poll::Pending => Readiness::Pending,
            Poll::Ready(d) => Readiness::Ready(Some(Transaction { dcid: d, send_quota: q, credit_limit: c, flow_limit: f })),
        }
    }

    pub fn dcid(&self) -> (r: ConnectionId)
        ensures
            r == self.dcid,
    {
        self.dcid
    }

    pub fn flow_limit(&self) -> (r: u64)
        ensures
            r == self.flow_limit,
    {
        self.flow_limit
    }

    /// The byte budget `load_space` hands the space: the least of the send
    /// quota, the transaction's credit and the path's credit.
    pub open spec fn load_budget(&self, a: AntiAmplifier) -> usize {
        let m = if self.send_quota < self.credit_limit { self.send_quota } else { self.credit_limit };
        let m = if a.spec_credit() < m { a.spec_credit() } else { m };
        if m > usize::MAX { usize::MAX } else { m as usize }
    }

    /// Assembles the next packet of `space` into `buf` at `now`, its
    /// budgeted frames within the send quota, the transaction's credit and
    /// what the path's anti-amplification limit allows, and charges those
    /// bytes (ACK frames are not charged). The packet number and the charged
    /// bytes, or the space's error.
    pub fn load_space<D>(&mut self, space: &mut Space<D>, buf: &mut Vec<u8>, now: u64, anti: &mut AntiAmplifier) -> (r: Result<(u64, usize), Error>)
        requires
            old(space).wf(),
            old(anti).wf(),
        ensures
            final(space).wf(),
            final(anti).wf(),
            Space::send_step(*old(space), *final(space), old(buf)@, final(buf)@, old(self).load_budget(*old(anti)), now, r),
            r matches Ok((_, n)) ==> n <= old(self).send_quota && n <= old(self).credit_limit
                && n <= old(anti).spec_credit()
                && final(self).send_quota == old(self).send_quota - n
                && final(self).credit_limit == old(self).credit_limit - n
                && final(anti).sent == sat_add(old(anti).sent, n as u64)
                && final(anti).received == old(anti).received && final(anti).validated == old(anti).validated,
            r is Err ==> *final(self) == *old(self) && *final(anti) == *old(anti),
            final(self).dcid == old(self).dcid,
            final(self).flow_limit == old(self).flow_limit,
    {
        let path = anti.credit();
        let mut budget = if self.send_quota < self.credit_limit { self.send_quota } else { self.credit_limit };
        if path < budget {
            budget = path;
        }
        let budget = if budget > usize::MAX as u64 { usize::MAX } else { budget as usize };
        let (pn, n) = match space.try_send(buf, budget, now) {
            Ok(x) => x,
            Err(e) => return Err(e),
        };
        self.commit(n as u64, false, anti);
        Ok((pn, n))
    }

    /// Charges a packet of `n` bytes: against the send quota always; unless
    /// it only carries ACK frames, against the transaction's credit and the
    /// path's anti-amplification account, which keeps its bound.
    pub fn commit(&mut self, n: u64, ack_only: bool, anti: &mut AntiAmplifier)
        requires
            n <= old(self).send_quota,
            old(anti).wf(),
            !ack_only ==> n <= old(self).credit_limit && n <= old(anti).spec_credit(),
        ensures
            final(anti).wf(),
            final(self).send_quota == old(self).send_quota - n,
            final(self).credit_limit == if ack_only { old(self).credit_limit } else { (old(self).credit_limit - n) as u64 },
            ack_only ==> *final(anti) == *old(anti),
            !ack_only ==> final(anti).sent == sat_add(old(anti).sent, n) && final(anti).received == old(anti).received
                && final(anti).validated == old(anti).validated,
            final(self).dcid == old(self).dcid,
            final(self).flow_limit == old(self).flow_limit,
    {
        self.send_quota = self.send_quota - n;
        if !ack_only {
            self.credit_limit = self.credit_limit - n;
            anti.on_sent(n);
        }
    }
}

/// What a packet being assembled records for its sent journal.
#[derive(Clone, Copy, Debug, PartialEq, Eq, Structural)]
pub enum SentRecord {
    /// A frame that needs nothing on loss (ACK, PING).
    Trivial,
    /// A control frame, requeued on loss.
    Reliable(ReliableFrame),
}

/// A packet being assembled: its header, the payload written so far within
/// the room the buffer leaves, its packet number, and its records.
#[derive(Debug)]
pub struct PacketMemory {
    pub header: Vec<u8>,
    pub payload: Vec<u8>,
    /// Bytes the payload may take: the buffer less header, packet number and
    /// AEAD tag.
    pub room: usize,
    pub pn: u64,
    pub records: Vec<SentRecord>,
}

impl PacketMemory {
    /// Starts a packet with `header` and number `pn` (written in `pn_len`
    /// bytes) in a buffer of `buf_len` bytes whose last `tag_len` bytes hold
    /// the AEAD tag; `None` when they leave no room for a payload.
    pub fn new(header: &[u8], buf_len: usize, tag_len: usize, pn: u64, pn_len: usize) -> (r: Option<PacketMemory>)
        ensures
            r is Some <==> header@.len() + pn_len + tag_len < buf_len,
            r matches Some(m) ==> m.header@ == header@ && m.payload@.len() == 0 && m.pn == pn && m.records@.len() == 0
                && m.room == buf_len - header@.len() - pn_len - tag_len,
    {
        let h = header.len();
        if h >= buf_len || pn_len >= buf_len - h || tag_len >= buf_len - h - pn_len {
            return None;
        }
        let mut hv: Vec<u8> = Vec::new();
        let mut i: usize = 0;
        while i < h
            invariant
                h == header@.len(),
                i <= h,
                hv@ == header@.take(i as int),
            decreases h - i,
        {
            hv.push(header[i]);
            i = i + 1;
            assert(hv@ =~= header@.take(i as int));
        }
        assert(header@.take(h as int) =~= header@);
        Some(PacketMemory { header: hv, payload: Vec::new(), room: buf_len - h - pn_len - tag_len, pn, records: Vec::new() })
    }

    /// Writes an ACK frame if it fits; it needs nothing on loss.
    pub fn dump_ack_frame(&mut self, frame: &AckFrame) -> (written: bool)
        requires
            ack_encodable(*frame),
        ensures
            written <==> old(self).payload@.len() + ack_bytes(*frame).len() <= old(self).room,
            written ==> final(self).payload@ == old(self).payload@ + ack_bytes(*frame)
                && final(self).records@ == old(self).records@.push(SentRecord::Trivial),
            !written ==> final(self).payload@ == old(self).payload@ && final(self).records@ == old(self).records@,
            final(self).room == old(self).room,
            final(self).pn == old(self).pn,
            final(self).header@ == old(self).header@,
    {
        let mut tmp: Vec<u8> = Vec::new();
        write_ack_frame(&mut tmp, frame);
        assert(tmp@ =~= Seq::<u8>::empty() + ack_bytes(*frame));
        if tmp.len() > self.room || self.payload.len() > self.room - tmp.len() {
            return false;
        }
        self.payload.append(&mut tmp);
        self.records.push(SentRecord::Trivial);
        true
    }

    /// Writes a PING frame if it fits; it needs nothing on loss.
    pub fn dump_ping_frame(&mut self) -> (written: bool)
        ensures
            written <==> old(self).payload@.len() + 1 <= old(self).room,
            written ==> final(self).payload@ == old(self).payload@.push(0x01) && final(self).records@
                == old(self).records@.push(SentRecord::Trivial),
            !written ==> final(self).payload@ == old(self).payload@ && final(self).records@ == old(self).records@,
            final(self).room == old(self).room,
            final(self).pn == old(self).pn,
            final(self).header@ == old(self).header@,
    {
        if self.payload.len() >= self.room {
            return false;
        }
        self.payload.push(0x01);
        self.records.push(SentRecord::Trivial);
        true
    }

    /// Whether nothing was written.
    pub fn is_empty(&self) -> (r: bool)
        ensures
            r == (self.payload@.len() == 0),
    {
        self.payload.len() == 0
    }

    /// Writes a control frame if it fits, and records it for retransmission;
    /// the frame comes back when it does not fit.
    pub fn dump_frame(&mut self, frame: ReliableFrame) -> (r: Option<ReliableFrame>)
        requires
            frame.wf(),
        ensures
            r is None <==> old(self).payload@.len() + frame.spec_bytes().len() <= old(self).room,
            r is None ==> final(self).payload@ == old(self).payload@ + frame.spec_bytes()
                && final(self).records@ == old(self).records@.push(SentRecord::Reliable(frame)),
            r is Some ==> r == Some(frame) && final(self).payload@ == old(self).payload@ && final(self).records@
                == old(self).records@,
            final(self).room == old(self).room,
            final(self).pn == old(self).pn,
            final(self).header@ == old(self).header@,
    {
        let n = frame.encoded_len();
        if n > self.room || self.payload.len() > self.room - n {
            return Some(frame);
        }
        frame.write(&mut self.payload);
        self.records.push(SentRecord::Reliable(frame));
        None
    }

    /// The finished packet: header, number, payload and records; an empty
    /// packet is refused.
    pub fn into_packet(self) -> (r: Result<(Vec<u8>, u64, Vec<u8>, Vec<SentRecord>), ()>)
        ensures
            r is Err <==> self.payload@.len() == 0,
            r matches Ok((h, pn, p, rec)) ==> h@ == self.header@ && pn == self.pn && p@ == self.payload@
                && rec@ == self.records@,
    {
        if self.payload.len() == 0 {
            Err(())
        } else {
            Ok((self.header, self.pn, self.payload, self.records))
        }
    }
}

} // verus!
