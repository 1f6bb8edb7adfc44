//! QUIC frames: their grammar on bytes, the ACK frame and the set of packet
//! numbers it acknowledges.
//!
//! A parsed frame refers to byte strings of the packet (stream data, tokens,
//! reasons) by start position and length, so a frame is a plain value.

use vstd::prelude::*;
use crate::error::{Error, ErrorKind, FrameType};
use crate::varint::{decode, encode, lemma_varint_bytes_len, lemma_varint_in_context, varint_at, varint_bytes, varint_size, VARINT_MAX};

verus! {

/// An ACK frame: the largest acknowledged packet number, the ACK delay as
/// sent, the number of packets acknowledged below the largest, and
/// `(gap, length)` pairs for the further ranges, descending.
#[derive(Clone, Debug)]
pub struct AckFrame {
    pub largest: u64,
    pub delay: u64,
    pub first_range: u64,
    pub ranges: Vec<(u64, u64)>,
}

/// Whether `pn` lies in a range of `ranges` from index `i` on, the range
/// before them ending (at its low end) at `smallest`. A range that would
/// reach below zero ends the list.
pub open spec fn in_ranges(ranges: Seq<(u64, u64)>, i: int, smallest: int, pn: int) -> bool
    decreases ranges.len() - i,
{
    if i < 0 || i >= ranges.len() {
        false
    } else {
        let hi = smallest - ranges[i].0 - 2;
        let lo = hi - ranges[i].1;
        if lo < 0 {
            false
        } else {
            (lo <= pn && pn <= hi) || in_ranges(ranges, i + 1, lo, pn)
        }
    }
}

/// Whether the ACK frame with these fields acknowledges `pn`.
pub open spec fn acks(largest: u64, first_range: u64, ranges: Seq<(u64, u64)>, pn: int) -> bool {
    let lo = largest - first_range;
    lo >= 0 && ((lo <= pn && pn <= largest) || in_ranges(ranges, 0, lo, pn))
}

/// Every range lies at or above zero.
pub open spec fn ranges_valid(ranges: Seq<(u64, u64)>, i: int, smallest: int) -> bool
    decreases ranges.len() - i,
{
    if i < 0 || i >= ranges.len() {
        true
    } else {
        let lo = smallest - ranges[i].0 - 2 - ranges[i].1;
        lo >= 0 && ranges_valid(ranges, i + 1, lo)
    }
}

impl AckFrame {
    /// Whether this frame acknowledges `pn`.
    pub open spec fn spec_acks(&self, pn: int) -> bool {
        acks(self.largest, self.first_range, self.ranges@, pn)
    }

    /// No range of the frame reaches below packet number zero.
    pub open spec fn valid(&self) -> bool {
        self.first_range <= self.largest && ranges_valid(
            self.ranges@,
            0,
            self.largest - self.first_range,
        )
    }

    /// Whether this frame acknowledges `pn`.
    pub fn contains(&self, pn: u64) -> (r: bool)
        ensures
            r == self.spec_acks(pn as int),
    {
        if self.first_range > self.largest {
            return false;
        }
        let mut smallest = self.largest - self.first_range;
        if smallest <= pn && pn <= self.largest {
            return true;
        }
        let mut i: usize = 0;
        while i < self.ranges.len()
            invariant
                i <= self.ranges@.len(),
                self.first_range <= self.largest,
                self.spec_acks(pn as int) == in_ranges(self.ranges@, i as int, smallest as int, pn as int),
            decreases self.ranges@.len() - i,
        {
            let (gap, len) = self.ranges[i];
            if smallest < 2 || gap > smallest - 2 || len > smallest - 2 - gap {
                return false;
            }
            let hi = smallest - 2 - gap;
            let lo = hi - len;
            if lo <= pn && pn <= hi {
                return true;
            }
            smallest = lo;
            i = i + 1;
        }
        false
    }

    /// Whether no range reaches below packet number zero.
    pub fn check_valid(&self) -> (r: bool)
        ensures
            r == self.valid(),
    {
        if self.first_range > self.largest {
            return false;
        }
        let mut smallest = self.largest - self.first_range;
        let mut i: usize = 0;
        while i < self.ranges.len()
            invariant
                i <= self.ranges@.len(),
                self.first_range <= self.largest,
                self.valid() == ranges_valid(self.ranges@, i as int, smallest as int),
            decreases self.ranges@.len() - i,
        {
            let (gap, len) = self.ranges[i];
            if smallest < 2 || gap > smallest - 2 || len > smallest - 2 - gap {
                return false;
            }
            smallest = smallest - 2 - gap - len;
            i = i + 1;
        }
        true
    }
}


/// A frame as read from a packet payload. Byte strings are given by their
/// start position in the payload and their length.
#[derive(Clone, Debug)]
pub enum Frame {
    Padding,
    Ping,
    Ack(AckFrame),
    ResetStream { stream_id: u64, app_error_code: u64, final_size: u64 },
    StopSending { stream_id: u64, app_error_code: u64 },
    Crypto { offset: u64, start: usize, len: usize },
    NewToken { start: usize, len: usize },
    Stream { stream_id: u64, offset: u64, fin: bool, start: usize, len: usize },
    MaxData { max: u64 },
    MaxStreamData { stream_id: u64, max: u64 },
    MaxStreams { uni: bool, max: u64 },
    DataBlocked { limit: u64 },
    StreamDataBlocked { stream_id: u64, limit: u64 },
    StreamsBlocked { uni: bool, limit: u64 },
    NewConnectionId { sequence: u64, retire_prior_to: u64, cid_start: usize, cid_len: usize, token_start: usize },
    RetireConnectionId { sequence: u64 },
    PathChallenge { start: usize },
    PathResponse { start: usize },
    ConnectionClose { app: bool, error_code: u64, frame_type: u64, reason_start: usize, reason_len: usize },
    HandshakeDone,
    Datagram { start: usize, len: usize },
}

/// The mathematical form of a frame: as `Frame`, the ACK ranges a sequence.
pub enum FrameSpec {
    Padding,
    Ping,
    Ack { largest: u64, delay: u64, first_range: u64, ranges: Seq<(u64, u64)> },
    ResetStream { stream_id: u64, app_error_code: u64, final_size: u64 },
    StopSending { stream_id: u64, app_error_code: u64 },
    Crypto { offset: u64, start: int, len: int },
    NewToken { start: int, len: int },
    Stream { stream_id: u64, offset: u64, fin: bool, start: int, len: int },
    MaxData { max: u64 },
    MaxStreamData { stream_id: u64, max: u64 },
    MaxStreams { uni: bool, max: u64 },
    DataBlocked { limit: u64 },
    StreamDataBlocked { stream_id: u64, limit: u64 },
    StreamsBlocked { uni: bool, limit: u64 },
    NewConnectionId { sequence: u64, retire_prior_to: u64, cid_start: int, cid_len: int, token_start: int },
    RetireConnectionId { sequence: u64 },
    PathChallenge { start: int },
    PathResponse { start: int },
    ConnectionClose { app: bool, error_code: u64, frame_type: u64, reason_start: int, reason_len: int },
    HandshakeDone,
    Datagram { start: int, len: int },
}

impl View for Frame {
    type V = FrameSpec;

    open spec fn view(&self) -> FrameSpec {
        match *self {
            Frame::Padding => FrameSpec::Padding,
            Frame::Ping => FrameSpec::Ping,
            Frame::Ack(a) => FrameSpec::Ack {
                largest: a.largest,
                delay: a.delay,
                first_range: a.first_range,
                ranges: a.ranges@,
            },
            Frame::ResetStream { stream_id, app_error_code, final_size } => FrameSpec::ResetStream {
                stream_id,
                app_error_code,
                final_size,
            },
            Frame::StopSending { stream_id, app_error_code } => FrameSpec::StopSending {
                stream_id,
                app_error_code,
            },
            Frame::Crypto { offset, start, len } => FrameSpec::Crypto {
                offset,
                start: start as int,
                len: len as int,
            },
            Frame::NewToken { start, len } => FrameSpec::NewToken { start: start as int, len: len as int },
            Frame::Stream { stream_id, offset, fin, start, len } => FrameSpec::Stream {
                stream_id,
                offset,
                fin,
                start: start as int,
                len: len as int,
            },
            Frame::MaxData { max } => FrameSpec::MaxData { max },
            Frame::MaxStreamData { stream_id, max } => FrameSpec::MaxStreamData { stream_id, max },
            Frame::MaxStreams { uni, max } => FrameSpec::MaxStreams { uni, max },
            Frame::DataBlocked { limit } => FrameSpec::DataBlocked { limit },
            Frame::StreamDataBlocked { stream_id, limit } => FrameSpec::StreamDataBlocked {
                stream_id,
                limit,
            },
            Frame::StreamsBlocked { uni, limit } => FrameSpec::StreamsBlocked { uni, limit },
            Frame::NewConnectionId { sequence, retire_prior_to, cid_start, cid_len, token_start } =>
                FrameSpec::NewConnectionId {
                sequence,
                retire_prior_to,
                cid_start: cid_start as int,
                cid_len: cid_len as int,
                token_start: token_start as int,
            },
            Frame::RetireConnectionId { sequence } => FrameSpec::RetireConnectionId { sequence },
            Frame::PathChallenge { start } => FrameSpec::PathChallenge { start: start as int },
            Frame::PathResponse { start } => FrameSpec::PathResponse { start: start as int },
            Frame::ConnectionClose { app, error_code, frame_type, reason_start, reason_len } =>
                FrameSpec::ConnectionClose {
                app,
                error_code,
                frame_type,
                reason_start: reason_start as int,
                reason_len: reason_len as int,
            },
            Frame::HandshakeDone => FrameSpec::HandshakeDone,
            Frame::Datagram { start, len } => FrameSpec::Datagram { start: start as int, len: len as int },
        }
    }
}

/// A variable-length integer at `p`, as a `u64`.
pub open spec fn vat(s: Seq<u8>, p: int) -> Option<(u64, int)> {
    match varint_at(s, p) {
        Some((v, n)) => Some((v as u64, n)),
        None => None,
    }
}

/// `count` (gap, length) pairs from `p` on, and the position after them.
pub open spec fn ranges_at(s: Seq<u8>, p: int, count: nat) -> Option<(Seq<(u64, u64)>, int)>
    decreases count,
{
    if count == 0 {
        Some((Seq::empty(), p))
    } else {
        match vat(s, p) {
            None => None,
            Some((gap, p1)) => match vat(s, p1) {
                None => None,
                Some((len, p2)) => if p2 <= p {
                    None
                } else {
                    match ranges_at(s, p2, (count - 1) as nat) {
                        None => None,
                        Some((rest, e)) => Some((seq![(gap, len)] + rest, e)),
                    }
                },
            },
        }
    }
}

/// The body of an ACK frame from `p` on; with ECN counts when `ecn`.
pub open spec fn ack_at(s: Seq<u8>, ecn: bool, p: int) -> Option<(FrameSpec, int)> {
    match vat(s, p) {
        None => None,
        Some((largest, p1)) => match vat(s, p1) {
            None => None,
            Some((delay, p2)) => match vat(s, p2) {
                None => None,
                Some((count, p3)) => match vat(s, p3) {
                    None => None,
                    Some((first_range, p4)) => match ranges_at(s, p4, count as nat) {
                        None => None,
                        Some((ranges, p5)) => {
                            let end = if ecn {
                                match vat(s, p5) {
                                    None => -1,
                                    Some((_a, q1)) => match vat(s, q1) {
                                        None => -1,
                                        Some((_b, q2)) => match vat(s, q2) {
                                            None => -1,
                                            Some((_c, q3)) => q3,
                                        },
                                    },
                                }
                            } else {
                                p5
                            };
                            if end < 0 || !(first_range <= largest && ranges_valid(
                                ranges,
                                0,
                                largest - first_range,
                            )) {
                                None
                            } else {
                                Some(
                                    (
                                        FrameSpec::Ack { largest, delay, first_range, ranges },
                                        end,
                                    ),
                                )
                            }
                        },
                    },
                },
            },
        },
    }
}

/// Whether `len` bytes follow `p`.
pub open spec fn fits(s: Seq<u8>, p: int, len: int) -> bool {
    0 <= len && p + len <= s.len()
}

/// A stream frame of type `0x08 + bits` from `p` on.
pub open spec fn stream_at(s: Seq<u8>, bits: u64, p: int) -> Option<(FrameSpec, int)> {
    match vat(s, p) {
        None => None,
        Some((stream_id, p1)) => {
            let off = if bits / 4 % 2 == 1 { vat(s, p1) } else { Some((0u64, p1)) };
            match off {
                None => None,
                Some((offset, p2)) => {
                    let ln = if bits / 2 % 2 == 1 {
                        vat(s, p2)
                    } else {
                        Some(((s.len() - p2) as u64, p2))
                    };
                    match ln {
                        None => None,
                        Some((len, p3)) => if fits(s, p3, len as int) && offset + len <= VARINT_MAX {
                            Some(
                                (
                                    FrameSpec::Stream {
                                        stream_id,
                                        offset,
                                        fin: bits % 2 == 1,
                                        start: p3,
                                        len: len as int,
                                    },
                                    p3 + len,
                                ),
                            )
                        } else {
                            None
                        },
                    }
                },
            }
        },
    }
}

/// A frame of type `ty` whose body starts at `p`.
pub open spec fn body_at(s: Seq<u8>, ty: u64, p: int) -> Option<(FrameSpec, int)> {
    if ty == 0x00 {
        Some((FrameSpec::Padding, p))
    } else if ty == 0x01 {
        Some((FrameSpec::Ping, p))
    } else if ty == 0x02 || ty == 0x03 {
        ack_at(s, ty == 0x03, p)
    } else if ty == 0x04 {
        match vat(s, p) {
            None => None,
            Some((a, p1)) => match vat(s, p1) {
                None => None,
                Some((b, p2)) => match vat(s, p2) {
                    None => None,
                    Some((c, p3)) => Some(
                        (FrameSpec::ResetStream { stream_id: a, app_error_code: b, final_size: c }, p3),
                    ),
                },
            },
        }
    } else if ty == 0x05 || ty == 0x11 || ty == 0x15 {
        match vat(s, p) {
            None => None,
            Some((a, p1)) => match vat(s, p1) {
                None => None,
                Some((b, p2)) => Some(
                    (
                        if ty == 0x05 {
                            FrameSpec::StopSending { stream_id: a, app_error_code: b }
                        } else if ty == 0x11 {
                            FrameSpec::MaxStreamData { stream_id: a, max: b }
                        } else {
                            FrameSpec::StreamDataBlocked { stream_id: a, limit: b }
                        },
                        p2,
                    ),
                ),
            },
        }
    } else if ty == 0x06 {
        match vat(s, p) {
            None => None,
            Some((offset, p1)) => match vat(s, p1) {
                None => None,
                Some((len, p2)) => if fits(s, p2, len as int) && offset + len <= VARINT_MAX {
                    Some((FrameSpec::Crypto { offset, start: p2, len: len as int }, p2 + len))
                } else {
                    None
                },
            },
        }
    } else if ty == 0x07 {
        match vat(s, p) {
            None => None,
            Some((len, p1)) => if fits(s, p1, len as int) && len > 0 {
                Some((FrameSpec::NewToken { start: p1, len: len as int }, p1 + len))
            } else {
                None
            },
        }
    } else if 0x08 <= ty && ty <= 0x0f {
        stream_at(s, (ty - 8) as u64, p)
    } else if ty == 0x10 || ty == 0x12 || ty == 0x13 || ty == 0x14 || ty == 0x16 || ty == 0x17
        || ty == 0x19 {
        match vat(s, p) {
            None => None,
            Some((a, p1)) => Some(
                (
                    if ty == 0x10 {
                        FrameSpec::MaxData { max: a }
                    } else if ty == 0x12 || ty == 0x13 {
                        FrameSpec::MaxStreams { uni: ty == 0x13, max: a }
                    } else if ty == 0x14 {
                        FrameSpec::DataBlocked { limit: a }
                    } else if ty == 0x16 || ty == 0x17 {
                        FrameSpec::StreamsBlocked { uni: ty == 0x17, limit: a }
                    } else {
                        FrameSpec::RetireConnectionId { sequence: a }
                    },
                    p1,
                ),
            ),
        }
    } else if ty == 0x18 {
        match vat(s, p) {
            None => None,
            Some((sequence, p1)) => match vat(s, p1) {
                None => None,
                Some((retire_prior_to, p2)) => if p2 < s.len() && 1 <= s[p2] && s[p2] <= 20
                    && fits(s, p2 + 1, s[p2] + 16) && retire_prior_to <= sequence {
                    Some(
                        (
                            FrameSpec::NewConnectionId {
                                sequence,
                                retire_prior_to,
                                cid_start: p2 + 1,
                                cid_len: s[p2] as int,
                                token_start: p2 + 1 + s[p2],
                            },
                            p2 + 1 + s[p2] + 16,
                        ),
                    )
                } else {
                    None
                },
            },
        }
    } else if ty == 0x1a || ty == 0x1b {
        if fits(s, p, 8) {
            Some(
                (
                    if ty == 0x1a {
                        FrameSpec::PathChallenge { start: p }
                    } else {
                        FrameSpec::PathResponse { start: p }
                    },
                    p + 8,
                ),
            )
        } else {
            None
        }
    } else if ty == 0x1c || ty == 0x1d {
        match vat(s, p) {
            None => None,
            Some((error_code, p1)) => {
                let ft = if ty == 0x1c { vat(s, p1) } else { Some((0u64, p1)) };
                match ft {
                    None => None,
                    Some((frame_type, p2)) => match vat(s, p2) {
                        None => None,
                        Some((len, p3)) => if fits(s, p3, len as int) {
                            Some(
                                (
                                    FrameSpec::ConnectionClose {
                                        app: ty == 0x1d,
                                        error_code,
                                        frame_type,
                                        reason_start: p3,
                                        reason_len: len as int,
                                    },
                                    p3 + len,
                                ),
                            )
                        } else {
                            None
                        },
                    },
                }
            },
        }
    } else if ty == 0x1e {
        Some((FrameSpec::HandshakeDone, p))
    } else if ty == 0x30 {
        Some((FrameSpec::Datagram { start: p, len: s.len() - p }, s.len() as int))
    } else if ty == 0x31 {
        match vat(s, p) {
            None => None,
            Some((len, p1)) => if fits(s, p1, len as int) {
                Some((FrameSpec::Datagram { start: p1, len: len as int }, p1 + len))
            } else {
                None
            },
        }
    } else {
        None
    }
}

/// The frame that starts at `pos`, and the position after it.
pub open spec fn frame_at(s: Seq<u8>, pos: int) -> Option<(FrameSpec, int)> {
    match vat(s, pos) {
        None => None,
        Some((ty, p)) => body_at(s, ty, p),
    }
}


fn rd(s: &[u8], p: usize) -> (r: Option<(u64, usize)>)
    ensures
        match (r, vat(s@, p as int)) {
            (Some((a, b)), Some((c, d))) => a == c && b as int == d,
            (None, None) => true,
            _ => false,
        },
        r matches Some((v, n)) ==> p < n <= s@.len() && v <= VARINT_MAX,
{
    decode(s, p)
}

/// The frame type that a wire type value names, for error reports; an
/// unknown type is reported as PADDING.
pub fn frame_type_of(ty: u64) -> (r: FrameType)
    ensures
        ty == 0x06 ==> r == FrameType::Crypto,
        ty == 0x02 || ty == 0x03 ==> r == FrameType::Ack((ty - 2) as u8),
        0x08 <= ty <= 0x0f ==> r == FrameType::Stream((ty - 8) as u8),
        ty == 0x1c || ty == 0x1d ==> r == FrameType::ConnectionClose((ty - 0x1c) as u8),
        ty == 0x00 || ty > 0x31 || (0x1f <= ty < 0x30) ==> r == FrameType::Padding,
{
    if ty == 0x01 {
        FrameType::Ping
    } else if ty == 0x02 || ty == 0x03 {
        FrameType::Ack((ty - 0x02) as u8)
    } else if ty == 0x04 {
        FrameType::ResetStream
    } else if ty == 0x05 {
        FrameType::StopSending
    } else if ty == 0x06 {
        FrameType::Crypto
    } else if ty == 0x07 {
        FrameType::NewToken
    } else if 0x08 <= ty && ty <= 0x0f {
        FrameType::Stream((ty - 0x08) as u8)
    } else if ty == 0x10 {
        FrameType::MaxData
    } else if ty == 0x11 {
        FrameType::MaxStreamData
    } else if ty == 0x12 || ty == 0x13 {
        FrameType::MaxStreams((ty - 0x12) as u8)
    } else if ty == 0x14 {
        FrameType::DataBlocked
    } else if ty == 0x15 {
        FrameType::StreamDataBlocked
    } else if ty == 0x16 || ty == 0x17 {
        FrameType::StreamsBlocked((ty - 0x16) as u8)
    } else if ty == 0x18 {
        FrameType::NewConnectionId
    } else if ty == 0x19 {
        FrameType::RetireConnectionId
    } else if ty == 0x1a {
        FrameType::PathChallenge
    } else if ty == 0x1b {
        FrameType::PathResponse
    } else if ty == 0x1c || ty == 0x1d {
        FrameType::ConnectionClose((ty - 0x1c) as u8)
    } else if ty == 0x1e {
        FrameType::HandshakeDone
    } else if ty == 0x30 || ty == 0x31 {
        FrameType::Datagram((ty - 0x30) as u8)
    } else {
        FrameType::Padding
    }
}

fn read_ranges(s: &[u8], p: usize, count: u64) -> (r: Option<(Vec<(u64, u64)>, usize)>)
    ensures
        match (r, ranges_at(s@, p as int, count as nat)) {
            (Some((v, n)), Some((sv, sn))) => v@ == sv && n as int == sn,
            (None, None) => true,
            _ => false,
        },
        r matches Some((_, n)) ==> p <= n && (n <= s@.len() || n == p),
{
    let mut v: Vec<(u64, u64)> = Vec::new();
    let mut q = p;
    let mut i: u64 = 0;
    while i < count
        invariant
            i <= count,
            p <= q,
            q <= s@.len() || i == 0,
            match ranges_at(s@, q as int, (count - i) as nat) {
                Some((rest, e)) => ranges_at(s@, p as int, count as nat) == Some((v@ + rest, e)),
                None => ranges_at(s@, p as int, count as nat) is None,
            },
        decreases count - i,
    {
        let (gap, q1) = match rd(s, q) {
            Some(x) => x,
            None => return None,
        };
        let (len, q2) = match rd(s, q1) {
            Some(x) => x,
            None => return None,
        };
        proof {
            let rest = ranges_at(s@, q2 as int, (count - i - 1) as nat);
            if let Some((r2, e)) = rest {
                assert(v@.push((gap, len)) + r2 =~= v@ + (seq![(gap, len)] + r2));
            }
        }
        v.push((gap, len));
        q = q2;
        i = i + 1;
    }
    proof {
        assert(v@ + Seq::<(u64, u64)>::empty() =~= v@);
    }
    Some((v, q))
}

fn read_ack(s: &[u8], ecn: bool, p: usize) -> (r: Option<(AckFrame, usize)>)
    ensures
        match (r, ack_at(s@, ecn, p as int)) {
            (Some((a, n)), Some((sf, sn))) => Frame::Ack(a)@ == sf && n as int == sn,
            (None, None) => true,
            _ => false,
        },
        r matches Some((_, n)) ==> p <= n <= s@.len(),
{
    let (largest, p1) = match rd(s, p) {
        Some(x) => x,
        None => return None,
    };
    let (delay, p2) = match rd(s, p1) {
        Some(x) => x,
        None => return None,
    };
    let (count, p3) = match rd(s, p2) {
        Some(x) => x,
        None => return None,
    };
    let (first_range, p4) = match rd(s, p3) {
        Some(x) => x,
        None => return None,
    };
    let (ranges, p5) = match read_ranges(s, p4, count) {
        Some(x) => x,
        None => return None,
    };
    let mut end = p5;
    if ecn {
        let (_a, q1) = match rd(s, p5) {
            Some(x) => x,
            None => return None,
        };
        let (_b, q2) = match rd(s, q1) {
            Some(x) => x,
            None => return None,
        };
        let (_c, q3) = match rd(s, q2) {
            Some(x) => x,
            None => return None,
        };
        end = q3;
    }
    let ack = AckFrame { largest, delay, first_range, ranges };
    if !ack.check_valid() {
        return None;
    }
    Some((ack, end))
}

fn encoding_error(ty: u64) -> (e: Error)
    ensures
        e.kind == ErrorKind::FrameEncoding,
{
    Error::new(ErrorKind::FrameEncoding, frame_type_of(ty), "malformed frame")
}

/// Reads the frame that starts at `pos`: the frame and the position after it,
/// or a FRAME_ENCODING error when the bytes there are not a frame.
#[verifier::rlimit(60)]
pub fn read_frame(s: &[u8], pos: usize) -> (r: Result<(Frame, usize), Error>)
    ensures
        r is Ok <==> frame_at(s@, pos as int) is Some,
        r matches Ok((f, n)) ==> frame_at(s@, pos as int) == Some((f@, n as int)) && pos < n
            <= s@.len(),
        r matches Err(e) ==> e.kind == ErrorKind::FrameEncoding,
{
    let (ty, p) = match rd(s, pos) {
        Some(x) => x,
        None => return Err(encoding_error(0)),
    };
    let bad = encoding_error(ty);
    if ty == 0x00 {
        Ok((Frame::Padding, p))
    } else if ty == 0x01 {
        Ok((Frame::Ping, p))
    } else if ty == 0x02 || ty == 0x03 {
        match read_ack(s, ty == 0x03, p) {
            Some((a, n)) => Ok((Frame::Ack(a), n)),
            None => Err(bad),
        }
    } else if ty == 0x04 {
        let (a, p1) = match rd(s, p) {
            Some(x) => x,
            None => return Err(bad),
        };
        let (b, p2) = match rd(s, p1) {
            Some(x) => x,
            None => return Err(bad),
        };
        let (c, p3) = match rd(s, p2) {
            Some(x) => x,
            None => return Err(bad),
        };
        Ok((Frame::ResetStream { stream_id: a, app_error_code: b, final_size: c }, p3))
    } else if ty == 0x05 || ty == 0x11 || ty == 0x15 {
        let (a, p1) = match rd(s, p) {
            Some(x) => x,
            None => return Err(bad),
        };
        let (b, p2) = match rd(s, p1) {
            Some(x) => x,
            None => return Err(bad),
        };
        let f = if ty == 0x05 {
            Frame::StopSending { stream_id: a, app_error_code: b }
        } else if ty == 0x11 {
            Frame::MaxStreamData { stream_id: a, max: b }
        } else {
            Frame::StreamDataBlocked { stream_id: a, limit: b }
        };
        Ok((f, p2))
    } else if ty == 0x06 {
        let (offset, p1) = match rd(s, p) {
            Some(x) => x,
            None => return Err(bad),
        };
        let (len, p2) = match rd(s, p1) {
            Some(x) => x,
            None => return Err(bad),
        };
        if len > (s.len() - p2) as u64 || len > VARINT_MAX - offset {
            return Err(bad);
        }
        Ok((Frame::Crypto { offset, start: p2, len: len as usize }, p2 + len as usize))
    } else if ty == 0x07 {
        let (len, p1) = match rd(s, p) {
            Some(x) => x,
            None => return Err(bad),
        };
        if len > (s.len() - p1) as u64 || len == 0 {
            return Err(bad);
        }
        Ok((Frame::NewToken { start: p1, len: len as usize }, p1 + len as usize))
    } else if 0x08 <= ty && ty <= 0x0f {
        let bits = ty - 8;
        let (stream_id, p1) = match rd(s, p) {
            Some(x) => x,
            None => return Err(bad),
        };
        let (offset, p2) = if bits / 4 % 2 == 1 {
            match rd(s, p1) {
                Some(x) => x,
                None => return Err(bad),
            }
        } else {
            (0u64, p1)
        };
        let (len, p3) = if bits / 2 % 2 == 1 {
            match rd(s, p2) {
                Some(x) => x,
                None => return Err(bad),
            }
        } else {
            ((s.len() - p2) as u64, p2)
        };
        if len > (s.len() - p3) as u64 || len > VARINT_MAX - offset {
            return Err(bad);
        }
        Ok(
            (
                Frame::Stream { stream_id, offset, fin: bits % 2 == 1, start: p3, len: len as usize },
                p3 + len as usize,
            ),
        )
    } else if ty == 0x10 || ty == 0x12 || ty == 0x13 || ty == 0x14 || ty == 0x16 || ty == 0x17
        || ty == 0x19 {
        let (a, p1) = match rd(s, p) {
            Some(x) => x,
            None => return Err(bad),
        };
        let f = if ty == 0x10 {
            Frame::MaxData { max: a }
        } else if ty == 0x12 || ty == 0x13 {
            Frame::MaxStreams { uni: ty == 0x13, max: a }
        } else if ty == 0x14 {
            Frame::DataBlocked { limit: a }
        } else if ty == 0x16 || ty == 0x17 {
            Frame::StreamsBlocked { uni: ty == 0x17, limit: a }
        } else {
            Frame::RetireConnectionId { sequence: a }
        };
        Ok((f, p1))
    } else if ty == 0x18 {
        let (sequence, p1) = match rd(s, p) {
            Some(x) => x,
            None => return Err(bad),
        };
        let (retire_prior_to, p2) = match rd(s, p1) {
            Some(x) => x,
            None => return Err(bad),
        };
        if p2 >= s.len() {
            return Err(bad);
        }
        let n = s[p2] as usize;
        if n < 1 || n > 20 || n + 16 > s.len() - p2 - 1 || retire_prior_to > sequence {
            return Err(bad);
        }
        Ok(
            (
                Frame::NewConnectionId {
                    sequence,
                    retire_prior_to,
                    cid_start: p2 + 1,
                    cid_len: n,
                    token_start: p2 + 1 + n,
                },
                p2 + 1 + n + 16,
            ),
        )
    } else if ty == 0x1a || ty == 0x1b {
        if s.len() - p < 8 {
            return Err(bad);
        }
        let f = if ty == 0x1a {
            Frame::PathChallenge { start: p }
        } else {
            Frame::PathResponse { start: p }
        };
        Ok((f, p + 8))
    } else if ty == 0x1c || ty == 0x1d {
        let (error_code, p1) = match rd(s, p) {
            Some(x) => x,
            None => return Err(bad),
        };
        let (frame_type, p2) = if ty == 0x1c {
            match rd(s, p1) {
                Some(x) => x,
                None => return Err(bad),
            }
        } else {
            (0u64, p1)
        };
        let (len, p3) = match rd(s, p2) {
            Some(x) => x,
            None => return Err(bad),
        };
        if len > (s.len() - p3) as u64 {
            return Err(bad);
        }
        Ok(
            (
                Frame::ConnectionClose {
                    app: ty == 0x1d,
                    error_code,
                    frame_type,
                    reason_start: p3,
                    reason_len: len as usize,
                },
                p3 + len as usize,
            ),
        )
    } else if ty == 0x1e {
        Ok((Frame::HandshakeDone, p))
    } else if ty == 0x30 {
        Ok((Frame::Datagram { start: p, len: s.len() - p }, s.len()))
    } else if ty == 0x31 {
        let (len, p1) = match rd(s, p) {
            Some(x) => x,
            None => return Err(bad),
        };
        if len > (s.len() - p1) as u64 {
            return Err(bad);
        }
        Ok((Frame::Datagram { start: p1, len: len as usize }, p1 + len as usize))
    } else {
        Err(bad)
    }
}


/// The frames of a payload from `pos` to its end, or `None` when some part
/// of it is not a frame.
pub open spec fn frames_from(s: Seq<u8>, pos: int) -> Option<Seq<FrameSpec>>
    decreases s.len() - pos,
{
    if pos >= s.len() {
        Some(Seq::empty())
    } else {
        match frame_at(s, pos) {
            None => None,
            Some((f, n)) => if n <= pos || n > s.len() {
                None
            } else {
                match frames_from(s, n) {
                    None => None,
                    Some(rest) => Some(seq![f] + rest),
                }
            },
        }
    }
}

/// The views of a sequence of frames.
pub open spec fn frame_views(v: Seq<Frame>) -> Seq<FrameSpec> {
    v.map_values(|f: Frame| f@)
}

/// Reads every frame of a payload, in order.
pub fn read_frames(s: &[u8]) -> (r: Result<Vec<Frame>, Error>)
    ensures
        r is Ok <==> frames_from(s@, 0) is Some,
        r matches Ok(v) ==> frames_from(s@, 0) == Some(frame_views(v@)),
        r matches Err(e) ==> e.kind == ErrorKind::FrameEncoding,
{
    let mut v: Vec<Frame> = Vec::new();
    let mut q: usize = 0;
    while q < s.len()
        invariant
            q <= s@.len(),
            match frames_from(s@, q as int) {
                Some(rest) => frames_from(s@, 0) == Some(frame_views(v@) + rest),
                None => frames_from(s@, 0) is None,
            },
        decreases s@.len() - q,
    {
        let (f, n) = match read_frame(s, q) {
            Ok(x) => x,
            Err(e) => return Err(e),
        };
        proof {
            if let Some(rest) = frames_from(s@, n as int) {
                assert(frame_views(v@.push(f)) =~= frame_views(v@).push(f@));
                assert(frame_views(v@).push(f@) + rest =~= frame_views(v@) + (seq![f@] + rest));
            }
        }
        v.push(f);
        q = n;
    }
    proof {
        assert(frame_views(v@) + Seq::<FrameSpec>::empty() =~= frame_views(v@));
    }
    Ok(v)
}

/// Whether a frame makes its packet ack-eliciting: every frame but ACK,
/// PADDING and CONNECTION_CLOSE.
pub open spec fn spec_is_ack_eliciting(f: FrameSpec) -> bool {
    !(f is Ack || f is Padding || f is ConnectionClose)
}

/// The type a frame reports errors under.
pub open spec fn spec_frame_type(f: FrameSpec) -> FrameType {
    match f {
        FrameSpec::Padding => FrameType::Padding,
        FrameSpec::Ping => FrameType::Ping,
        FrameSpec::Ack { .. } => FrameType::Ack(0),
        FrameSpec::ResetStream { .. } => FrameType::ResetStream,
        FrameSpec::StopSending { .. } => FrameType::StopSending,
        FrameSpec::Crypto { .. } => FrameType::Crypto,
        FrameSpec::NewToken { .. } => FrameType::NewToken,
        FrameSpec::Stream { .. } => FrameType::Stream(0),
        FrameSpec::MaxData { .. } => FrameType::MaxData,
        FrameSpec::MaxStreamData { .. } => FrameType::MaxStreamData,
        FrameSpec::MaxStreams { uni, .. } => FrameType::MaxStreams(if uni { 1 } else { 0 }),
        FrameSpec::DataBlocked { .. } => FrameType::DataBlocked,
        FrameSpec::StreamDataBlocked { .. } => FrameType::StreamDataBlocked,
        FrameSpec::StreamsBlocked { uni, .. } => FrameType::StreamsBlocked(if uni { 1 } else { 0 }),
        FrameSpec::NewConnectionId { .. } => FrameType::NewConnectionId,
        FrameSpec::RetireConnectionId { .. } => FrameType::RetireConnectionId,
        FrameSpec::PathChallenge { .. } => FrameType::PathChallenge,
        FrameSpec::PathResponse { .. } => FrameType::PathResponse,
        FrameSpec::ConnectionClose { app, .. } => FrameType::ConnectionClose(if app { 1 } else { 0 }),
        FrameSpec::HandshakeDone => FrameType::HandshakeDone,
        FrameSpec::Datagram { .. } => FrameType::Datagram(1),
    }
}

impl Frame {
    pub fn is_ack_eliciting(&self) -> (r: bool)
        ensures
            r == spec_is_ack_eliciting(self@),
    {
        match self {
            Frame::Ack(_) | Frame::Padding | Frame::ConnectionClose { .. } => false,
            _ => true,
        }
    }

    /// The type of the frame, for error reports.
    pub fn frame_type(&self) -> (r: FrameType)
        ensures
            r == spec_frame_type(self@),
    {
        match self {
            Frame::Padding => FrameType::Padding,
            Frame::Ping => FrameType::Ping,
            Frame::Ack(_) => FrameType::Ack(0),
            Frame::ResetStream { .. } => FrameType::ResetStream,
            Frame::StopSending { .. } => FrameType::StopSending,
            Frame::Crypto { .. } => FrameType::Crypto,
            Frame::NewToken { .. } => FrameType::NewToken,
            Frame::Stream { .. } => FrameType::Stream(0),
            Frame::MaxData { .. } => FrameType::MaxData,
            Frame::MaxStreamData { .. } => FrameType::MaxStreamData,
            Frame::MaxStreams { uni, .. } => FrameType::MaxStreams(if *uni { 1 } else { 0 }),
            Frame::DataBlocked { .. } => FrameType::DataBlocked,
            Frame::StreamDataBlocked { .. } => FrameType::StreamDataBlocked,
            Frame::StreamsBlocked { uni, .. } => FrameType::StreamsBlocked(if *uni { 1 } else { 0 }),
            Frame::NewConnectionId { .. } => FrameType::NewConnectionId,
            Frame::RetireConnectionId { .. } => FrameType::RetireConnectionId,
            Frame::PathChallenge { .. } => FrameType::PathChallenge,
            Frame::PathResponse { .. } => FrameType::PathResponse,
            Frame::ConnectionClose { app, .. } => FrameType::ConnectionClose(if *app { 1 } else { 0 }),
            Frame::HandshakeDone => FrameType::HandshakeDone,
            Frame::Datagram { .. } => FrameType::Datagram(1),
        }
    }
}

/// The encodings of the (gap, length) pairs from index `i` on.
pub open spec fn ranges_bytes(r: Seq<(u64, u64)>, i: int) -> Seq<u8>
    decreases r.len() - i,
{
    if i < 0 || i >= r.len() {
        Seq::empty()
    } else {
        varint_bytes(r[i].0 as nat) + varint_bytes(r[i].1 as nat) + ranges_bytes(r, i + 1)
    }
}

/// The encoding of an ACK frame without ECN counts.
pub open spec fn ack_bytes(a: AckFrame) -> Seq<u8> {
    varint_bytes(2) + varint_bytes(a.largest as nat) + varint_bytes(a.delay as nat)
        + varint_bytes(a.ranges@.len()) + varint_bytes(a.first_range as nat)
        + ranges_bytes(a.ranges@, 0)
}

/// All fields of the frame are variable-length integers.
pub open spec fn ack_encodable(a: AckFrame) -> bool {
    &&& a.largest <= VARINT_MAX
    &&& a.delay <= VARINT_MAX
    &&& a.first_range <= VARINT_MAX
    &&& a.ranges@.len() <= VARINT_MAX
    &&& forall|i: int| 0 <= i < a.ranges@.len() ==> a.ranges@[i].0 <= VARINT_MAX && a.ranges@[i].1 <= VARINT_MAX
}

/// Appends the encoding of an ACK frame (type 0x02).
pub fn write_ack_frame(buf: &mut Vec<u8>, a: &AckFrame)
    requires
        ack_encodable(*a),
    ensures
        final(buf)@ == old(buf)@ + ack_bytes(*a),
{
    let ghost start = buf@;
    encode(buf, 2);
    encode(buf, a.largest);
    encode(buf, a.delay);
    encode(buf, a.ranges.len() as u64);
    encode(buf, a.first_range);
    let ghost head = buf@;
    let mut i: usize = 0;
    while i < a.ranges.len()
        invariant
            ack_encodable(*a),
            i <= a.ranges@.len(),
            head + ranges_bytes(a.ranges@, 0) == buf@ + ranges_bytes(a.ranges@, i as int),
        decreases a.ranges@.len() - i,
    {
        let (g, l) = a.ranges[i];
        let ghost before = buf@;
        encode(buf, g);
        encode(buf, l);
        proof {
            assert(buf@ + ranges_bytes(a.ranges@, i + 1) =~= before + ranges_bytes(a.ranges@, i as int));
        }
        i = i + 1;
    }
    proof {
        assert(buf@ + Seq::<u8>::empty() =~= buf@);
        assert(head =~= start + varint_bytes(2) + varint_bytes(a.largest as nat) + varint_bytes(a.delay as nat)
            + varint_bytes(a.ranges@.len()) + varint_bytes(a.first_range as nat));
        assert(buf@ =~= start + ack_bytes(*a));
    }
}

pub proof fn lemma_vat_in_context(pre: Seq<u8>, x: u64, post: Seq<u8>)
    requires
        x <= VARINT_MAX,
    ensures
        vat(pre + (varint_bytes(x as nat) + post), pre.len() as int) == Some((x, (pre.len() + varint_bytes(x as nat).len()) as int)),
{
    lemma_varint_in_context(pre, x as nat, post);
    lemma_varint_bytes_len(x as nat);
}

proof fn lemma_ranges_round_trip(pre: Seq<u8>, r: Seq<(u64, u64)>, i: int, post: Seq<u8>)
    requires
        0 <= i <= r.len(),
        forall|j: int| 0 <= j < r.len() ==> r[j].0 <= VARINT_MAX && r[j].1 <= VARINT_MAX,
    ensures
        ranges_at(pre + (ranges_bytes(r, i) + post), pre.len() as int, (r.len() - i) as nat) == Some(
            (r.subrange(i, r.len() as int), (pre.len() + ranges_bytes(r, i).len()) as int),
        ),
    decreases r.len() - i,
{
    if i == r.len() {
        assert(r.subrange(i, r.len() as int) =~= Seq::<(u64, u64)>::empty());
    } else {
        let g = varint_bytes(r[i].0 as nat);
        let l = varint_bytes(r[i].1 as nat);
        let rest = ranges_bytes(r, i + 1);
        let s = pre + (ranges_bytes(r, i) + post);
        assert(ranges_bytes(r, i) == g + l + rest);
        assert(s =~= pre + (g + (l + (rest + post))));
        lemma_vat_in_context(pre, r[i].0, l + (rest + post));
        assert(s =~= (pre + g) + (l + (rest + post)));
        lemma_vat_in_context(pre + g, r[i].1, rest + post);
        assert(s =~= (pre + g + l) + (rest + post));
        lemma_ranges_round_trip(pre + g + l, r, i + 1, post);
        lemma_varint_bytes_len(r[i].0 as nat);
        assert(r.subrange(i, r.len() as int) =~= seq![(r[i].0, r[i].1)] + r.subrange(i + 1, r.len() as int));
    }
}

/// Reading back the encoding of a valid ACK frame, whatever follows it,
/// gives the same frame and the position after it.
#[verifier::rlimit(40)]
pub proof fn lemma_ack_round_trip(a: AckFrame, rest: Seq<u8>)
    requires
        a.valid(),
        ack_encodable(a),
    ensures
        frame_at(ack_bytes(a) + rest, 0) == Some((Frame::Ack(a)@, ack_bytes(a).len() as int)),
{
    let b0 = varint_bytes(2);
    let b1 = varint_bytes(a.largest as nat);
    let b2 = varint_bytes(a.delay as nat);
    let b3 = varint_bytes(a.ranges@.len());
    let b4 = varint_bytes(a.first_range as nat);
    let rb = ranges_bytes(a.ranges@, 0);
    let t4 = rb + rest;
    let t3 = b4 + t4;
    let t2 = b3 + t3;
    let t1 = b2 + t2;
    let t0 = b1 + t1;
    let s = ack_bytes(a) + rest;
    let e = Seq::<u8>::empty();
    assert(e + (b0 + t0) =~= b0 + t0);
    lemma_vat_in_context(e, 2, t0);
    lemma_vat_in_context(b0, a.largest, t1);
    vstd::seq_lib::lemma_concat_associative(b0, b1, t1);
    lemma_vat_in_context(b0 + b1, a.delay, t2);
    vstd::seq_lib::lemma_concat_associative(b0 + b1, b2, t2);
    lemma_vat_in_context(b0 + b1 + b2, a.ranges@.len() as u64, t3);
    vstd::seq_lib::lemma_concat_associative(b0 + b1 + b2, b3, t3);
    lemma_vat_in_context(b0 + b1 + b2 + b3, a.first_range, t4);
    vstd::seq_lib::lemma_concat_associative(b0 + b1 + b2 + b3, b4, t4);
    let pre = b0 + b1 + b2 + b3 + b4;
    vstd::seq_lib::lemma_concat_associative(pre, rb, rest);
    assert(s == b0 + t0);
    lemma_ranges_round_trip(pre, a.ranges@, 0, rest);
    assert(a.ranges@.subrange(0, a.ranges@.len() as int) =~= a.ranges@);
    lemma_varint_bytes_len(2);
    assert(ack_bytes(a) == pre + rb);
}

/// A variable-length integer read where its encoding stands in `s`.
pub proof fn lemma_vat_at(s: Seq<u8>, p: int, x: u64)
    requires
        x <= VARINT_MAX,
        0 <= p,
        p + varint_bytes(x as nat).len() <= s.len(),
        s.subrange(p, p + varint_bytes(x as nat).len()) == varint_bytes(x as nat),
    ensures
        vat(s, p) == Some((x, p + varint_bytes(x as nat).len())),
{
    let b = varint_bytes(x as nat);
    let pre = s.take(p);
    let post = s.skip(p + b.len());
    assert(s =~= pre + (b + post));
    lemma_vat_in_context(pre, x, post);
}

} // verus!
