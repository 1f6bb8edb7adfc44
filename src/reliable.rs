//! Control frames that are retransmitted until acknowledged.

use vstd::prelude::*;
use crate::varint::{encode, encoded_size, varint_bytes, varint_size, VARINT_MAX};

verus! {

/// A control frame sent reliably: requeued when the packet carrying it is
/// lost.
#[derive(Clone, Copy, Debug, PartialEq, Eq, Structural)]
pub enum ReliableFrame {
    Ping,
    ResetStream { stream_id: u64, app_error_code: u64, final_size: u64 },
    StopSending { stream_id: u64, app_error_code: u64 },
    MaxData { max: u64 },
    MaxStreamData { stream_id: u64, max: u64 },
    MaxStreams { uni: bool, max: u64 },
    DataBlocked { limit: u64 },
    StreamDataBlocked { stream_id: u64, limit: u64 },
    StreamsBlocked { uni: bool, limit: u64 },
    RetireConnectionId { sequence: u64 },
    HandshakeDone,
}

/// The concatenated encodings of `v`.
pub open spec fn varints_bytes(v: Seq<u64>) -> Seq<u8>
    decreases v.len(),
{
    if v.len() == 0 {
        Seq::empty()
    } else {
        varints_bytes(v.drop_last()) + varint_bytes(v.last() as nat)
    }
}

impl ReliableFrame {
    /// The wire type followed by the fields, each a variable-length integer.
    pub open spec fn spec_words(&self) -> Seq<u64> {
        match *self {
            ReliableFrame::Ping => seq![0x01],
            ReliableFrame::ResetStream { stream_id, app_error_code, final_size } => seq![
                0x04,
                stream_id,
                app_error_code,
                final_size,
            ],
            ReliableFrame::StopSending { stream_id, app_error_code } => seq![0x05, stream_id, app_error_code],
            ReliableFrame::MaxData { max } => seq![0x10, max],
            ReliableFrame::MaxStreamData { stream_id, max } => seq![0x11, stream_id, max],
            ReliableFrame::MaxStreams { uni, max } => seq![if uni { 0x13 } else { 0x12 }, max],
            ReliableFrame::DataBlocked { limit } => seq![0x14, limit],
            ReliableFrame::StreamDataBlocked { stream_id, limit } => seq![0x15, stream_id, limit],
            ReliableFrame::StreamsBlocked { uni, limit } => seq![if uni { 0x17 } else { 0x16 }, limit],
            ReliableFrame::RetireConnectionId { sequence } => seq![0x19, sequence],
            ReliableFrame::HandshakeDone => seq![0x1e],
        }
    }

    /// Every field fits a variable-length integer.
    pub open spec fn wf(&self) -> bool {
        forall|i: int| 0 <= i < self.spec_words().len() ==> self.spec_words()[i] <= VARINT_MAX
    }

    /// The frame on the wire.
    pub open spec fn spec_bytes(&self) -> Seq<u8> {
        varints_bytes(self.spec_words())
    }

    fn words(&self) -> (r: Vec<u64>)
        ensures
            r@ == self.spec_words(),
    {
        match *self {
            ReliableFrame::Ping => vec![0x01],
            ReliableFrame::ResetStream { stream_id, app_error_code, final_size } => vec![
                0x04,
                stream_id,
                app_error_code,
                final_size,
            ],
            ReliableFrame::StopSending { stream_id, app_error_code } => vec![0x05, stream_id, app_error_code],
            ReliableFrame::MaxData { max } => vec![0x10, max],
            ReliableFrame::MaxStreamData { stream_id, max } => vec![0x11, stream_id, max],
            ReliableFrame::MaxStreams { uni, max } => vec![if uni { 0x13 } else { 0x12 }, max],
            ReliableFrame::DataBlocked { limit } => vec![0x14, limit],
            ReliableFrame::StreamDataBlocked { stream_id, limit } => vec![0x15, stream_id, limit],
            ReliableFrame::StreamsBlocked { uni, limit } => vec![if uni { 0x17 } else { 0x16 }, limit],
            ReliableFrame::RetireConnectionId { sequence } => vec![0x19, sequence],
            ReliableFrame::HandshakeDone => vec![0x1e],
        }
    }

    /// Whether every field fits a variable-length integer.
    pub fn check_wf(&self) -> (r: bool)
        ensures
            r == self.wf(),
    {
        let w = self.words();
        let mut i: usize = 0;
        while i < w.len()
            invariant
                w@ == self.spec_words(),
                i <= w@.len(),
                forall|j: int| 0 <= j < i ==> w@[j] <= VARINT_MAX,
            decreases w@.len() - i,
        {
            if w[i] > VARINT_MAX {
                return false;
            }
            i = i + 1;
        }
        true
    }

    /// Number of bytes of the frame on the wire.
    pub fn encoded_len(&self) -> (r: usize)
        requires
            self.wf(),
        ensures
            r == self.spec_bytes().len(),
    {
        let w = self.words();
        let mut n: usize = 0;
        let mut i: usize = 0;
        while i < w.len()
            invariant
                w@ == self.spec_words(),
                w@.len() <= 4,
                i <= w@.len(),
                n == varints_bytes(w@.take(i as int)).len(),
                n <= 8 * i,
            decreases w@.len() - i,
        {
            proof {
                assert(w@.take(i + 1).drop_last() =~= w@.take(i as int));
            }
            n = n + encoded_size(w[i]);
            i = i + 1;
        }
        proof {
            assert(w@.take(i as int) =~= w@);
        }
        n
    }

    /// Appends the frame's encoding.
    pub fn write(&self, buf: &mut Vec<u8>)
        requires
            self.wf(),
        ensures
            final(buf)@ == old(buf)@ + self.spec_bytes(),
    {
        let w = self.words();
        let ghost start = buf@;
        let mut i: usize = 0;
        while i < w.len()
            invariant
                self.wf(),
                w@ == self.spec_words(),
                i <= w@.len(),
                buf@ == start + varints_bytes(w@.take(i as int)),
            decreases w@.len() - i,
        {
            proof {
                assert(w@.take(i + 1).drop_last() =~= w@.take(i as int));
                assert(w@[i as int] <= VARINT_MAX);
            }
            encode(buf, w[i]);
            proof {
                assert(buf@ =~= start + varints_bytes(w@.take(i + 1)));
            }
            i = i + 1;
        }
        proof {
            assert(w@.take(i as int) =~= w@);
        }
    }
}

} // verus!
