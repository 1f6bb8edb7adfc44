//! Round-trip time estimation (RFC 9002 §5), in microseconds.

use vstd::prelude::*;

verus! {

/// Initial RTT before any sample: 333 ms.
pub const INITIAL_RTT: u64 = 333_000;

/// Timer granularity: 1 ms.
pub const GRANULARITY: u64 = 1_000;

/// The RTT estimator state.
#[derive(Clone, Copy, Debug)]
pub struct Rtt {
    pub latest_rtt: u64,
    pub smoothed_rtt: u64,
    pub rttvar: u64,
    pub min_rtt: u64,
    pub has_sample: bool,
}

/// `a + b`, or `u64::MAX` when that does not fit.
pub open spec fn sat_add(a: u64, b: u64) -> u64 {
    if a + b > u64::MAX {
        u64::MAX
    } else {
        (a + b) as u64
    }
}

/// The state after an RTT sample `latest` whose peer-reported delay is
/// `ack_delay`, already scaled and capped.
pub open spec fn rtt_after(r: Rtt, latest: u64, ack_delay: u64) -> Rtt {
    if !r.has_sample {
        Rtt { latest_rtt: latest, smoothed_rtt: latest, rttvar: latest / 2, min_rtt: latest, has_sample: true }
    } else {
        let min_rtt = if latest < r.min_rtt { latest } else { r.min_rtt };
        let adjusted = if latest >= min_rtt + ack_delay { (latest - ack_delay) as u64 } else { latest };
        let diff = if r.smoothed_rtt >= adjusted {
            (r.smoothed_rtt - adjusted) as u64
        } else {
            (adjusted - r.smoothed_rtt) as u64
        };
        Rtt {
            latest_rtt: latest,
            smoothed_rtt: (r.smoothed_rtt - r.smoothed_rtt / 8 + adjusted / 8) as u64,
            rttvar: (r.rttvar - r.rttvar / 4 + diff / 4) as u64,
            min_rtt,
            has_sample: true,
        }
    }
}

/// `max(9/8 × max(smoothed_rtt, latest_rtt), GRANULARITY)`, saturating.
pub open spec fn spec_loss_delay(r: Rtt) -> u64 {
    let m = if r.smoothed_rtt > r.latest_rtt { r.smoothed_rtt } else { r.latest_rtt };
    let d = sat_add(m, m / 8);
    if d > GRANULARITY { d } else { GRANULARITY }
}

impl Rtt {
    /// The estimator before any sample.
    pub fn new() -> (r: Rtt)
        ensures
            r.smoothed_rtt == INITIAL_RTT,
            r.rttvar == INITIAL_RTT / 2,
            r.latest_rtt == 0,
            r.min_rtt == 0,
            !r.has_sample,
    {
        Rtt { latest_rtt: 0, smoothed_rtt: INITIAL_RTT, rttvar: INITIAL_RTT / 2, min_rtt: 0, has_sample: false }
    }

    /// Takes an RTT sample. `ack_delay` is the delay the peer reported; when
    /// the handshake is confirmed it is capped at `max_ack_delay`.
    pub fn update(&mut self, latest: u64, ack_delay: u64, max_ack_delay: u64, handshake_confirmed: bool)
        ensures
            *final(self) == rtt_after(
                *old(self),
                latest,
                if handshake_confirmed && ack_delay > max_ack_delay { max_ack_delay } else { ack_delay },
            ),
    {
        let ack_delay = if handshake_confirmed && ack_delay > max_ack_delay { max_ack_delay } else { ack_delay };
        if !self.has_sample {
            *self = Rtt { latest_rtt: latest, smoothed_rtt: latest, rttvar: latest / 2, min_rtt: latest, has_sample: true };
            return;
        }
        let min_rtt = if latest < self.min_rtt { latest } else { self.min_rtt };
        let adjusted = if min_rtt <= latest && ack_delay <= latest - min_rtt { latest - ack_delay } else { latest };
        let diff = if self.smoothed_rtt >= adjusted { self.smoothed_rtt - adjusted } else { adjusted - self.smoothed_rtt };
        self.latest_rtt = latest;
        self.smoothed_rtt = self.smoothed_rtt - self.smoothed_rtt / 8 + adjusted / 8;
        self.rttvar = self.rttvar - self.rttvar / 4 + diff / 4;
        self.min_rtt = min_rtt;
    }

    /// The time after which an unacknowledged packet counts as lost.
    pub fn loss_delay(&self) -> (r: u64)
        ensures
            r == spec_loss_delay(*self),
    {
        let m = if self.smoothed_rtt > self.latest_rtt { self.smoothed_rtt } else { self.latest_rtt };
        let d = m.saturating_add(m / 8);
        if d > GRANULARITY { d } else { GRANULARITY }
    }
}

} // verus!
