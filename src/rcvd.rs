//! The record of received packet numbers of one packet-number space: a window
//! that starts at `offset` and holds one state per packet number.

use vstd::prelude::*;
use crate::frame::{ack_encodable, acks, in_ranges, ranges_valid, AckFrame};
use crate::varint::VARINT_MAX;

verus! {

/// What is known of one received packet number. Times are in microseconds.
#[derive(Clone, Copy, Debug, PartialEq, Eq, Structural)]
pub enum State {
    NotReceived,
    /// Not received, and already reported as a gap in an ACK frame.
    Unreached,
    /// Received, not ack-eliciting, not yet reported.
    Ignored(u64),
    /// Received, ack-eliciting, not yet reported.
    Important(u64),
    /// Received and reported in an ACK frame.
    Synced(u64),
}

impl State {
    pub open spec fn is_rcvd(self) -> bool {
        self is Ignored || self is Important || self is Synced
    }

    pub open spec fn spec_rcvd(t: u64, ack_eliciting: bool) -> State {
        if ack_eliciting {
            State::Important(t)
        } else {
            State::Ignored(t)
        }
    }

    /// The state after it has been reported in an ACK frame.
    pub open spec fn spec_synced(self) -> State {
        match self {
            State::Ignored(t) => State::Synced(t),
            State::Important(t) => State::Synced(t),
            State::NotReceived => State::Unreached,
            _ => self,
        }
    }

    /// The time of receipt, for a received packet.
    pub open spec fn spec_time(self) -> Option<u64> {
        match self {
            State::Ignored(t) => Some(t),
            State::Important(t) => Some(t),
            State::Synced(t) => Some(t),
            _ => None,
        }
    }

    /// The state of a packet received at `t`.
    pub fn rcvd(t: u64, is_ack_eliciting: bool) -> (r: State)
        ensures
            r == State::spec_rcvd(t, is_ack_eliciting),
    {
        if is_ack_eliciting {
            State::Important(t)
        } else {
            State::Ignored(t)
        }
    }

    /// Time elapsed from receipt to `now`, for a received packet.
    pub fn delay(&self, now: u64) -> (r: Option<u64>)
        ensures
            r == match self.spec_time() {
                Some(t) => Some(if now >= t { (now - t) as u64 } else { 0 }),
                None => None,
            },
    {
        match self {
            State::Ignored(t) | State::Important(t) | State::Synced(t) => Some(now.saturating_sub(*t)),
            _ => None,
        }
    }

    /// Marks the state as reported in an ACK frame.
    pub fn into_synced(&mut self)
        ensures
            *final(self) == old(self).spec_synced(),
    {
        match *self {
            State::Ignored(t) | State::Important(t) => {
                *self = State::Synced(t);
            },
            State::NotReceived => *self = State::Unreached,
            _ => {},
        }
    }

    pub fn is_received(&self) -> (r: bool)
        ensures
            r == self.is_rcvd(),
    {
        match self {
            State::Ignored(_) | State::Important(_) | State::Synced(_) => true,
            _ => false,
        }
    }
}

/// The received packets from `offset` on; a packet number past the end is
/// not received.
#[derive(Debug)]
pub struct RcvdRecords {
    pub offset: u64,
    pub states: Vec<State>,
}

/// The lowest value reached after the ranges from `i` on, the one before
/// them ending at `smallest`.
pub open spec fn ranges_end(r: Seq<(u64, u64)>, i: int, smallest: int) -> int
    decreases r.len() - i,
{
    if i < 0 || i >= r.len() {
        smallest
    } else {
        ranges_end(r, i + 1, smallest - r[i].0 - 2 - r[i].1)
    }
}

proof fn lemma_in_ranges_bounds(r: Seq<(u64, u64)>, i: int, sm: int, pn: int)
    requires
        0 <= i <= r.len(),
        ranges_valid(r, i, sm),
    ensures
        ranges_end(r, i, sm) <= sm,
        in_ranges(r, i, sm, pn) ==> ranges_end(r, i, sm) <= pn < sm,
    decreases r.len() - i,
{
    if i < r.len() {
        lemma_in_ranges_bounds(r, i + 1, sm - r[i].0 - 2 - r[i].1, pn);
    }
}

proof fn lemma_in_ranges_push(r: Seq<(u64, u64)>, i: int, sm: int, x: (u64, u64), pn: int)
    requires
        0 <= i <= r.len(),
        ranges_valid(r, i, sm),
        ranges_end(r, i, sm) - x.0 - 2 - x.1 >= 0,
    ensures
        ranges_valid(r.push(x), i, sm),
        ranges_end(r.push(x), i, sm) == ranges_end(r, i, sm) - x.0 - 2 - x.1,
        in_ranges(r.push(x), i, sm, pn) == (in_ranges(r, i, sm, pn) || (ranges_end(r, i, sm) - x.0
            - 2 - x.1 <= pn && pn <= ranges_end(r, i, sm) - x.0 - 2)),
    decreases r.len() - i,
{
    let rp = r.push(x);
    if i < r.len() {
        assert(rp[i] == r[i]);
        lemma_in_ranges_push(r, i + 1, sm - r[i].0 - 2 - r[i].1, x, pn);
    } else {
        assert(rp[i] == x);
        assert(!in_ranges(rp, i + 1, sm - x.0 - 2 - x.1, pn));
        assert(ranges_valid(rp, i + 1, sm - x.0 - 2 - x.1));
        assert(ranges_end(rp, i + 1, sm - x.0 - 2 - x.1) == sm - x.0 - 2 - x.1);
        assert(ranges_end(r, i, sm) == sm);
    }
}

/// Time from `t` to `now`, at least zero, at most `VARINT_MAX`.
pub open spec fn elapsed(t: u64, now: u64) -> u64 {
    if now < t {
        0
    } else if now - t > VARINT_MAX {
        VARINT_MAX
    } else {
        (now - t) as u64
    }
}

/// `a` reports exactly the received packets of `rcvd`, with the delay since
/// the receipt of the highest one.
pub open spec fn reports(a: AckFrame, rcvd: RcvdRecords, now: u64) -> bool {
    &&& a.largest == rcvd.end() - 1
    &&& a.valid()
    &&& forall|pn: int| #[trigger] a.spec_acks(pn) <==> (rcvd.offset <= pn < rcvd.end() && rcvd.state_at(pn).is_rcvd())
    &&& Some(a.delay) == match rcvd.states@.last().spec_time() {
        Some(t) => Some(elapsed(t, now)),
        None => None,
    }
}

impl RcvdRecords {
    /// The state of `pn`; past the end of the window, not received.
    pub open spec fn state_at(&self, pn: int) -> State {
        if self.offset <= pn < self.offset + self.states@.len() {
            self.states@[pn - self.offset]
        } else {
            State::NotReceived
        }
    }

    /// One past the highest packet number recorded.
    pub open spec fn end(&self) -> int {
        self.offset + self.states@.len()
    }

    /// The window stays within packet numbers, and its highest entry is a
    /// received packet.
    pub open spec fn wf(&self) -> bool {
        &&& self.end() <= VARINT_MAX + 1
        &&& self.states@.len() > 0 ==> self.states@.last().is_rcvd()
    }

    pub fn new() -> (r: RcvdRecords)
        ensures
            r.wf(),
            r.offset == 0,
            r.states@.len() == 0,
    {
        RcvdRecords { offset: 0, states: Vec::new() }
    }

    /// The state of `pn`, which is not below the window.
    pub fn get(&self, pn: u64) -> (r: State)
        requires
            pn >= self.offset,
            self.wf(),
        ensures
            r == self.state_at(pn as int),
    {
        if pn - self.offset < self.states.len() as u64 {
            self.states[(pn - self.offset) as usize]
        } else {
            State::NotReceived
        }
    }

    /// Records the state of `pn`, which is not below the window; packet
    /// numbers skipped on the way are not received.
    pub fn insert(&mut self, pn: u64, s: State)
        requires
            old(self).wf(),
            pn >= old(self).offset,
            pn <= VARINT_MAX,
            pn - old(self).offset <= usize::MAX,
            s.is_rcvd(),
        ensures
            final(self).wf(),
            final(self).offset == old(self).offset,
            final(self).end() == if pn < old(self).end() { old(self).end() } else { pn + 1 },
            forall|q: int| #[trigger]
                final(self).state_at(q) == if q == pn {
                    s
                } else {
                    old(self).state_at(q)
                },
    {
        let idx = (pn - self.offset) as usize;
        if idx < self.states.len() {
            self.states.set(idx, s);
        } else {
            while self.states.len() < idx
                invariant
                    self.offset == old(self).offset,
                    idx == pn - self.offset,
                    old(self).states@.len() <= self.states@.len() <= idx,
                    forall|j: int|
                        0 <= j < old(self).states@.len() ==> self.states@[j] == old(self).states@[j],
                    forall|j: int|
                        old(self).states@.len() <= j < self.states@.len() ==> self.states@[j]
                            == State::NotReceived,
                decreases idx - self.states@.len(),
            {
                self.states.push(State::NotReceived);
            }
            self.states.push(s);
        }
    }

    /// Forgets the packet numbers below `n` (as far as the window reaches).
    pub fn drain_to(&mut self, n: u64)
        requires
            old(self).wf(),
        ensures
            final(self).wf(),
            final(self).end() == old(self).end(),
            final(self).offset == if n <= old(self).offset {
                old(self).offset as int
            } else if n < old(self).end() {
                n as int
            } else {
                old(self).end()
            },
            forall|q: int| q >= final(self).offset ==> #[trigger] final(self).state_at(q) == old(self).state_at(q),
    {
        if n <= self.offset {
            return;
        }
        let k: usize = if n - self.offset < self.states.len() as u64 {
            (n - self.offset) as usize
        } else {
            self.states.len()
        };
        let tail = self.states.split_off(k);
        self.states = tail;
        self.offset = self.offset + k as u64;
    }

    /// Marks every entry as reported in an ACK frame.
    pub fn sync_all(&mut self)
        requires
            old(self).wf(),
        ensures
            final(self).wf(),
            final(self).offset == old(self).offset,
            final(self).states@ == old(self).states@.map_values(|s: State| s.spec_synced()),
    {
        let mut i: usize = 0;
        while i < self.states.len()
            invariant
                self.offset == old(self).offset,
                self.states@.len() == old(self).states@.len(),
                i <= self.states@.len(),
                forall|j: int| 0 <= j < i ==> self.states@[j] == old(self).states@[j].spec_synced(),
                forall|j: int| i <= j < self.states@.len() ==> self.states@[j] == old(self).states@[j],
            decreases self.states@.len() - i,
        {
            let mut s = self.states[i];
            s.into_synced();
            self.states.set(i, s);
            i = i + 1;
        }
        assert(self.states@ =~= old(self).states@.map_values(|s: State| s.spec_synced()));
    }

    /// Whether some entry is received and ack-eliciting, not yet reported.
    pub fn has_important(&self) -> (r: bool)
        ensures
            r == exists|j: int| 0 <= j < self.states@.len() && self.states@[j] is Important,
    {
        let mut i: usize = 0;
        while i < self.states.len()
            invariant
                i <= self.states@.len(),
                forall|j: int| 0 <= j < i ==> !(self.states@[j] is Important),
            decreases self.states@.len() - i,
        {
            if let State::Important(_) = self.states[i] {
                return true;
            }
            i = i + 1;
        }
        false
    }

    /// The lowest index below `k` such that the entries from it up to `k`
    /// are all received (`want`) or all not received (`!want`).
    fn run_down(&self, k: usize, want: bool) -> (j: usize)
        requires
            k <= self.states@.len(),
        ensures
            j <= k,
            forall|i: int| j <= i < k ==> self.states@[i].is_rcvd() == want,
            j == 0 || self.states@[j - 1].is_rcvd() != want,
    {
        let mut j = k;
        while j > 0 && self.states[j - 1].is_received() == want
            invariant
                j <= k <= self.states@.len(),
                forall|i: int| j <= i < k ==> self.states@[i].is_rcvd() == want,
            decreases j,
        {
            j = j - 1;
        }
        j
    }

    /// The ACK frame that reports exactly the received packets of the window.
    /// Its delay is the time from the receipt of the highest one to `now`.
    pub fn gen_ack_frame(&self, now: u64) -> (r: AckFrame)
        requires
            self.wf(),
            self.states@.len() > 0,
        ensures
            reports(r, *self, now),
            ack_encodable(r),
    {
        let n = self.states.len();
        let largest = self.offset + (n as u64) - 1;
        let delay = match self.states[n - 1].delay(now) {
            Some(d) => if d > VARINT_MAX { VARINT_MAX } else { d },
            None => 0,
        };
        let mut k = self.run_down(n, true);
        let first_range = (n - 1 - k) as u64;
        let ghost lo0 = self.offset + k;
        let mut ranges: Vec<(u64, u64)> = Vec::new();
        let mut done = false;
        proof {
            assert(ranges_valid(ranges@, 0, lo0));
            assert(ranges_end(ranges@, 0, lo0) == lo0);
            assert forall|pn: int| self.offset + k <= pn < self.end() implies (acks(largest, first_range, ranges@, pn)
                        <==> self.state_at(pn).is_rcvd()) by {
                assert(self.state_at(pn) == self.states@[pn - self.offset]);
            }
        }
        while k > 0 && !done
            invariant
                done ==> forall|i: int| 0 <= i < k ==> !self.states@[i].is_rcvd(),
                lo0 == self.offset + k || lo0 > self.offset + k,
                self.wf(),
                n == self.states@.len(),
                k < n,
                largest == self.end() - 1,
                first_range <= largest,
                lo0 == largest - first_range,
                ranges_valid(ranges@, 0, lo0),
                ranges_end(ranges@, 0, lo0) == self.offset + k,
                k == 0 || !self.states@[k - 1].is_rcvd(),
                forall|pn: int|
                    self.offset + k <= pn < self.end() ==> (acks(largest, first_range, ranges@, pn)
                        <==> self.state_at(pn).is_rcvd()),
                2 * ranges@.len() <= n - k,
                first_range < n,
                forall|i: int| 0 <= i < ranges@.len() ==> ranges@[i].0 < n && ranges@[i].1 < n,
            decreases k + if done { 0int } else { 1int },
        {
            let g = self.run_down(k, false);
            if g == 0 {
                done = true;
            } else {
                let a = self.run_down(g, true);
                let x = ((k - g - 1) as u64, (g - a - 1) as u64);
                proof {
                    assert forall|pn: int|
                        self.offset + a <= pn < self.end() implies (acks(largest, first_range, ranges@.push(x), pn)
                            <==> self.state_at(pn).is_rcvd()) by {
                        lemma_in_ranges_push(ranges@, 0, lo0, x, pn);
                        lemma_in_ranges_bounds(ranges@, 0, lo0, pn);
                        assert(in_ranges(ranges@.push(x), 0, lo0, pn) == (in_ranges(ranges@, 0, lo0, pn)
                            || (self.offset + a <= pn && pn <= self.offset + g - 1)));
                        if pn >= self.offset + k {
                            assert(acks(largest, first_range, ranges@, pn) <==> self.state_at(pn).is_rcvd());
                        } else {
                            assert(self.state_at(pn) == self.states@[pn - self.offset]);
                            assert(!in_ranges(ranges@, 0, lo0, pn));
                            if pn < self.offset + g {
                                assert(self.states@[pn - self.offset].is_rcvd());
                            } else {
                                assert(!self.states@[pn - self.offset].is_rcvd());
                            }
                        }
                    }
                    lemma_in_ranges_push(ranges@, 0, lo0, x, 0);
                }
                ranges.push(x);
                k = a;
            }
        }
        let r = AckFrame { largest, delay, first_range, ranges };
        proof {
            assert forall|pn: int| #[trigger]
                r.spec_acks(pn) <==> (self.offset <= pn < self.end() && self.state_at(pn).is_rcvd()) by {
                lemma_in_ranges_bounds(r.ranges@, 0, lo0, pn);
                if self.offset <= pn < self.offset + k {
                    assert(self.state_at(pn) == self.states@[pn - self.offset]);
                }
            }
        }
        r
    }
}

} // verus!
