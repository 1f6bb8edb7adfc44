//! Connection IDs: opaque byte strings of at most 20 bytes.

use vstd::prelude::*;

verus! {

/// Most bytes a connection ID may hold.
pub const MAX_CID_SIZE: usize = 20;

/// A connection ID, kept inline: the first `len` bytes of `bytes` are the ID,
/// the rest are zero.
#[derive(Clone, Copy, Debug)]
pub struct ConnectionId {
    len: u8,
    bytes: [u8; 20],
}

impl View for ConnectionId {
    type V = Seq<u8>;

    open spec fn view(&self) -> Seq<u8> {
        self.spec_bytes().subrange(0, self.spec_len() as int)
    }
}

impl ConnectionId {
    pub closed spec fn spec_len(&self) -> nat {
        self.len as nat
    }

    pub closed spec fn spec_bytes(&self) -> Seq<u8> {
        self.bytes@
    }

    pub closed spec fn wf(&self) -> bool {
        self.len <= 20
    }

    /// The ID made of `s`, or `None` when `s` is longer than 20 bytes.
    pub fn from_slice(s: &[u8]) -> (r: Option<ConnectionId>)
        ensures
            r is Some <==> s@.len() <= 20,
            r matches Some(c) ==> c.wf() && c@ == s@,
    {
        if s.len() > MAX_CID_SIZE {
            return None;
        }
        let mut bytes = [0u8; 20];
        let mut i: usize = 0;
        while i < s.len()
            invariant
                i <= s@.len() <= 20,
                bytes@.len() == 20,
                forall|j: int| 0 <= j < i ==> bytes@[j] == s@[j],
            decreases s@.len() - i,
        {
            bytes[i] = s[i];
            i = i + 1;
        }
        let c = ConnectionId { len: s.len() as u8, bytes };
        assert(c@ =~= s@);
        Some(c)
    }

    /// The empty connection ID.
    pub fn empty() -> (r: ConnectionId)
        ensures
            r.wf(),
            r@.len() == 0,
    {
        ConnectionId { len: 0, bytes: [0u8; 20] }
    }

    /// Number of bytes of the ID.
    pub fn len(&self) -> (r: usize)
        requires
            self.wf(),
        ensures
            r == self@.len(),
            r <= 20,
    {
        self.len as usize
    }

    /// The byte at `i`.
    pub fn byte(&self, i: usize) -> (r: u8)
        requires
            self.wf(),
            i < self@.len(),
        ensures
            r == self@[i as int],
    {
        self.bytes[i]
    }

    /// Whether two IDs hold the same bytes.
    pub fn same(&self, other: &ConnectionId) -> (r: bool)
        requires
            self.wf(),
            other.wf(),
        ensures
            r == (self@ == other@),
    {
        if self.len != other.len {
            assert(self@.len() != other@.len());
            return false;
        }
        let n = self.len as usize;
        let mut i: usize = 0;
        while i < n
            invariant
                n == self.spec_len() == other.spec_len() <= 20,
                i <= n,
                self.spec_bytes().len() == 20,
                other.spec_bytes().len() == 20,
                forall|j: int| 0 <= j < i ==> self@[j] == other@[j],
            decreases n - i,
        {
            if self.bytes[i] != other.bytes[i] {
                assert(self@[i as int] != other@[i as int]);
                return false;
            }
            i = i + 1;
        }
        assert(self@ =~= other@);
        true
    }
}

/// Whether two optional IDs are both absent, or both present with the same
/// bytes.
pub fn same_opt_cid(a: &Option<ConnectionId>, b: &Option<ConnectionId>) -> (r: bool)
    requires
        a matches Some(c) ==> c.wf(),
        b matches Some(c) ==> c.wf(),
    ensures
        r == opt_cid_eq(*a, *b),
{
    match (a, b) {
        (Some(x), Some(y)) => x.same(y),
        (None, None) => true,
        _ => false,
    }
}

/// Equality of optional IDs by their bytes.
pub open spec fn opt_cid_eq(a: Option<ConnectionId>, b: Option<ConnectionId>) -> bool {
    match (a, b) {
        (Some(x), Some(y)) => x@ == y@,
        (None, None) => true,
        _ => false,
    }
}

/// Every ID present in `o` is well formed.
pub open spec fn opt_cid_wf(o: Option<ConnectionId>) -> bool {
    o matches Some(c) ==> c.wf()
}

} // verus!
