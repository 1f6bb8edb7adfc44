//! Transport parameters (RFC 9000 §18): the sets each side advertises, their
//! encoding, the bounds a peer's set must meet, and the registry that
//! negotiates them and authenticates the connection IDs they carry.

use vstd::prelude::*;
use crate::cid::ConnectionId;
use crate::error::{Error, ErrorKind, FrameType};
use crate::frame::{lemma_vat_at, vat};
use crate::varint::{decode, encode, encoded_size, lemma_varint_bytes_len, varint_bytes, varint_size, VARINT_MAX};
use crate::cid::{opt_cid_wf, same_opt_cid};
use std::task::Waker;

verus! {

/// Largest stream count a peer may allow: 2^60 - 1.
pub const MAX_STREAMS_LIMIT: u64 = 0x0fff_ffff_ffff_ffff;

/// The parameters both roles advertise.
#[derive(Clone, Copy, Debug, PartialEq, Eq, Structural)]
pub struct CommonParameters {
    pub max_idle_timeout: u64,
    pub max_udp_payload_size: u64,
    pub initial_max_data: u64,
    pub initial_max_stream_data_bidi_local: u64,
    pub initial_max_stream_data_bidi_remote: u64,
    pub initial_max_stream_data_uni: u64,
    pub initial_max_streams_bidi: u64,
    pub initial_max_streams_uni: u64,
    pub ack_delay_exponent: u64,
    pub max_ack_delay: u64,
    pub disable_active_migration: bool,
    pub active_connection_id_limit: u64,
    pub max_datagram_frame_size: u64,
}

/// The values a parameter takes when it is absent.
pub open spec fn default_common() -> CommonParameters {
    CommonParameters {
        max_idle_timeout: 0,
        max_udp_payload_size: 65527,
        initial_max_data: 0,
        initial_max_stream_data_bidi_local: 0,
        initial_max_stream_data_bidi_remote: 0,
        initial_max_stream_data_uni: 0,
        initial_max_streams_bidi: 0,
        initial_max_streams_uni: 0,
        ack_delay_exponent: 3,
        max_ack_delay: 25,
        disable_active_migration: false,
        active_connection_id_limit: 2,
        max_datagram_frame_size: 0,
    }
}

impl Default for CommonParameters {
    fn default() -> (r: CommonParameters)
        ensures
            r == default_common(),
    {
        CommonParameters {
            max_idle_timeout: 0,
            max_udp_payload_size: 65527,
            initial_max_data: 0,
            initial_max_stream_data_bidi_local: 0,
            initial_max_stream_data_bidi_remote: 0,
            initial_max_stream_data_uni: 0,
            initial_max_streams_bidi: 0,
            initial_max_streams_uni: 0,
            ack_delay_exponent: 3,
            max_ack_delay: 25,
            disable_active_migration: false,
            active_connection_id_limit: 2,
            max_datagram_frame_size: 0,
        }
    }
}

/// Which bound on a peer's parameters the set breaks first, if any.
pub open spec fn bound_violation(c: CommonParameters) -> Option<int> {
    if c.max_udp_payload_size < 1200 {
        Some(0)
    } else if c.ack_delay_exponent > 20 {
        Some(1)
    } else if c.max_ack_delay > 0x4000 {
        Some(2)
    } else if c.active_connection_id_limit < 2 {
        Some(3)
    } else if c.initial_max_streams_bidi > MAX_STREAMS_LIMIT {
        Some(4)
    } else if c.initial_max_streams_uni > MAX_STREAMS_LIMIT {
        Some(5)
    } else {
        None
    }
}

/// The reason given for the first bound the set breaks, if any.
pub open spec fn bound_failure(c: CommonParameters) -> Option<Seq<char>> {
    if c.max_udp_payload_size < 1200 {
        Some("max_udp_payload_size from peer must be at least 1200"@)
    } else if c.ack_delay_exponent > 20 {
        Some("ack_delay_exponent from peer must be at most 20"@)
    } else if c.max_ack_delay > 0x4000 {
        Some("max_ack_delay from peer must be at most 2^14"@)
    } else if c.active_connection_id_limit < 2 {
        Some("active_connection_id_limit from peer must be at least 2"@)
    } else if c.initial_max_streams_bidi > MAX_STREAMS_LIMIT {
        Some("initial_max_streams_bidi from peer must be at most 2^60 - 1"@)
    } else if c.initial_max_streams_uni > MAX_STREAMS_LIMIT {
        Some("initial_max_streams_uni from peer must be at most 2^60 - 1"@)
    } else {
        None
    }
}

/// Every value fits a variable-length integer.
pub open spec fn common_wf(c: CommonParameters) -> bool {
    &&& c.max_idle_timeout <= VARINT_MAX
    &&& c.max_udp_payload_size <= VARINT_MAX
    &&& c.initial_max_data <= VARINT_MAX
    &&& c.initial_max_stream_data_bidi_local <= VARINT_MAX
    &&& c.initial_max_stream_data_bidi_remote <= VARINT_MAX
    &&& c.initial_max_stream_data_uni <= VARINT_MAX
    &&& c.initial_max_streams_bidi <= VARINT_MAX
    &&& c.initial_max_streams_uni <= VARINT_MAX
    &&& c.ack_delay_exponent <= VARINT_MAX
    &&& c.max_ack_delay <= VARINT_MAX
    &&& c.active_connection_id_limit <= VARINT_MAX
    &&& c.max_datagram_frame_size <= VARINT_MAX
}

impl CommonParameters {
    /// Checks the bounds a peer's parameters must meet. The first bound
    /// broken gives a TRANSPORT_PARAMETER error.
    pub fn validate(&self) -> (r: Result<(), Error>)
        ensures
            r is Ok <==> bound_violation(*self) is None,
            r is Ok <==> bound_failure(*self) is None,
            r matches Err(e) ==> e.kind == ErrorKind::TransportParameter && e.frame_type == FrameType::Crypto
                && Some(e.reason@) == bound_failure(*self),
    {
        let reason = if self.max_udp_payload_size < 1200 {
            Some("max_udp_payload_size from peer must be at least 1200")
        } else if self.ack_delay_exponent > 20 {
            Some("ack_delay_exponent from peer must be at most 20")
        } else if self.max_ack_delay > 0x4000 {
            Some("max_ack_delay from peer must be at most 2^14")
        } else if self.active_connection_id_limit < 2 {
            Some("active_connection_id_limit from peer must be at least 2")
        } else if self.initial_max_streams_bidi > MAX_STREAMS_LIMIT {
            Some("initial_max_streams_bidi from peer must be at most 2^60 - 1")
        } else if self.initial_max_streams_uni > MAX_STREAMS_LIMIT {
            Some("initial_max_streams_uni from peer must be at most 2^60 - 1")
        } else {
            None
        };
        match reason {
            Some(reason) => Err(Error::new(ErrorKind::TransportParameter, FrameType::Crypto, reason)),
            None => Ok(()),
        }
    }
}

/// A parameter set as read or written: the common parameters and the
/// connection IDs and token, by their bytes.
pub struct ParamsView {
    pub common: CommonParameters,
    pub initial_scid: Option<Seq<u8>>,
    pub original_dcid: Option<Seq<u8>>,
    pub retry_scid: Option<Seq<u8>>,
    pub reset_token: Option<Seq<u8>>,
}

/// The bytes of an optional connection ID.
pub open spec fn cid_view(c: Option<ConnectionId>) -> Option<Seq<u8>> {
    match c {
        Some(x) => Some(x@),
        None => None,
    }
}

/// The parameters a client advertises.
#[derive(Clone, Copy, Debug)]
pub struct ClientParameters {
    pub common: CommonParameters,
    pub initial_source_connection_id: Option<ConnectionId>,
}

/// The parameters a server advertises.
#[derive(Clone, Copy, Debug)]
pub struct ServerParameters {
    pub common: CommonParameters,
    pub initial_source_connection_id: Option<ConnectionId>,
    pub original_destination_connection_id: Option<ConnectionId>,
    pub retry_source_connection_id: Option<ConnectionId>,
    pub stateless_reset_token: Option<[u8; 16]>,
}

impl View for ClientParameters {
    type V = ParamsView;

    open spec fn view(&self) -> ParamsView {
        ParamsView {
            common: self.common,
            initial_scid: cid_view(self.initial_source_connection_id),
            original_dcid: None,
            retry_scid: None,
            reset_token: None,
        }
    }
}

impl View for ServerParameters {
    type V = ParamsView;

    open spec fn view(&self) -> ParamsView {
        ParamsView {
            common: self.common,
            initial_scid: cid_view(self.initial_source_connection_id),
            original_dcid: cid_view(self.original_destination_connection_id),
            retry_scid: cid_view(self.retry_source_connection_id),
            reset_token: match self.stateless_reset_token {
                Some(t) => Some(t@),
                None => None,
            },
        }
    }
}

impl ClientParameters {
    pub open spec fn wf(&self) -> bool {
        common_wf(self.common) && crate::cid::opt_cid_wf(self.initial_source_connection_id)
    }

    pub fn set_ack_delay_exponent(&mut self, v: u64)
        ensures
            final(self).common == (CommonParameters { ack_delay_exponent: v, ..old(self).common }),
            final(self).initial_source_connection_id == old(self).initial_source_connection_id,
    {
        self.common.ack_delay_exponent = v;
    }

    pub fn set_initial_source_connection_id(&mut self, cid: ConnectionId)
        ensures
            final(self).common == old(self).common,
            final(self).initial_source_connection_id == Some(cid),
    {
        self.initial_source_connection_id = Some(cid);
    }
}

impl Default for ClientParameters {
    fn default() -> (r: ClientParameters)
        ensures
            r.common == default_common(),
            r.initial_source_connection_id is None,
    {
        ClientParameters { common: CommonParameters::default(), initial_source_connection_id: None }
    }
}

impl ServerParameters {
    pub open spec fn wf(&self) -> bool {
        &&& common_wf(self.common)
        &&& crate::cid::opt_cid_wf(self.initial_source_connection_id)
        &&& crate::cid::opt_cid_wf(self.original_destination_connection_id)
        &&& crate::cid::opt_cid_wf(self.retry_source_connection_id)
    }

    pub fn set_ack_delay_exponent(&mut self, v: u64)
        ensures
            final(self).common == (CommonParameters { ack_delay_exponent: v, ..old(self).common }),
            final(self)@ == (ParamsView { common: final(self).common, ..old(self)@ }),
    {
        self.common.ack_delay_exponent = v;
    }

    pub fn set_initial_source_connection_id(&mut self, cid: ConnectionId)
        ensures
            final(self)@ == (ParamsView { initial_scid: Some(cid@), ..old(self)@ }),
            final(self).initial_source_connection_id == Some(cid),
            final(self).retry_source_connection_id == old(self).retry_source_connection_id,
            final(self).original_destination_connection_id == old(self).original_destination_connection_id,
    {
        self.initial_source_connection_id = Some(cid);
    }

    pub fn set_retry_source_connection_id(&mut self, cid: ConnectionId)
        ensures
            final(self)@ == (ParamsView { retry_scid: Some(cid@), ..old(self)@ }),
            final(self).initial_source_connection_id == old(self).initial_source_connection_id,
            final(self).retry_source_connection_id == Some(cid),
            final(self).original_destination_connection_id == old(self).original_destination_connection_id,
    {
        self.retry_source_connection_id = Some(cid);
    }

    pub fn set_original_destination_connection_id(&mut self, cid: ConnectionId)
        ensures
            final(self)@ == (ParamsView { original_dcid: Some(cid@), ..old(self)@ }),
            final(self).initial_source_connection_id == old(self).initial_source_connection_id,
            final(self).retry_source_connection_id == old(self).retry_source_connection_id,
            final(self).original_destination_connection_id == Some(cid),
    {
        self.original_destination_connection_id = Some(cid);
    }
}

impl Default for ServerParameters {
    fn default() -> (r: ServerParameters)
        ensures
            r.common == default_common(),
            r.initial_source_connection_id is None,
            r.original_destination_connection_id is None,
            r.retry_source_connection_id is None,
            r.stateless_reset_token is None,
    {
        ServerParameters {
            common: CommonParameters::default(),
            initial_source_connection_id: None,
            original_destination_connection_id: None,
            retry_source_connection_id: None,
            stateless_reset_token: None,
        }
    }
}

/// The value of an integer parameter: one variable-length integer that
/// fills the `len` bytes from `start`.
pub open spec fn int_param(s: Seq<u8>, start: int, len: int) -> Option<u64> {
    match vat(s, start) {
        Some((x, n)) => if n == start + len { Some(x) } else { None },
        None => None,
    }
}

/// Whether `id` names an integer parameter.
pub open spec fn is_int_param(id: u64) -> bool {
    id == 0x01 || (0x03 <= id && id <= 0x0b) || id == 0x0e || id == 0x20
}

/// The common parameters with integer parameter `id` set to `x`.
pub open spec fn with_int(c: CommonParameters, id: u64, x: u64) -> CommonParameters {
    if id == 0x01 {
        CommonParameters { max_idle_timeout: x, ..c }
    } else if id == 0x03 {
        CommonParameters { max_udp_payload_size: x, ..c }
    } else if id == 0x04 {
        CommonParameters { initial_max_data: x, ..c }
    } else if id == 0x05 {
        CommonParameters { initial_max_stream_data_bidi_local: x, ..c }
    } else if id == 0x06 {
        CommonParameters { initial_max_stream_data_bidi_remote: x, ..c }
    } else if id == 0x07 {
        CommonParameters { initial_max_stream_data_uni: x, ..c }
    } else if id == 0x08 {
        CommonParameters { initial_max_streams_bidi: x, ..c }
    } else if id == 0x09 {
        CommonParameters { initial_max_streams_uni: x, ..c }
    } else if id == 0x0a {
        CommonParameters { ack_delay_exponent: x, ..c }
    } else if id == 0x0b {
        CommonParameters { max_ack_delay: x, ..c }
    } else if id == 0x0e {
        CommonParameters { active_connection_id_limit: x, ..c }
    } else {
        CommonParameters { max_datagram_frame_size: x, ..c }
    }
}

/// The set `v` after the parameter `id` whose value is the `len` bytes from
/// `start`; `None` when the value is malformed, or the parameter is one only
/// a server sends and `from_server` is false. Unknown parameters are ignored.
pub open spec fn apply_param(v: ParamsView, from_server: bool, id: u64, s: Seq<u8>, start: int, len: int) -> Option<ParamsView> {
    if is_int_param(id) {
        match int_param(s, start, len) {
            Some(x) => Some(ParamsView { common: with_int(v.common, id, x), ..v }),
            None => None,
        }
    } else if id == 0x0c {
        if len == 0 {
            Some(ParamsView { common: CommonParameters { disable_active_migration: true, ..v.common }, ..v })
        } else {
            None
        }
    } else if id == 0x0f {
        if len <= 20 { Some(ParamsView { initial_scid: Some(s.subrange(start, start + len)), ..v }) } else { None }
    } else if id == 0x00 {
        if from_server && len <= 20 {
            Some(ParamsView { original_dcid: Some(s.subrange(start, start + len)), ..v })
        } else {
            None
        }
    } else if id == 0x10 {
        if from_server && len <= 20 {
            Some(ParamsView { retry_scid: Some(s.subrange(start, start + len)), ..v })
        } else {
            None
        }
    } else if id == 0x02 {
        if from_server && len == 16 {
            Some(ParamsView { reset_token: Some(s.subrange(start, start + len)), ..v })
        } else {
            None
        }
    } else if id == 0x0d {
        if from_server { Some(v) } else { None }
    } else {
        Some(v)
    }
}

/// The set that the parameters from `pos` on make of `v`.
#[verifier::opaque]
pub open spec fn params_from(s: Seq<u8>, pos: int, v: ParamsView, from_server: bool) -> Option<ParamsView>
    decreases s.len() - pos,
{
    if pos < 0 || pos >= s.len() {
        Some(v)
    } else {
        match vat(s, pos) {
            None => None,
            Some((id, p1)) => match vat(s, p1) {
                None => None,
                Some((len, p2)) => if p2 <= pos || p2 + len > s.len() {
                    None
                } else {
                    match apply_param(v, from_server, id, s, p2, len as int) {
                        None => None,
                        Some(v2) => params_from(s, p2 + len, v2, from_server),
                    }
                },
            },
        }
    }
}

/// The view of a set with every parameter absent.
pub open spec fn default_view() -> ParamsView {
    ParamsView { common: default_common(), initial_scid: None, original_dcid: None, retry_scid: None, reset_token: None }
}

/// The reason given for a parameter set that does not parse.
pub open spec fn malformed_reason() -> Seq<char> {
    "malformed transport parameters"@
}

fn decode_error() -> (e: Error)
    ensures
        e.kind == ErrorKind::TransportParameter,
        e.frame_type == FrameType::Crypto,
        e.reason@ == malformed_reason(),
{
    Error::new(ErrorKind::TransportParameter, FrameType::Crypto, "malformed transport parameters")
}

fn apply_param_exec(p: &mut ServerParameters, from_server: bool, id: u64, s: &[u8], start: usize, len: usize) -> (ok: bool)
    requires
        start + len <= s@.len(),
        old(p).wf(),
    ensures
        ok <==> apply_param(old(p)@, from_server, id, s@, start as int, len as int) is Some,
        ok ==> apply_param(old(p)@, from_server, id, s@, start as int, len as int) == Some(final(p)@),
        ok ==> final(p).wf(),
{
    let _total = s.len();
    if id == 0x01 || (0x03 <= id && id <= 0x0b) || id == 0x0e || id == 0x20 {
        let x = match decode(s, start) {
            Some((x, n)) => if n == start + len { x } else { return false },
            None => return false,
        };
        if id == 0x01 {
            p.common.max_idle_timeout = x;
        } else if id == 0x03 {
            p.common.max_udp_payload_size = x;
        } else if id == 0x04 {
            p.common.initial_max_data = x;
        } else if id == 0x05 {
            p.common.initial_max_stream_data_bidi_local = x;
        } else if id == 0x06 {
            p.common.initial_max_stream_data_bidi_remote = x;
        } else if id == 0x07 {
            p.common.initial_max_stream_data_uni = x;
        } else if id == 0x08 {
            p.common.initial_max_streams_bidi = x;
        } else if id == 0x09 {
            p.common.initial_max_streams_uni = x;
        } else if id == 0x0a {
            p.common.ack_delay_exponent = x;
        } else if id == 0x0b {
            p.common.max_ack_delay = x;
        } else if id == 0x0e {
            p.common.active_connection_id_limit = x;
        } else {
            p.common.max_datagram_frame_size = x;
        }
        true
    } else if id == 0x0c {
        if len == 0 {
            p.common.disable_active_migration = true;
            true
        } else {
            false
        }
    } else if id == 0x0f || id == 0x00 || id == 0x10 {
        if len > 20 || (id != 0x0f && !from_server) {
            return false;
        }
        let cid = match ConnectionId::from_slice(&s[start..start + len]) {
            Some(c) => c,
            None => return false,
        };
        if id == 0x0f {
            p.initial_source_connection_id = Some(cid);
        } else if id == 0x00 {
            p.original_destination_connection_id = Some(cid);
        } else {
            p.retry_source_connection_id = Some(cid);
        }
        true
    } else if id == 0x02 {
        if !from_server || len != 16 {
            return false;
        }
        let mut token = [0u8; 16];
        let mut i: usize = 0;
        while i < 16
            invariant
                start + 16 <= s@.len(),
                s@.len() <= usize::MAX,
                token@.len() == 16,
                i <= 16,
                forall|j: int| 0 <= j < i ==> token@[j] == s@[start + j],
            decreases 16 - i,
        {
            token[i] = s[start + i];
            i = i + 1;
        }
        assert(token@ =~= s@.subrange(start as int, start + 16));
        p.stateless_reset_token = Some(token);
        true
    } else if id == 0x0d {
        from_server
    } else {
        true
    }
}

/// Reads a parameter set; `from_server` when the peer is a server. Anything
/// malformed, or a server-only parameter from a client, is a
/// TRANSPORT_PARAMETER error.
pub fn parse_params(s: &[u8], from_server: bool) -> (r: Result<ServerParameters, Error>)
    ensures
        r is Ok <==> params_from(s@, 0, default_view(), from_server) is Some,
        r matches Ok(p) ==> Some(p@) == params_from(s@, 0, default_view(), from_server) && p.wf(),
        r matches Err(e) ==> e.kind == ErrorKind::TransportParameter && e.frame_type == FrameType::Crypto
            && e.reason@ == malformed_reason(),
{
    let mut p = ServerParameters::default();
    let mut pos: usize = 0;
    proof {
        assert(p@ =~= default_view());
    }
    while pos < s.len()
        invariant
            pos <= s@.len() || pos == 0,
            p.wf(),
            params_from(s@, 0, default_view(), from_server) == params_from(s@, pos as int, p@, from_server),
        decreases s@.len() - pos,
    {
        proof {
            reveal(params_from);
        }
        let (id, p1) = match decode(s, pos) {
            Some(x) => x,
            None => return Err(decode_error()),
        };
        let (len, p2) = match decode(s, p1) {
            Some(x) => x,
            None => return Err(decode_error()),
        };
        if len > (s.len() - p2) as u64 {
            return Err(decode_error());
        }
        if !apply_param_exec(&mut p, from_server, id, s, p2, len as usize) {
            return Err(decode_error());
        }
        pos = p2 + len as usize;
    }
    proof {
        reveal(params_from);
    }
    Ok(p)
}

/// An integer parameter on the wire.
pub open spec fn int_entry(id: u64, x: u64) -> Seq<u8> {
    varint_bytes(id as nat) + varint_bytes(varint_size(x as nat)) + varint_bytes(x as nat)
}

/// A byte-string parameter on the wire.
pub open spec fn bytes_entry(id: u64, b: Seq<u8>) -> Seq<u8> {
    varint_bytes(id as nat) + varint_bytes(b.len()) + b
}

/// A parameter that may be absent.
pub open spec fn opt_entry(id: u64, o: Option<Seq<u8>>) -> Seq<u8> {
    match o {
        Some(b) => bytes_entry(id, b),
        None => Seq::empty(),
    }
}

/// Integer parameters on the wire, one after another.
pub open spec fn int_entries(l: Seq<(u64, u64)>) -> Seq<u8>
    decreases l.len(),
{
    if l.len() == 0 {
        Seq::empty()
    } else {
        int_entries(l.drop_last()) + int_entry(l.last().0, l.last().1)
    }
}

/// The integer parameters written before `disable_active_migration`.
pub open spec fn head_ints(c: CommonParameters) -> Seq<(u64, u64)> {
    seq![
        (0x01u64, c.max_idle_timeout),
        (0x03u64, c.max_udp_payload_size),
        (0x04u64, c.initial_max_data),
        (0x05u64, c.initial_max_stream_data_bidi_local),
        (0x06u64, c.initial_max_stream_data_bidi_remote),
        (0x07u64, c.initial_max_stream_data_uni),
        (0x08u64, c.initial_max_streams_bidi),
        (0x09u64, c.initial_max_streams_uni),
        (0x0au64, c.ack_delay_exponent),
        (0x0bu64, c.max_ack_delay),
    ]
}

/// The integer parameters written after `disable_active_migration`.
pub open spec fn tail_ints(c: CommonParameters) -> Seq<(u64, u64)> {
    seq![(0x0eu64, c.active_connection_id_limit), (0x20u64, c.max_datagram_frame_size)]
}

/// The `disable_active_migration` flag on the wire: present or absent.
pub open spec fn migration_bytes(c: CommonParameters) -> Seq<u8> {
    if c.disable_active_migration {
        bytes_entry(0x0c, Seq::empty())
    } else {
        Seq::empty()
    }
}

/// The common parameters on the wire, in order of their ids.
pub open spec fn common_bytes(c: CommonParameters) -> Seq<u8> {
    int_entries(head_ints(c)) + migration_bytes(c) + int_entries(tail_ints(c))
}

/// A parameter set on the wire.
pub open spec fn params_bytes(v: ParamsView) -> Seq<u8> {
    common_bytes(v.common) + opt_entry(0x0f, v.initial_scid) + opt_entry(0x00, v.original_dcid)
        + opt_entry(0x10, v.retry_scid) + opt_entry(0x02, v.reset_token)
}

fn put_int(buf: &mut Vec<u8>, id: u64, x: u64)
    requires
        id <= VARINT_MAX,
        x <= VARINT_MAX,
    ensures
        final(buf)@ == old(buf)@ + int_entry(id, x),
{
    encode(buf, id);
    let n = encoded_size(x);
    encode(buf, n as u64);
    encode(buf, x);
    assert(final(buf)@ =~= old(buf)@ + int_entry(id, x));
}

fn put_bytes(buf: &mut Vec<u8>, id: u64, b: &[u8])
    requires
        id <= VARINT_MAX,
        b@.len() <= 20,
    ensures
        final(buf)@ == old(buf)@ + bytes_entry(id, b@),
{
    encode(buf, id);
    encode(buf, b.len() as u64);
    let ghost head = buf@;
    let mut i: usize = 0;
    while i < b.len()
        invariant
            i <= b@.len(),
            buf@ == head + b@.take(i as int),
        decreases b@.len() - i,
    {
        buf.push(b[i]);
        i = i + 1;
        assert(buf@ =~= head + b@.take(i as int));
    }
    assert(b@.take(i as int) =~= b@);
    assert(final(buf)@ =~= old(buf)@ + bytes_entry(id, b@));
}

fn put_cid(buf: &mut Vec<u8>, id: u64, c: &Option<ConnectionId>)
    requires
        id <= VARINT_MAX,
        opt_cid_wf(*c),
    ensures
        final(buf)@ == old(buf)@ + opt_entry(id, cid_view(*c)),
{
    match c {
        Some(x) => {
            let mut v: Vec<u8> = Vec::new();
            let mut i: usize = 0;
            while i < x.len()
                invariant
                    x.wf(),
                    i <= x@.len(),
                    v@ == x@.take(i as int),
                decreases x@.len() - i,
            {
                v.push(x.byte(i));
                i = i + 1;
                assert(v@ =~= x@.take(i as int));
            }
            assert(x@.take(i as int) =~= x@);
            put_bytes(buf, id, v.as_slice());
        },
        None => {
            assert(old(buf)@ + Seq::<u8>::empty() =~= old(buf)@);
        },
    }
}

fn put_ints(buf: &mut Vec<u8>, l: &Vec<(u64, u64)>)
    requires
        forall|i: int| 0 <= i < l@.len() ==> l@[i].0 <= VARINT_MAX && l@[i].1 <= VARINT_MAX,
    ensures
        final(buf)@ == old(buf)@ + int_entries(l@),
{
    let ghost start = buf@;
    let mut i: usize = 0;
    assert(l@.take(0) =~= Seq::<(u64, u64)>::empty());
    assert(start + Seq::<u8>::empty() =~= start);
    while i < l.len()
        invariant
            forall|j: int| 0 <= j < l@.len() ==> l@[j].0 <= VARINT_MAX && l@[j].1 <= VARINT_MAX,
            i <= l@.len(),
            buf@ == start + int_entries(l@.take(i as int)),
        decreases l@.len() - i,
    {
        let (id, x) = l[i];
        put_int(buf, id, x);
        proof {
            assert(l@.take(i + 1).drop_last() =~= l@.take(i as int));
            vstd::seq_lib::lemma_concat_associative(start, int_entries(l@.take(i as int)), int_entry(id, x));
        }
        i = i + 1;
    }
    assert(l@.take(i as int) =~= l@);
}

/// Appends the common parameters.
pub fn write_common(buf: &mut Vec<u8>, c: &CommonParameters)
    requires
        common_wf(*c),
    ensures
        final(buf)@ == old(buf)@ + common_bytes(*c),
{
    let ghost b0 = buf@;
    let head = vec![
        (0x01u64, c.max_idle_timeout),
        (0x03u64, c.max_udp_payload_size),
        (0x04u64, c.initial_max_data),
        (0x05u64, c.initial_max_stream_data_bidi_local),
        (0x06u64, c.initial_max_stream_data_bidi_remote),
        (0x07u64, c.initial_max_stream_data_uni),
        (0x08u64, c.initial_max_streams_bidi),
        (0x09u64, c.initial_max_streams_uni),
        (0x0au64, c.ack_delay_exponent),
        (0x0bu64, c.max_ack_delay),
    ];
    assert(head@ =~= head_ints(*c));
    put_ints(buf, &head);
    let ghost b1 = buf@;
    if c.disable_active_migration {
        let empty: Vec<u8> = Vec::new();
        put_bytes(buf, 0x0c, empty.as_slice());
        assert(empty@ =~= Seq::<u8>::empty());
    } else {
        assert(b1 + Seq::<u8>::empty() =~= b1);
    }
    let ghost b2 = buf@;
    let tail = vec![(0x0eu64, c.active_connection_id_limit), (0x20u64, c.max_datagram_frame_size)];
    assert(tail@ =~= tail_ints(*c));
    put_ints(buf, &tail);
    proof {
        vstd::seq_lib::lemma_concat_associative(b0, int_entries(head_ints(*c)), migration_bytes(*c));
        vstd::seq_lib::lemma_concat_associative(
            b0,
            int_entries(head_ints(*c)) + migration_bytes(*c),
            int_entries(tail_ints(*c)),
        );
    }
}

impl ClientParameters {
    /// Appends the parameter set.
    pub fn write(&self, buf: &mut Vec<u8>)
        requires
            self.wf(),
        ensures
            final(buf)@ == old(buf)@ + params_bytes(self@),
    {
        let ghost b0 = buf@;
        write_common(buf, &self.common);
        put_cid(buf, 0x0f, &self.initial_source_connection_id);
        proof {
            vstd::seq_lib::lemma_concat_associative(b0, common_bytes(self.common), opt_entry(0x0f, self@.initial_scid));
            assert(params_bytes(self@) =~= common_bytes(self.common) + opt_entry(0x0f, self@.initial_scid));
        }
    }
}

impl ServerParameters {
    /// Appends the parameter set.
    pub fn write(&self, buf: &mut Vec<u8>)
        requires
            self.wf(),
        ensures
            final(buf)@ == old(buf)@ + params_bytes(self@),
    {
        let ghost b0 = buf@;
        let ghost v = self@;
        write_common(buf, &self.common);
        put_cid(buf, 0x0f, &self.initial_source_connection_id);
        proof {
            vstd::seq_lib::lemma_concat_associative(b0, common_bytes(v.common), opt_entry(0x0f, v.initial_scid));
        }
        let ghost p1 = common_bytes(v.common) + opt_entry(0x0f, v.initial_scid);
        put_cid(buf, 0x00, &self.original_destination_connection_id);
        proof {
            vstd::seq_lib::lemma_concat_associative(b0, p1, opt_entry(0x00, v.original_dcid));
        }
        let ghost p2 = p1 + opt_entry(0x00, v.original_dcid);
        put_cid(buf, 0x10, &self.retry_source_connection_id);
        proof {
            vstd::seq_lib::lemma_concat_associative(b0, p2, opt_entry(0x10, v.retry_scid));
        }
        let ghost p3 = p2 + opt_entry(0x10, v.retry_scid);
        let ghost b3 = buf@;
        match &self.stateless_reset_token {
            Some(t) => {
                put_bytes(buf, 0x02, t.as_slice());
            },
            None => {
                assert(b3 + Seq::<u8>::empty() =~= b3);
            },
        }
        proof {
            vstd::seq_lib::lemma_concat_associative(b0, p3, opt_entry(0x02, v.reset_token));
        }
    }
}

#[verifier::external_type_specification]
#[verifier::external_body]
pub struct ExWaker(Waker);

/// Relies on `std::task::Waker::wake`: schedules the task the waker belongs to.
#[verifier::external_body]
pub(crate) fn wake(w: Waker) {
    w.wake()
}

/// The side of the connection.
#[derive(Clone, Copy, Debug, PartialEq, Eq, Structural)]
pub enum Role {
    Client,
    Server,
}

/// The local and the remote parameters, once both are known.
#[derive(Clone, Copy, Debug)]
pub struct Pair {
    pub local: CommonParameters,
    pub remote: CommonParameters,
}

/// The result of polling for readiness: ready with a value, or the waker was
/// registered.
#[derive(Debug)]
pub enum Readiness<T> {
    Ready(T),
    Pending,
}

/// Connection IDs the peer's parameters must repeat.
#[derive(Clone, Copy, Debug)]
pub struct Requirements {
    pub initial_source_connection_id: Option<ConnectionId>,
    pub retry_source_connection_id: Option<ConnectionId>,
    pub original_destination_connection_id: Option<ConnectionId>,
}

/// Whether the peer's parameters `v` carry the connection IDs `req` asks for.
/// A client checks the server's initial source CID, retry source CID (both
/// absent when there was no Retry) and original destination CID; a server
/// checks the client's initial source CID.
pub open spec fn cids_authentic(role: Role, v: ParamsView, req: Requirements) -> bool {
    match role {
        Role::Client => {
            &&& req.initial_source_connection_id is Some
            &&& v.initial_scid == cid_view(req.initial_source_connection_id)
            &&& v.retry_scid == cid_view(req.retry_source_connection_id)
            &&& req.original_destination_connection_id is Some
            &&& v.original_dcid == cid_view(req.original_destination_connection_id)
        },
        Role::Server => {
            &&& req.initial_source_connection_id is Some
            &&& v.initial_scid == cid_view(req.initial_source_connection_id)
        },
    }
}

/// The reason given for the first connection-ID check that fails, checked in
/// the order of `cids_authentic`, if any.
pub open spec fn cid_failure(role: Role, v: ParamsView, req: Requirements) -> Option<Seq<char>> {
    match role {
        Role::Client => if !(req.initial_source_connection_id is Some && v.initial_scid == cid_view(
            req.initial_source_connection_id,
        )) {
            Some("Initial Source Connection ID from server mismatch"@)
        } else if v.retry_scid != cid_view(req.retry_source_connection_id) {
            Some("Retry Source Connection ID mismatch"@)
        } else if !(req.original_destination_connection_id is Some && v.original_dcid == cid_view(
            req.original_destination_connection_id,
        )) {
            Some("Original Destination Connection ID mismatch"@)
        } else {
            None
        },
        Role::Server => if !(req.initial_source_connection_id is Some && v.initial_scid == cid_view(
            req.initial_source_connection_id,
        )) {
            Some("Initial Source Connection ID from client mismatch"@)
        } else {
            None
        },
    }
}

/// The parameter registry of one connection.
#[derive(Debug)]
pub struct Parameters {
    pub role: Role,
    /// Readiness bits: 1 once the client's parameters are known, 2 once the
    /// server's are.
    pub state: u8,
    pub client: ClientParameters,
    pub server: ServerParameters,
    pub remembered: Option<CommonParameters>,
    pub requirements: Requirements,
    pub wakers: Vec<Waker>,
}

pub const CLIENT_READY: u8 = 1;
pub const SERVER_READY: u8 = 2;

impl Parameters {
    pub open spec fn wf(&self) -> bool {
        &&& self.client.wf()
        &&& self.server.wf()
        &&& opt_cid_wf(self.requirements.initial_source_connection_id)
        &&& opt_cid_wf(self.requirements.retry_source_connection_id)
        &&& opt_cid_wf(self.requirements.original_destination_connection_id)
        &&& (self.state == CLIENT_READY || self.state == SERVER_READY || self.state == 3)
    }

    /// The parameters this side advertises.
    pub open spec fn spec_local(&self) -> CommonParameters {
        match self.role {
            Role::Client => self.client.common,
            Role::Server => self.server.common,
        }
    }

    /// Whether the peer's parameters have been taken.
    pub open spec fn spec_has_remote(&self) -> bool {
        self.state == 3
    }

    /// The peer's parameters, once taken.
    pub open spec fn spec_remote(&self) -> Option<CommonParameters> {
        if !self.spec_has_remote() {
            None
        } else {
            match self.role {
                Role::Client => Some(self.server.common),
                Role::Server => Some(self.client.common),
            }
        }
    }

    pub fn new_client(client: ClientParameters, remembered: Option<CommonParameters>) -> (r: Parameters)
        requires
            client.wf(),
        ensures
            r.wf(),
            r.role == Role::Client,
            r.state == CLIENT_READY,
            r.client == client,
            r.remembered == remembered,
            r.requirements.initial_source_connection_id is None,
            r.requirements.retry_source_connection_id is None,
            r.requirements.original_destination_connection_id is None,
            r.wakers@.len() == 0,
    {
        Parameters {
            role: Role::Client,
            state: CLIENT_READY,
            client,
            server: ServerParameters::default(),
            remembered,
            requirements: Requirements {
                initial_source_connection_id: None,
                retry_source_connection_id: None,
                original_destination_connection_id: None,
            },
            wakers: Vec::new(),
        }
    }

    pub fn new_server(server: ServerParameters) -> (r: Parameters)
        requires
            server.wf(),
        ensures
            r.wf(),
            r.role == Role::Server,
            r.state == SERVER_READY,
            r.server == server,
            r.remembered is None,
            r.requirements.initial_source_connection_id is None,
            r.requirements.retry_source_connection_id is None,
            r.requirements.original_destination_connection_id is None,
            r.wakers@.len() == 0,
    {
        Parameters {
            role: Role::Server,
            state: SERVER_READY,
            client: ClientParameters::default(),
            server,
            remembered: None,
            requirements: Requirements {
                initial_source_connection_id: None,
                retry_source_connection_id: None,
                original_destination_connection_id: None,
            },
            wakers: Vec::new(),
        }
    }

    pub fn local(&self) -> (r: CommonParameters)
        ensures
            r == self.spec_local(),
    {
        match self.role {
            Role::Client => self.client.common,
            Role::Server => self.server.common,
        }
    }

    pub fn remote(&self) -> (r: Option<CommonParameters>)
        requires
            self.wf(),
        ensures
            r == self.spec_remote(),
    {
        let st = self.state;
        proof {
            assert((st & 2 != 0 && st & 1 != 0) ==> st == 3) by (bit_vector)
                requires
                    st == 1 || st == 2 || st == 3,
            ;
        }
        if self.role == Role::Client && self.state & SERVER_READY != 0 && self.state & CLIENT_READY != 0 {
            Some(self.server.common)
        } else if self.role == Role::Server && self.state & CLIENT_READY != 0 && self.state & SERVER_READY != 0 {
            Some(self.client.common)
        } else {
            let st = self.state;
            proof {
                assert(st != 3 || (st & 2 != 0 && st & 1 != 0)) by (bit_vector);
            }
            None
        }
    }

    pub fn remembered(&self) -> (r: Option<CommonParameters>)
        ensures
            r == self.remembered,
    {
        self.remembered
    }

    pub fn has_rcvd_remote_params(&self) -> (r: bool)
        ensures
            r == self.spec_has_remote(),
    {
        proof {
            assert(1u8 | 2u8 == 3u8) by (bit_vector);
        }
        self.state == CLIENT_READY | SERVER_READY
    }

    /// Sets the initial source connection ID this side advertises.
    pub fn set_initial_scid(&mut self, cid: ConnectionId)
        requires
            old(self).wf(),
            cid.wf(),
        ensures
            final(self).wf(),
            final(self).role == old(self).role,
            final(self).state == old(self).state,
            final(self).requirements == old(self).requirements,
            old(self).role == Role::Client ==> final(self).client.initial_source_connection_id == Some(cid)
                && final(self).client.common == old(self).client.common && final(self).server == old(self).server,
            final(self).remembered == old(self).remembered,
            old(self).role == Role::Server ==> final(self).server.initial_source_connection_id == Some(cid),
            old(self).role == Role::Server ==> final(self).server@ == (ParamsView { initial_scid: Some(cid@), ..old(self).server@ })
                && final(self).server.common == old(self).server.common && final(self).client == old(self).client,
    {
        if self.role == Role::Client {
            self.client.set_initial_source_connection_id(cid);
        } else {
            self.server.set_initial_source_connection_id(cid);
        }
    }

    /// Sets the retry source connection ID a server advertises.
    pub fn set_retry_scid(&mut self, cid: ConnectionId)
        requires
            old(self).wf(),
            old(self).role == Role::Server,
            cid.wf(),
        ensures
            final(self).wf(),
            final(self).server@ == (ParamsView { retry_scid: Some(cid@), ..old(self).server@ }),
            final(self).remembered == old(self).remembered,
            final(self).client == old(self).client,
            final(self).server.retry_source_connection_id == Some(cid),
            final(self).role == old(self).role,
            final(self).state == old(self).state,
            final(self).requirements == old(self).requirements,
    {
        self.server.set_retry_source_connection_id(cid);
    }

    /// Sets the original destination connection ID a server advertises.
    pub fn set_original_dcid(&mut self, cid: ConnectionId)
        requires
            old(self).wf(),
            old(self).role == Role::Server,
            cid.wf(),
        ensures
            final(self).wf(),
            final(self).server@ == (ParamsView { original_dcid: Some(cid@), ..old(self).server@ }),
            final(self).remembered == old(self).remembered,
            final(self).client == old(self).client,
            final(self).server.original_destination_connection_id == Some(cid),
            final(self).role == old(self).role,
            final(self).state == old(self).state,
            final(self).requirements == old(self).requirements,
    {
        self.server.set_original_destination_connection_id(cid);
    }

    /// Requires the peer to advertise `cid` as its initial source
    /// connection ID; only the first requirement counts.
    pub fn initial_scid_from_peer_need_equal(&mut self, cid: ConnectionId)
        requires
            old(self).wf(),
            cid.wf(),
        ensures
            final(self).wf(),
            final(self).requirements.initial_source_connection_id == if old(self).requirements.initial_source_connection_id is None {
                Some(cid)
            } else {
                old(self).requirements.initial_source_connection_id
            },
            final(self).requirements.retry_source_connection_id == old(self).requirements.retry_source_connection_id,
            final(self).requirements.original_destination_connection_id == old(self).requirements.original_destination_connection_id,
            final(self).role == old(self).role,
            final(self).state == old(self).state,
            final(self).client == old(self).client,
            final(self).server == old(self).server,
    {
        if self.requirements.initial_source_connection_id.is_none() {
            self.requirements.initial_source_connection_id = Some(cid);
        }
    }

    /// Requires the server to advertise `cid` as its retry source
    /// connection ID (a client, after a Retry).
    pub fn retry_scid_from_server_need_equal(&mut self, cid: ConnectionId)
        requires
            old(self).wf(),
            old(self).role == Role::Client,
            cid.wf(),
        ensures
            final(self).wf(),
            final(self).requirements == (Requirements { retry_source_connection_id: Some(cid), ..old(self).requirements }),
            final(self).role == old(self).role,
            final(self).state == old(self).state,
            final(self).client == old(self).client,
            final(self).server == old(self).server,
    {
        self.requirements.retry_source_connection_id = Some(cid);
    }

    /// Requires the server to advertise `cid` as the original destination
    /// connection ID (a client).
    pub fn original_dcid_from_server_need_equal(&mut self, cid: ConnectionId)
        requires
            old(self).wf(),
            old(self).role == Role::Client,
            cid.wf(),
        ensures
            final(self).wf(),
            final(self).requirements == (Requirements { original_destination_connection_id: Some(cid), ..old(self).requirements }),
            final(self).role == old(self).role,
            final(self).state == old(self).state,
            final(self).client == old(self).client,
            final(self).server == old(self).server,
    {
        self.requirements.original_destination_connection_id = Some(cid);
    }

    /// Wakes and forgets every registered waker.
    pub fn wake_all(&mut self)
        ensures
            final(self).wakers@.len() == 0,
            final(self).role == old(self).role,
            final(self).state == old(self).state,
            final(self).client == old(self).client,
            final(self).server == old(self).server,
            final(self).remembered == old(self).remembered,
            final(self).requirements == old(self).requirements,
    {
        while self.wakers.len() > 0
            invariant
                self.role == old(self).role,
                self.state == old(self).state,
                self.client == old(self).client,
                self.server == old(self).server,
                self.remembered == old(self).remembered,
                self.requirements == old(self).requirements,
            decreases self.wakers@.len(),
        {
            match self.wakers.pop() {
                Some(w) => wake(w),
                None => {},
            }
        }
    }

    /// Checks that the peer's parameters carry the connection IDs required
    /// of them; a mismatch is a TRANSPORT_PARAMETER error.
    pub fn authenticate_cids(&self) -> (r: Result<(), Error>)
        requires
            self.wf(),
        ensures
            r is Ok <==> cids_authentic(self.role, match self.role {
                Role::Client => self.server@,
                Role::Server => self.client@,
            }, self.requirements),
            r matches Err(e) ==> e.kind == ErrorKind::TransportParameter && e.frame_type == FrameType::Crypto
                && Some(e.reason@) == cid_failure(self.role, match self.role {
                    Role::Client => self.server@,
                    Role::Server => self.client@,
                }, self.requirements),
    {
        let req = &self.requirements;
        match self.role {
            Role::Client => {
                if req.initial_source_connection_id.is_none() || !same_opt_cid(&self.server.initial_source_connection_id, &req.initial_source_connection_id) {
                    return Err(Error::new(ErrorKind::TransportParameter, FrameType::Crypto, "Initial Source Connection ID from server mismatch"));
                }
                if !same_opt_cid(&self.server.retry_source_connection_id, &req.retry_source_connection_id) {
                    return Err(Error::new(ErrorKind::TransportParameter, FrameType::Crypto, "Retry Source Connection ID mismatch"));
                }
                if req.original_destination_connection_id.is_none() || !same_opt_cid(&self.server.original_destination_connection_id, &req.original_destination_connection_id) {
                    return Err(Error::new(ErrorKind::TransportParameter, FrameType::Crypto, "Original Destination Connection ID mismatch"));
                }
            },
            Role::Server => {
                if req.initial_source_connection_id.is_none() || !same_opt_cid(&self.client.initial_source_connection_id, &req.initial_source_connection_id) {
                    return Err(Error::new(ErrorKind::TransportParameter, FrameType::Crypto, "Initial Source Connection ID from client mismatch"));
                }
            },
        }
        Ok(())
    }

    /// Whether the peer's parameters in `bytes` are accepted: they parse for
    /// the peer's role, meet every bound, and carry the required connection
    /// IDs.
    pub open spec fn accepts(&self, bytes: Seq<u8>) -> bool {
        match params_from(bytes, 0, default_view(), self.role == Role::Client) {
            None => false,
            Some(v) => bound_violation(v.common) is None && cids_authentic(self.role, v, self.requirements),
        }
    }

    /// The reason a refusal of the peer's parameters in `bytes` gives: the
    /// set does not parse, or the first bound it breaks, or the first
    /// connection-ID check that fails.
    pub open spec fn reject_reason(&self, bytes: Seq<u8>) -> Seq<char> {
        match params_from(bytes, 0, default_view(), self.role == Role::Client) {
            None => malformed_reason(),
            Some(v) => match bound_failure(v.common) {
                Some(r) => r,
                None => match cid_failure(self.role, v, self.requirements) {
                    Some(r) => r,
                    None => Seq::empty(),
                },
            },
        }
    }

    /// Takes the peer's parameters. On success the peer's parameters are
    /// known and every waker is woken; otherwise a TRANSPORT_PARAMETER error.
    pub fn recv_remote_params(&mut self, bytes: &[u8]) -> (r: Result<(), Error>)
        requires
            old(self).wf(),
        ensures
            r is Ok <==> old(self).accepts(bytes@),
            r matches Err(e) ==> e.kind == ErrorKind::TransportParameter && e.frame_type == FrameType::Crypto
                && e.reason@ == old(self).reject_reason(bytes@),
            r is Ok ==> {
                &&& final(self).wf()
                &&& final(self).spec_has_remote()
                &&& Some(final(self).spec_remote()->Some_0) == match params_from(bytes@, 0, default_view(), old(self).role == Role::Client) {
                    Some(v) => Some(v.common),
                    None => None,
                }
                &&& final(self).spec_local() == old(self).spec_local()
                &&& final(self).role == old(self).role
                &&& final(self).remembered == old(self).remembered
                &&& final(self).requirements == old(self).requirements
                &&& final(self).wakers@.len() == 0
            },
    {
        self.state = CLIENT_READY | SERVER_READY;
        proof {
            assert(1u8 | 2u8 == 3u8) by (bit_vector);
        }
        let ghost from_server = self.role == Role::Client;
        if self.role == Role::Client {
            let p = match parse_params(bytes, true) {
                Ok(p) => p,
                Err(e) => return Err(e),
            };
            self.server = p;
        } else {
            let p = match parse_params(bytes, false) {
                Ok(p) => p,
                Err(e) => return Err(e),
            };
            self.client = ClientParameters { common: p.common, initial_source_connection_id: p.initial_source_connection_id };
        }
        let remote = match self.role {
            Role::Client => self.server.common,
            Role::Server => self.client.common,
        };
        match remote.validate() {
            Ok(()) => {},
            Err(e) => return Err(e),
        }
        match self.authenticate_cids() {
            Ok(()) => {},
            Err(e) => return Err(e),
        }
        self.wake_all();
        Ok(())
    }

    /// The pair of parameter sets once the peer's are known; otherwise the
    /// waker is registered.
    pub fn poll_ready(&mut self, waker: Waker) -> (r: Readiness<Pair>)
        requires
            old(self).wf(),
        ensures
            final(self).wf(),
            old(self).spec_has_remote() ==> (r matches Readiness::Ready(p) && p.local == old(self).spec_local()
                && Some(p.remote) == old(self).spec_remote() && final(self).wakers@ == old(self).wakers@),
            !old(self).spec_has_remote() ==> r is Pending && final(self).wakers@ == old(self).wakers@.push(waker),
            final(self).role == old(self).role,
            final(self).state == old(self).state,
            final(self).client == old(self).client,
            final(self).server == old(self).server,
            final(self).remembered == old(self).remembered,
            final(self).requirements == old(self).requirements,
    {
        if self.has_rcvd_remote_params() {
            let local = self.local();
            match self.remote() {
                Some(remote) => Readiness::Ready(Pair { local, remote }),
                None => Readiness::Pending,
            }
        } else {
            self.wakers.push(waker);
            Readiness::Pending
        }
    }

    /// Appends the parameters this side advertises.
    pub fn write_local(&self, buf: &mut Vec<u8>)
        requires
            self.wf(),
        ensures
            final(buf)@ == old(buf)@ + match self.role {
                Role::Client => params_bytes(self.client@),
                Role::Server => params_bytes(self.server@),
            },
    {
        if self.role == Role::Client {
            self.client.write(buf);
        } else {
            self.server.write(buf);
        }
    }
}

/// Writing the local parameters of a registry into a buffer.
pub trait WriteParameters {
    fn put_parameters(&mut self, parameters: &Parameters)
        requires
            parameters.wf(),
    ;
}

impl WriteParameters for Vec<u8> {
    fn put_parameters(&mut self, parameters: &Parameters) {
        parameters.write_local(self);
    }
}

/// The parameter registry as it stands behind its lock: working, or failed
/// for good with the connection error.
#[derive(Debug)]
pub struct ArcParameters {
    pub inner: Result<Parameters, Error>,
}

impl ArcParameters {
    pub open spec fn wf(&self) -> bool {
        self.inner matches Ok(p) ==> p.wf()
    }

    /// What `local()` returns.
    pub open spec fn spec_local(&self) -> Option<CommonParameters> {
        match self.inner {
            Ok(p) => Some(p.spec_local()),
            Err(_) => None,
        }
    }

    /// What `remote()` returns.
    pub open spec fn spec_remote(&self) -> Option<CommonParameters> {
        match self.inner {
            Ok(p) => p.spec_remote(),
            Err(_) => None,
        }
    }

    /// The effect of `recv_remote_params(bytes)` taking `a0` to `a1` with
    /// result `r`.
    pub open spec fn recv_step(a0: ArcParameters, a1: ArcParameters, bytes: Seq<u8>, r: Result<(), Error>) -> bool {
        match a0.inner {
            Err(e) => a1 == a0 && r == Err::<(), Error>(e),
            Ok(p) => {
                &&& (r is Ok <==> p.accepts(bytes))
                &&& r matches Err(e) ==> e.kind == ErrorKind::TransportParameter && e.frame_type == FrameType::Crypto
                    && e.reason@ == p.reject_reason(bytes) && a1.inner == Err::<Parameters, Error>(e)
                &&& r is Ok ==> (a1.inner matches Ok(q) && q.spec_has_remote() && q.spec_local() == p.spec_local()
                    && Some(q.spec_remote()->Some_0) == match params_from(bytes, 0, default_view(), p.role == Role::Client) {
                        Some(v) => Some(v.common),
                        None => None,
                    })
            },
        }
    }

    pub fn new_client(client: ClientParameters, remembered: Option<CommonParameters>) -> (r: ArcParameters)
        requires
            client.wf(),
        ensures
            r.wf(),
            r.inner matches Ok(p) && p.role == Role::Client && p.client == client && p.remembered == remembered
                && !p.spec_has_remote() && p.requirements.initial_source_connection_id is None
                && p.requirements.retry_source_connection_id is None
                && p.requirements.original_destination_connection_id is None,
    {
        ArcParameters { inner: Ok(Parameters::new_client(client, remembered)) }
    }

    pub fn new_server(server: ServerParameters) -> (r: ArcParameters)
        requires
            server.wf(),
        ensures
            r.wf(),
            r.inner matches Ok(p) && p.role == Role::Server && p.server == server && p.remembered is None
                && !p.spec_has_remote() && p.requirements.initial_source_connection_id is None,
    {
        ArcParameters { inner: Ok(Parameters::new_server(server)) }
    }

    pub fn local(&self) -> (r: Option<CommonParameters>)
        ensures
            r == self.spec_local(),
    {
        match &self.inner {
            Ok(p) => Some(p.local()),
            Err(_) => None,
        }
    }

    pub fn remote(&self) -> (r: Option<CommonParameters>)
        requires
            self.wf(),
        ensures
            r == self.spec_remote(),
    {
        match &self.inner {
            Ok(p) => p.remote(),
            Err(_) => None,
        }
    }

    pub fn remembered(&self) -> (r: Option<CommonParameters>)
        ensures
            r == match self.inner {
                Ok(p) => p.remembered,
                Err(_) => None,
            },
    {
        match &self.inner {
            Ok(p) => p.remembered(),
            Err(_) => None,
        }
    }

    pub fn set_initial_scid(&mut self, cid: ConnectionId)
        requires
            old(self).wf(),
            cid.wf(),
        ensures
            final(self).wf(),
            old(self).inner is Err ==> *final(self) == *old(self),
            old(self).inner matches Ok(p) ==> (final(self).inner matches Ok(q) && q.role == p.role && q.state == p.state
                && q.requirements == p.requirements && q.remembered == p.remembered
                && (p.role == Role::Client ==> q.client.initial_source_connection_id == Some(cid)
                    && q.client.common == p.client.common && q.server == p.server)
                && (p.role == Role::Server ==> q.server.initial_source_connection_id == Some(cid)
                    && q.server@ == (ParamsView { initial_scid: Some(cid@), ..p.server@ }) && q.client == p.client)),
    {
        match &mut self.inner {
            Ok(p) => p.set_initial_scid(cid),
            Err(_) => {},
        }
    }

    pub fn set_retry_scid(&mut self, cid: ConnectionId)
        requires
            old(self).wf(),
            old(self).inner matches Ok(p) ==> p.role == Role::Server,
            cid.wf(),
        ensures
            final(self).wf(),
            old(self).inner is Err ==> *final(self) == *old(self),
            old(self).inner matches Ok(p) ==> (final(self).inner matches Ok(q) && q.server.retry_source_connection_id == Some(cid)
                && q.server@ == (ParamsView { retry_scid: Some(cid@), ..p.server@ }) && q.role == p.role && q.state == p.state
                && q.requirements == p.requirements && q.remembered == p.remembered && q.client == p.client),
    {
        match &mut self.inner {
            Ok(p) => p.set_retry_scid(cid),
            Err(_) => {},
        }
    }

    pub fn set_original_dcid(&mut self, cid: ConnectionId)
        requires
            old(self).wf(),
            old(self).inner matches Ok(p) ==> p.role == Role::Server,
            cid.wf(),
        ensures
            final(self).wf(),
            old(self).inner is Err ==> *final(self) == *old(self),
            old(self).inner matches Ok(p) ==> (final(self).inner matches Ok(q) && q.server.original_destination_connection_id == Some(cid)
                && q.server@ == (ParamsView { original_dcid: Some(cid@), ..p.server@ }) && q.role == p.role && q.state == p.state
                && q.requirements == p.requirements && q.remembered == p.remembered && q.client == p.client),
    {
        match &mut self.inner {
            Ok(p) => p.set_original_dcid(cid),
            Err(_) => {},
        }
    }

    /// Appends the local parameters; nothing once the registry failed.
    pub fn load_local_params_into(&self, buf: &mut Vec<u8>)
        requires
            self.wf(),
        ensures
            final(buf)@ == old(buf)@ + match self.inner {
                Ok(p) => match p.role {
                    Role::Client => params_bytes(p.client@),
                    Role::Server => params_bytes(p.server@),
                },
                Err(_) => Seq::empty(),
            },
    {
        match &self.inner {
            Ok(p) => p.write_local(buf),
            Err(_) => {
                assert(old(buf)@ + Seq::<u8>::empty() =~= old(buf)@);
            },
        }
    }

    pub fn initial_scid_from_peer_need_equal(&mut self, cid: ConnectionId)
        requires
            old(self).wf(),
            cid.wf(),
        ensures
            final(self).wf(),
            old(self).inner is Err ==> *final(self) == *old(self),
            old(self).inner matches Ok(p) ==> (final(self).inner matches Ok(q)
                && q.requirements.initial_source_connection_id == if p.requirements.initial_source_connection_id is None {
                    Some(cid)
                } else {
                    p.requirements.initial_source_connection_id
                }),
    {
        match &mut self.inner {
            Ok(p) => p.initial_scid_from_peer_need_equal(cid),
            Err(_) => {},
        }
    }

    pub fn retry_scid_from_server_need_equal(&mut self, cid: ConnectionId)
        requires
            old(self).wf(),
            old(self).inner matches Ok(p) ==> p.role == Role::Client,
            cid.wf(),
        ensures
            final(self).wf(),
            old(self).inner is Err ==> *final(self) == *old(self),
            old(self).inner matches Ok(p) ==> (final(self).inner matches Ok(q)
                && q.requirements.retry_source_connection_id == Some(cid)),
    {
        match &mut self.inner {
            Ok(p) => p.retry_scid_from_server_need_equal(cid),
            Err(_) => {},
        }
    }

    pub fn original_dcid_from_server_need_equal(&mut self, cid: ConnectionId)
        requires
            old(self).wf(),
            old(self).inner matches Ok(p) ==> p.role == Role::Client,
            cid.wf(),
        ensures
            final(self).wf(),
            old(self).inner is Err ==> *final(self) == *old(self),
            old(self).inner matches Ok(p) ==> (final(self).inner matches Ok(q)
                && q.requirements.original_destination_connection_id == Some(cid)),
    {
        match &mut self.inner {
            Ok(p) => p.original_dcid_from_server_need_equal(cid),
            Err(_) => {},
        }
    }

    /// Takes the peer's parameters. A failure wakes every waiter and leaves
    /// the registry failed with the error, so neither `local()` nor
    /// `remote()` shows what was read.
    pub fn recv_remote_params(&mut self, bytes: &[u8]) -> (r: Result<(), Error>)
        requires
            old(self).wf(),
        ensures
            final(self).wf(),
            ArcParameters::recv_step(*old(self), *final(self), bytes@, r),
    {
        let res = match &mut self.inner {
            Err(e) => return Err(*e),
            Ok(p) => {
                let res = p.recv_remote_params(bytes);
                if res.is_err() {
                    p.wake_all();
                }
                res
            },
        };
        match res {
            Ok(()) => Ok(()),
            Err(e) => {
                self.inner = Err(e);
                Err(e)
            },
        }
    }

    pub fn has_rcvd_remote_params(&self) -> (r: bool)
        ensures
            r == (self.inner matches Ok(p) && p.spec_has_remote()),
    {
        match &self.inner {
            Ok(p) => p.has_rcvd_remote_params(),
            Err(_) => false,
        }
    }

    /// Fails the registry with the connection error, waking every waiter;
    /// a registry already failed keeps its first error.
    pub fn on_conn_error(&mut self, error: &Error)
        requires
            old(self).wf(),
        ensures
            final(self).wf(),
            old(self).inner is Err ==> *final(self) == *old(self),
            old(self).inner is Ok ==> final(self).inner == Err::<Parameters, Error>(*error),
    {
        match &mut self.inner {
            Ok(p) => {
                p.wake_all();
            },
            Err(_) => return,
        }
        self.inner = Err(*error);
    }

    /// Ready with the pair once the peer's parameters are known, ready with
    /// `None` once the registry failed; otherwise the waker is registered.
    pub fn poll(&mut self, waker: Waker) -> (r: Readiness<Option<Pair>>)
        requires
            old(self).wf(),
        ensures
            final(self).wf(),
            old(self).inner is Err ==> (r matches Readiness::Ready(None) && *final(self) == *old(self)),
            old(self).inner matches Ok(p) ==> (p.spec_has_remote() <==> (r matches Readiness::Ready(Some(_)))),
            old(self).inner matches Ok(p) ==> (r matches Readiness::Ready(Some(pair)) ==> pair.local == p.spec_local()
                && Some(pair.remote) == p.spec_remote()),
            old(self).inner matches Ok(p) ==> (final(self).inner matches Ok(q) && q.spec_local() == p.spec_local()
                && q.spec_remote() == p.spec_remote() && q.role == p.role && q.state == p.state
                && q.requirements == p.requirements && q.remembered == p.remembered),
            old(self).inner matches Ok(p) ==> (!p.spec_has_remote() ==> r is Pending
                && final(self).inner->Ok_0.wakers@ == p.wakers@.push(waker)),
    {
        match &mut self.inner {
            Err(_) => Readiness::Ready(None),
            Ok(p) => match p.poll_ready(waker) {
                Readiness::Ready(pair) => Readiness::Ready(Some(pair)),
                Readiness::Pending => Readiness::Pending,
            },
        }
    }
}

/// When the peer's parameters parse and meet every bound, taking them
/// succeeds exactly when every connection-ID check holds: the initial source
/// CID, and for a client also the retry source CID and the original
/// destination CID.
pub proof fn lemma_cid_auth_complete(a0: ArcParameters, a1: ArcParameters, bytes: Seq<u8>, r: Result<(), Error>, v: ParamsView)
    requires
        ArcParameters::recv_step(a0, a1, bytes, r),
        a0.inner is Ok,
        params_from(bytes, 0, default_view(), a0.inner->Ok_0.role == Role::Client) == Some(v),
        bound_violation(v.common) is None,
    ensures
        r is Ok <==> cids_authentic(a0.inner->Ok_0.role, v, a0.inner->Ok_0.requirements),
{
}

/// A peer's parameter set that breaks any bound on its values is refused with a
/// TRANSPORT_PARAMETER error, and the registry then shows neither local nor
/// remote parameters.
pub proof fn lemma_bound_violation_rejected(a0: ArcParameters, a1: ArcParameters, bytes: Seq<u8>, r: Result<(), Error>, v: ParamsView)
    requires
        ArcParameters::recv_step(a0, a1, bytes, r),
        a0.inner is Ok,
        params_from(bytes, 0, default_view(), a0.inner->Ok_0.role == Role::Client) == Some(v),
        v.common.max_udp_payload_size < 1200 || v.common.ack_delay_exponent > 20 || v.common.max_ack_delay > 0x4000
            || v.common.active_connection_id_limit < 2 || v.common.initial_max_streams_bidi > MAX_STREAMS_LIMIT
            || v.common.initial_max_streams_uni > MAX_STREAMS_LIMIT,
    ensures
        r matches Err(e) && e.kind == ErrorKind::TransportParameter,
        a1.spec_local() is None,
        a1.spec_remote() is None,
{
}

/// The set `v` after the integer parameters `l`, in order.
pub open spec fn with_ints(v: ParamsView, l: Seq<(u64, u64)>) -> ParamsView
    decreases l.len(),
{
    if l.len() == 0 {
        v
    } else {
        let w = with_ints(v, l.drop_last());
        ParamsView { common: with_int(w.common, l.last().0, l.last().1), ..w }
    }
}

proof fn lemma_sub_of_sub(s: Seq<u8>, p: int, a: Seq<u8>, b: Seq<u8>)
    requires
        0 <= p,
        p + a.len() + b.len() <= s.len(),
        s.subrange(p, p + a.len() + b.len()) == a + b,
    ensures
        s.subrange(p, p + a.len()) == a,
        s.subrange(p + a.len(), p + a.len() + b.len()) == b,
{
    assert(s.subrange(p, p + a.len()) =~= (a + b).subrange(0, a.len() as int));
    assert((a + b).subrange(0, a.len() as int) =~= a);
    assert(s.subrange(p + a.len(), p + a.len() + b.len()) =~= (a + b).subrange(a.len() as int, (a.len() + b.len()) as int));
    assert((a + b).subrange(a.len() as int, (a.len() + b.len()) as int) =~= b);
}

/// One parameter read: the id and the length, then the value from `p2`.
proof fn lemma_entry_head(s: Seq<u8>, p: int, id: u64, len: u64, value: Seq<u8>)
    requires
        0 <= p,
        id <= VARINT_MAX,
        len <= VARINT_MAX,
        p + varint_bytes(id as nat).len() + varint_bytes(len as nat).len() + value.len() <= s.len(),
        s.subrange(p, p + varint_bytes(id as nat).len() + varint_bytes(len as nat).len() + value.len())
            == varint_bytes(id as nat) + varint_bytes(len as nat) + value,
    ensures
        vat(s, p) == Some((id, p + varint_bytes(id as nat).len())),
        vat(s, p + varint_bytes(id as nat).len()) == Some((len, p + varint_bytes(id as nat).len() + varint_bytes(len as nat).len())),
        s.subrange(
            p + varint_bytes(id as nat).len() + varint_bytes(len as nat).len(),
            p + varint_bytes(id as nat).len() + varint_bytes(len as nat).len() + value.len(),
        ) == value,
{
    let a = varint_bytes(id as nat);
    let b = varint_bytes(len as nat);
    lemma_sub_of_sub(s, p, a + b, value);
    lemma_sub_of_sub(s, p, a, b);
    lemma_vat_at(s, p, id);
    lemma_vat_at(s, p + a.len(), len);
}

proof fn lemma_int_entry(s: Seq<u8>, p: int, v: ParamsView, fs: bool, id: u64, x: u64)
    requires
        0 <= p,
        is_int_param(id),
        x <= VARINT_MAX,
        p + int_entry(id, x).len() <= s.len(),
        s.subrange(p, p + int_entry(id, x).len()) == int_entry(id, x),
    ensures
        params_from(s, p, v, fs) == params_from(s, p + int_entry(id, x).len(), ParamsView { common: with_int(v.common, id, x), ..v }, fs),
{
    let len = varint_size(x as nat) as u64;
    lemma_varint_bytes_len(x as nat);
    lemma_varint_bytes_len(id as nat);
    lemma_entry_head(s, p, id, len, varint_bytes(x as nat));
    let p2 = p + varint_bytes(id as nat).len() + varint_bytes(len as nat).len();
    lemma_vat_at(s, p2, x);
    reveal(params_from);
}

proof fn lemma_bytes_entry(s: Seq<u8>, p: int, v: ParamsView, fs: bool, id: u64, b: Seq<u8>)
    requires
        0 <= p,
        b.len() <= 20,
        id <= VARINT_MAX,
        p + bytes_entry(id, b).len() <= s.len(),
        s.subrange(p, p + bytes_entry(id, b).len()) == bytes_entry(id, b),
        apply_param(v, fs, id, s, p + varint_bytes(id as nat).len() + varint_bytes(b.len()).len(), b.len() as int) is Some,
    ensures
        params_from(s, p, v, fs) == params_from(
            s,
            p + bytes_entry(id, b).len(),
            apply_param(v, fs, id, s, p + varint_bytes(id as nat).len() + varint_bytes(b.len()).len(), b.len() as int)->Some_0,
            fs,
        ),
        s.subrange(p + varint_bytes(id as nat).len() + varint_bytes(b.len()).len(), p + bytes_entry(id, b).len()) == b,
{
    lemma_varint_bytes_len(id as nat);
    lemma_entry_head(s, p, id, b.len() as u64, b);
    reveal(params_from);
}

proof fn lemma_int_entries(s: Seq<u8>, p: int, v: ParamsView, fs: bool, l: Seq<(u64, u64)>)
    requires
        0 <= p,
        forall|i: int| 0 <= i < l.len() ==> is_int_param(#[trigger] l[i].0) && l[i].1 <= VARINT_MAX,
        p + int_entries(l).len() <= s.len(),
        s.subrange(p, p + int_entries(l).len()) == int_entries(l),
    ensures
        params_from(s, p, v, fs) == params_from(s, p + int_entries(l).len(), with_ints(v, l), fs),
    decreases l.len(),
{
    if l.len() > 0 {
        let dl = l.drop_last();
        let (id, x) = l.last();
        assert(int_entries(l) == int_entries(dl) + int_entry(id, x));
        lemma_sub_of_sub(s, p, int_entries(dl), int_entry(id, x));
        assert forall|i: int| 0 <= i < dl.len() implies is_int_param(#[trigger] dl[i].0) && dl[i].1 <= VARINT_MAX by {
            assert(dl[i] == l[i]);
        }
        lemma_int_entries(s, p, v, fs, dl);
        assert(is_int_param(l[l.len() - 1].0));
        lemma_int_entry(s, p + int_entries(dl).len(), with_ints(v, dl), fs, id, x);
    }
}

#[verifier::rlimit(40)]
proof fn lemma_common_entries(s: Seq<u8>, p: int, v: ParamsView, fs: bool)
    requires
        0 <= p,
        common_wf(v.common),
        p + common_bytes(v.common).len() <= s.len(),
        s.subrange(p, p + common_bytes(v.common).len()) == common_bytes(v.common),
    ensures
        params_from(s, p, default_view(), fs) == params_from(
            s,
            p + common_bytes(v.common).len(),
            ParamsView { common: v.common, ..default_view() },
            fs,
        ),
{
    let c = v.common;
    let h = int_entries(head_ints(c));
    let m = migration_bytes(c);
    let t = int_entries(tail_ints(c));
    let d = default_view();
    lemma_sub_of_sub(s, p, h + m, t);
    lemma_sub_of_sub(s, p, h, m);
    assert forall|i: int| 0 <= i < head_ints(c).len() implies is_int_param(#[trigger] head_ints(c)[i].0) && head_ints(c)[i].1 <= VARINT_MAX by {}
    lemma_int_entries(s, p, d, fs, head_ints(c));
    reveal_with_fuel(with_ints, 11);
    let v1 = with_ints(d, head_ints(c));
    let p1 = p + h.len();
    let v2 = if c.disable_active_migration {
        ParamsView { common: CommonParameters { disable_active_migration: true, ..v1.common }, ..v1 }
    } else {
        v1
    };
    if c.disable_active_migration {
        lemma_bytes_entry(s, p1, v1, fs, 0x0c, Seq::empty());
    } else {
        assert(m.len() == 0);
    }
    let p2 = p1 + m.len();
    assert forall|i: int| 0 <= i < tail_ints(c).len() implies is_int_param(#[trigger] tail_ints(c)[i].0) && tail_ints(c)[i].1 <= VARINT_MAX by {}
    lemma_int_entries(s, p2, v2, fs, tail_ints(c));
    let v3 = with_ints(v2, tail_ints(c));
    assert(v3 == ParamsView { common: c, ..d });
}

proof fn lemma_scid_entry(s: Seq<u8>, p: int, w: ParamsView, fs: bool, o: Option<Seq<u8>>)
    requires
        0 <= p,
        w.initial_scid is None,
        o matches Some(b) ==> b.len() <= 20,
        p + opt_entry(0x0f, o).len() <= s.len(),
        s.subrange(p, p + opt_entry(0x0f, o).len()) == opt_entry(0x0f, o),
    ensures
        params_from(s, p, w, fs) == params_from(s, p + opt_entry(0x0f, o).len(), ParamsView { initial_scid: o, ..w }, fs),
{
    if let Some(b) = o {
        lemma_bytes_entry(s, p, w, fs, 0x0f, b);
    } else {
        assert(w == ParamsView { initial_scid: o, ..w });
    }
}

proof fn lemma_odcid_entry(s: Seq<u8>, p: int, w: ParamsView, fs: bool, o: Option<Seq<u8>>)
    requires
        0 <= p,
        w.original_dcid is None,
        o matches Some(b) ==> b.len() <= 20 && fs,
        p + opt_entry(0x00, o).len() <= s.len(),
        s.subrange(p, p + opt_entry(0x00, o).len()) == opt_entry(0x00, o),
    ensures
        params_from(s, p, w, fs) == params_from(s, p + opt_entry(0x00, o).len(), ParamsView { original_dcid: o, ..w }, fs),
{
    if let Some(b) = o {
        lemma_bytes_entry(s, p, w, fs, 0x00, b);
    } else {
        assert(w == ParamsView { original_dcid: o, ..w });
    }
}

proof fn lemma_retry_entry(s: Seq<u8>, p: int, w: ParamsView, fs: bool, o: Option<Seq<u8>>)
    requires
        0 <= p,
        w.retry_scid is None,
        o matches Some(b) ==> b.len() <= 20 && fs,
        p + opt_entry(0x10, o).len() <= s.len(),
        s.subrange(p, p + opt_entry(0x10, o).len()) == opt_entry(0x10, o),
    ensures
        params_from(s, p, w, fs) == params_from(s, p + opt_entry(0x10, o).len(), ParamsView { retry_scid: o, ..w }, fs),
{
    if let Some(b) = o {
        lemma_bytes_entry(s, p, w, fs, 0x10, b);
    } else {
        assert(w == ParamsView { retry_scid: o, ..w });
    }
}

proof fn lemma_token_entry(s: Seq<u8>, p: int, w: ParamsView, fs: bool, o: Option<Seq<u8>>)
    requires
        0 <= p,
        w.reset_token is None,
        o matches Some(b) ==> b.len() == 16 && fs,
        p + opt_entry(0x02, o).len() <= s.len(),
        s.subrange(p, p + opt_entry(0x02, o).len()) == opt_entry(0x02, o),
    ensures
        params_from(s, p, w, fs) == params_from(s, p + opt_entry(0x02, o).len(), ParamsView { reset_token: o, ..w }, fs),
{
    if let Some(b) = o {
        lemma_bytes_entry(s, p, w, fs, 0x02, b);
    } else {
        assert(w == ParamsView { reset_token: o, ..w });
    }
}

#[verifier::rlimit(40)]
proof fn lemma_opt_tail(s: Seq<u8>, p0: int, v: ParamsView, fs: bool)
    requires
        0 <= p0,
        v.initial_scid matches Some(b) ==> b.len() <= 20,
        v.original_dcid matches Some(b) ==> b.len() <= 20 && fs,
        v.retry_scid matches Some(b) ==> b.len() <= 20 && fs,
        v.reset_token matches Some(b) ==> b.len() == 16 && fs,
        ({
            let e = opt_entry(0x0f, v.initial_scid) + opt_entry(0x00, v.original_dcid) + opt_entry(0x10, v.retry_scid)
                + opt_entry(0x02, v.reset_token);
            &&& p0 + e.len() == s.len()
            &&& s.subrange(p0, s.len() as int) == e
        }),
    ensures
        params_from(s, p0, ParamsView { common: v.common, ..default_view() }, fs) == Some(v),
{
    let e0 = opt_entry(0x0f, v.initial_scid);
    let e1 = opt_entry(0x00, v.original_dcid);
    let e2 = opt_entry(0x10, v.retry_scid);
    let e3 = opt_entry(0x02, v.reset_token);
    lemma_sub_of_sub(s, p0, e0 + e1 + e2, e3);
    lemma_sub_of_sub(s, p0, e0 + e1, e2);
    lemma_sub_of_sub(s, p0, e0, e1);
    let w0 = ParamsView { common: v.common, ..default_view() };
    lemma_scid_entry(s, p0, w0, fs, v.initial_scid);
    let w1 = ParamsView { initial_scid: v.initial_scid, ..w0 };
    let p1 = p0 + e0.len();
    lemma_odcid_entry(s, p1, w1, fs, v.original_dcid);
    let w2 = ParamsView { original_dcid: v.original_dcid, ..w1 };
    let p2 = p1 + e1.len();
    lemma_retry_entry(s, p2, w2, fs, v.retry_scid);
    let w3 = ParamsView { retry_scid: v.retry_scid, ..w2 };
    let p3 = p2 + e2.len();
    lemma_token_entry(s, p3, w3, fs, v.reset_token);
    let w4 = ParamsView { reset_token: v.reset_token, ..w3 };
    assert(w4 == v);
    assert(p3 + e3.len() == s.len());
    reveal(params_from);
}

/// Reading the encoding of a parameter set by the role it came from gives
/// the same set: a client's set read by a server, a server's set read by a
/// client.
#[verifier::rlimit(40)]
pub proof fn lemma_params_round_trip(v: ParamsView, from_server: bool)
    requires
        common_wf(v.common),
        v.initial_scid matches Some(b) ==> b.len() <= 20,
        v.original_dcid matches Some(b) ==> b.len() <= 20 && from_server,
        v.retry_scid matches Some(b) ==> b.len() <= 20 && from_server,
        v.reset_token matches Some(b) ==> b.len() == 16 && from_server,
    ensures
        params_from(params_bytes(v), 0, default_view(), from_server) == Some(v),
{
    let s = params_bytes(v);
    let cb = common_bytes(v.common);
    let e = opt_entry(0x0f, v.initial_scid) + opt_entry(0x00, v.original_dcid) + opt_entry(0x10, v.retry_scid)
        + opt_entry(0x02, v.reset_token);
    let e0 = opt_entry(0x0f, v.initial_scid);
    let e1 = opt_entry(0x00, v.original_dcid);
    let e2 = opt_entry(0x10, v.retry_scid);
    let e3 = opt_entry(0x02, v.reset_token);
    vstd::seq_lib::lemma_concat_associative(cb + e0 + e1, e2, e3);
    vstd::seq_lib::lemma_concat_associative(cb + e0, e1, e2 + e3);
    vstd::seq_lib::lemma_concat_associative(cb, e0, e1 + (e2 + e3));
    vstd::seq_lib::lemma_concat_associative(e0, e1, e2);
    vstd::seq_lib::lemma_concat_associative(e0 + e1, e2, e3);
    vstd::seq_lib::lemma_concat_associative(e0, e1, e2 + e3);
    assert(s == cb + e);
    assert(s.subrange(0, s.len() as int) =~= s);
    lemma_sub_of_sub(s, 0, cb, e);
    lemma_common_entries(s, 0, v, from_server);
    lemma_opt_tail(s, cb.len() as int, v, from_server);
}

} // verus!
