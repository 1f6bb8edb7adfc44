//! The receive-path frame dispatcher: where each frame of a decrypted packet
//! goes, which frames a packet space admits, and whether the packet is
//! ack-eliciting. The caller hands each frame on to the subsystem named.

use vstd::prelude::*;
use crate::error::{Error, ErrorKind};
use crate::frame::{frame_views, read_frames, spec_frame_type, spec_is_ack_eliciting, Frame, FrameSpec};
use crate::rcvd::State;
use crate::space::any_ack_eliciting;
use crate::param::Role;
use crate::space::Space;
use crate::frame::frames_from;
use crate::varint::VARINT_MAX;

verus! {

/// The packet space a packet was received in.
#[derive(Clone, Copy, Debug, PartialEq, Eq, Structural)]
pub enum PacketSpace {
    Initial,
    Handshake,
    ZeroRtt,
    OneRtt,
}

/// The subsystem a frame goes to.
#[derive(Clone, Copy, Debug, PartialEq, Eq, Structural)]
pub enum Route {
    /// PADDING and PING: nothing beyond marking the packet.
    Nothing,
    /// CONNECTION_CLOSE: the connection-error sink.
    ConnectionError,
    /// ACK: the path (for congestion control) and the space's sent records.
    Ack,
    /// CRYPTO: the crypto stream of the space.
    Crypto,
    /// STREAM: the stream registry.
    Stream,
    /// MAX_DATA: the connection-level flow-control sender.
    FlowControlSender,
    /// DATA_BLOCKED: the connection-level flow-control receiver.
    FlowControlReceiver,
    /// RESET_STREAM, STOP_SENDING, MAX_STREAM_DATA, STREAM_DATA_BLOCKED,
    /// MAX_STREAMS, STREAMS_BLOCKED: the stream registry and its limits.
    StreamControl,
    /// NEW_CONNECTION_ID: the registry of the peer's connection IDs.
    RemoteCids,
    /// RETIRE_CONNECTION_ID: the registry of local connection IDs.
    LocalCids,
    /// PATH_CHALLENGE and PATH_RESPONSE: the path validator.
    Path,
    /// NEW_TOKEN: the token sink of a client.
    Token,
    /// HANDSHAKE_DONE: the handshake driver of a client.
    HandshakeDone,
    /// DATAGRAM: the datagram receive queue.
    Datagram,
}

/// Where `f` goes when it arrives in `space` at an endpoint of `role`, or
/// `None` when the space or the role forbids it.
pub open spec fn spec_route(f: FrameSpec, space: PacketSpace, role: Role) -> Option<Route> {
    if space == PacketSpace::Initial || space == PacketSpace::Handshake {
        match f {
            FrameSpec::Padding | FrameSpec::Ping => Some(Route::Nothing),
            FrameSpec::Ack { .. } => Some(Route::Ack),
            FrameSpec::Crypto { .. } => Some(Route::Crypto),
            FrameSpec::ConnectionClose { .. } => Some(Route::ConnectionError),
            _ => None,
        }
    } else if space == PacketSpace::ZeroRtt && (f is Ack || f is Crypto || f is HandshakeDone
        || f is NewToken || f is PathResponse || f is RetireConnectionId) {
        None
    } else {
        match f {
            FrameSpec::Padding | FrameSpec::Ping => Some(Route::Nothing),
            FrameSpec::ConnectionClose { .. } => Some(Route::ConnectionError),
            FrameSpec::Ack { .. } => Some(Route::Ack),
            FrameSpec::Crypto { .. } => Some(Route::Crypto),
            FrameSpec::Stream { .. } => Some(Route::Stream),
            FrameSpec::MaxData { .. } => Some(Route::FlowControlSender),
            FrameSpec::DataBlocked { .. } => Some(Route::FlowControlReceiver),
            FrameSpec::ResetStream { .. } | FrameSpec::StopSending { .. } | FrameSpec::MaxStreamData { .. }
            | FrameSpec::StreamDataBlocked { .. } | FrameSpec::MaxStreams { .. }
            | FrameSpec::StreamsBlocked { .. } => Some(Route::StreamControl),
            FrameSpec::NewConnectionId { .. } => Some(Route::RemoteCids),
            FrameSpec::RetireConnectionId { .. } => Some(Route::LocalCids),
            FrameSpec::PathChallenge { .. } | FrameSpec::PathResponse { .. } => Some(Route::Path),
            FrameSpec::NewToken { .. } => if role == Role::Client { Some(Route::Token) } else { None },
            FrameSpec::HandshakeDone => if role == Role::Client { Some(Route::HandshakeDone) } else { None },
            FrameSpec::Datagram { .. } => Some(Route::Datagram),
        }
    }
}

/// Where `f` goes; a frame the space or the role forbids is a
/// PROTOCOL_VIOLATION keyed to its type.
pub fn route_frame(f: &Frame, space: PacketSpace, role: Role) -> (r: Result<Route, Error>)
    ensures
        r is Ok <==> spec_route(f@, space, role) is Some,
        r matches Ok(route) ==> spec_route(f@, space, role) == Some(route),
        r matches Err(e) ==> e.kind == ErrorKind::ProtocolViolation && e.frame_type == spec_frame_type(f@),
{
    let bad = Error::new(ErrorKind::ProtocolViolation, f.frame_type(), "frame not allowed here");
    if space == PacketSpace::Initial || space == PacketSpace::Handshake {
        return match f {
            Frame::Padding | Frame::Ping => Ok(Route::Nothing),
            Frame::Ack(_) => Ok(Route::Ack),
            Frame::Crypto { .. } => Ok(Route::Crypto),
            Frame::ConnectionClose { .. } => Ok(Route::ConnectionError),
            _ => Err(bad),
        };
    }
    if space == PacketSpace::ZeroRtt {
        match f {
            Frame::Ack(_) | Frame::Crypto { .. } | Frame::HandshakeDone | Frame::NewToken { .. }
            | Frame::PathResponse { .. } | Frame::RetireConnectionId { .. } => return Err(bad),
            _ => {},
        }
    }
    match f {
        Frame::Padding | Frame::Ping => Ok(Route::Nothing),
        Frame::ConnectionClose { .. } => Ok(Route::ConnectionError),
        Frame::Ack(_) => Ok(Route::Ack),
        Frame::Crypto { .. } => Ok(Route::Crypto),
        Frame::Stream { .. } => Ok(Route::Stream),
        Frame::MaxData { .. } => Ok(Route::FlowControlSender),
        Frame::DataBlocked { .. } => Ok(Route::FlowControlReceiver),
        Frame::ResetStream { .. } | Frame::StopSending { .. } | Frame::MaxStreamData { .. }
        | Frame::StreamDataBlocked { .. } | Frame::MaxStreams { .. } | Frame::StreamsBlocked { .. } => Ok(
            Route::StreamControl,
        ),
        Frame::NewConnectionId { .. } => Ok(Route::RemoteCids),
        Frame::RetireConnectionId { .. } => Ok(Route::LocalCids),
        Frame::PathChallenge { .. } | Frame::PathResponse { .. } => Ok(Route::Path),
        Frame::NewToken { .. } => if role == Role::Client { Ok(Route::Token) } else { Err(bad) },
        Frame::HandshakeDone => if role == Role::Client { Ok(Route::HandshakeDone) } else { Err(bad) },
        Frame::Datagram { .. } => Ok(Route::Datagram),
    }
}

/// The route of every frame of `fs`, when all of them are admitted.
pub open spec fn all_routed(fs: Seq<FrameSpec>, space: PacketSpace, role: Role) -> bool {
    forall|i: int| 0 <= i < fs.len() ==> (#[trigger] spec_route(fs[i], space, role)) is Some
}

/// The index of the first frame of `fs` from `i` on that is not admitted.
pub open spec fn first_unrouted(fs: Seq<FrameSpec>, space: PacketSpace, role: Role, i: int) -> Option<int>
    decreases fs.len() - i,
{
    if i < 0 || i >= fs.len() {
        None
    } else if spec_route(fs[i], space, role) is None {
        Some(i)
    } else {
        first_unrouted(fs, space, role, i + 1)
    }
}

/// Routes the frames of one packet in order. The result gives each frame's
/// route and whether the packet is ack-eliciting; the first frame that is
/// not admitted makes the whole packet a PROTOCOL_VIOLATION.
pub fn dispatch_frames(frames: &Vec<Frame>, space: PacketSpace, role: Role) -> (r: Result<(Vec<Route>, bool), Error>)
    ensures
        r is Ok <==> all_routed(frame_views(frames@), space, role),
        r matches Ok((routes, eliciting)) ==> {
            &&& routes@.len() == frames@.len()
            &&& forall|i: int| 0 <= i < frames@.len() ==> Some(#[trigger] routes@[i]) == spec_route(frames@[i]@, space, role)
            &&& eliciting == exists|i: int| 0 <= i < frames@.len() && spec_is_ack_eliciting(#[trigger] frames@[i]@)
        },
        r matches Err(e) ==> e.kind == ErrorKind::ProtocolViolation && first_unrouted(frame_views(frames@), space, role, 0)
            is Some && e.frame_type == spec_frame_type(
            frame_views(frames@)[first_unrouted(frame_views(frames@), space, role, 0)->Some_0],
        ),
{
    let ghost fs = frame_views(frames@);
    let mut routes: Vec<Route> = Vec::new();
    let mut eliciting = false;
    let mut i: usize = 0;
    while i < frames.len()
        invariant
            i <= frames@.len(),
            routes@.len() == i,
            forall|j: int| 0 <= j < i ==> Some(#[trigger] routes@[j]) == spec_route(frames@[j]@, space, role),
            eliciting == exists|j: int| 0 <= j < i && spec_is_ack_eliciting(#[trigger] frames@[j]@),
            fs == frame_views(frames@),
            first_unrouted(fs, space, role, 0) == first_unrouted(fs, space, role, i as int),
        decreases frames@.len() - i,
    {
        assert(fs[i as int] == frames@[i as int]@);
        let route = match route_frame(&frames[i], space, role) {
            Ok(x) => x,
            Err(e) => {
                proof {
                    assert(frame_views(frames@)[i as int] == frames@[i as int]@);
                }
                return Err(e);
            },
        };
        if frames[i].is_ack_eliciting() {
            eliciting = true;
        }
        routes.push(route);
        i = i + 1;
    }
    proof {
        assert forall|j: int| 0 <= j < frame_views(frames@).len() implies (#[trigger] spec_route(frame_views(frames@)[j], space, role)) is Some by {
            assert(frame_views(frames@)[j] == frames@[j]@);
            assert(Some(routes@[j]) == spec_route(frames@[j]@, space, role));
        }
    }
    Ok((routes, eliciting))
}

/// Takes a decrypted packet `pn` of `space` in packet space `pspace` at
/// `now`: its frames are routed first, and only a packet whose frames are
/// all admitted is recorded by the space (see `Space::receive`). The frames
/// come back with their routes (ACK frames are for `Space::on_ack_received`);
/// a dropped duplicate gives none. A malformed payload is a FRAME_ENCODING
/// error, a frame the packet space or the role forbids a PROTOCOL_VIOLATION;
/// on any error the space is left as it was.
pub fn receive_and_dispatch<D>(
    space: &mut Space<D>,
    pn: u64,
    payload: &[u8],
    now: u64,
    pspace: PacketSpace,
    role: Role,
) -> (r: Result<(Vec<Frame>, Vec<Route>), Error>)
    requires
        old(space).wf(),
        pn <= VARINT_MAX,
        pn >= old(space).rcvd.offset ==> pn - old(space).rcvd.offset <= usize::MAX,
        old(space).reliable <==> pspace != PacketSpace::ZeroRtt,
    ensures
        final(space).wf(),
        r is Err ==> *final(space) == *old(space),
        (pn < old(space).rcvd.offset || old(space).rcvd.state_at(pn as int).is_rcvd()) ==> (r matches Ok((
            f,
            routes,
        )) && f@.len() == 0 && routes@.len() == 0 && *final(space) == *old(space)),
        !(pn < old(space).rcvd.offset || old(space).rcvd.state_at(pn as int).is_rcvd()) ==> match frames_from(payload@, 0) {
            None => r matches Err(e) && e.kind == ErrorKind::FrameEncoding,
            Some(fs) => (r is Ok <==> all_routed(fs, pspace, role))
                && (r matches Err(e) ==> e.kind == ErrorKind::ProtocolViolation && first_unrouted(fs, pspace, role, 0) is Some
                    && e.frame_type == spec_frame_type(fs[first_unrouted(fs, pspace, role, 0)->Some_0]))
                && (r matches Ok((f, routes)) ==> frame_views(f@) == fs && routes@.len() == fs.len()
                    && (forall|i: int| 0 <= i < fs.len() ==> Some(#[trigger] routes@[i]) == spec_route(fs[i], pspace, role))
                    && final(space).rcvd.state_at(pn as int) == State::spec_rcvd(now, any_ack_eliciting(fs))),
        },
{
    if pn < space.rcvd.offset || space.rcvd.get(pn).is_received() {
        return Ok((Vec::new(), Vec::new()));
    }
    let parsed = match read_frames(payload) {
        Ok(f) => f,
        Err(e) => return Err(e),
    };
    let (routes, _eliciting) = match dispatch_frames(&parsed, pspace, role) {
        Ok(x) => x,
        Err(e) => return Err(e),
    };
    let ghost fs = frame_views(parsed@);
    proof {
        if !old(space).reliable {
            lemma_routed_not_forbidden(fs, pspace, role, 0);
        }
    }
    let frames = match space.receive(pn, payload, now) {
        Ok(f) => f,
        Err(e) => return Err(e),
    };
    Ok((frames, routes))
}

proof fn lemma_routed_not_forbidden(fs: Seq<FrameSpec>, space: PacketSpace, role: Role, i: int)
    requires
        space == PacketSpace::ZeroRtt,
        all_routed(fs, space, role),
        0 <= i,
    ensures
        crate::space::first_forbidden(fs, i) is None,
    decreases fs.len() - i,
{
    if i < fs.len() {
        assert(spec_route(fs[i], space, role) is Some);
        lemma_routed_not_forbidden(fs, space, role, i + 1);
    }
}

} // verus!
