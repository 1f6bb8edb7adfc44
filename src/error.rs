//! Transport errors: a kind, the frame type it is keyed to, and a reason.

use vstd::prelude::*;

verus! {

/// Transport error codes.
#[derive(Clone, Copy, Debug, PartialEq, Eq, Structural)]
pub enum ErrorKind {
    Internal,
    ConnectionRefused,
    FlowControl,
    StreamLimit,
    StreamState,
    FinalSize,
    FrameEncoding,
    TransportParameter,
    ConnectionIdLimit,
    ProtocolViolation,
    InvalidToken,
    Application,
    CryptoBufferExceeded,
    KeyUpdate,
    AeadLimitReached,
    NoViablePath,
    /// A TLS alert, carried as `0x0100 + alert`.
    Crypto(u8),
}

impl ErrorKind {
    /// The wire code of the error.
    pub fn code(&self) -> (r: u64)
        ensures
            r == self.spec_code(),
    {
        match self {
            ErrorKind::Internal => 0x01,
            ErrorKind::ConnectionRefused => 0x02,
            ErrorKind::FlowControl => 0x03,
            ErrorKind::StreamLimit => 0x04,
            ErrorKind::StreamState => 0x05,
            ErrorKind::FinalSize => 0x06,
            ErrorKind::FrameEncoding => 0x07,
            ErrorKind::TransportParameter => 0x08,
            ErrorKind::ConnectionIdLimit => 0x09,
            ErrorKind::ProtocolViolation => 0x0a,
            ErrorKind::InvalidToken => 0x0b,
            ErrorKind::Application => 0x0c,
            ErrorKind::CryptoBufferExceeded => 0x0d,
            ErrorKind::KeyUpdate => 0x0e,
            ErrorKind::AeadLimitReached => 0x0f,
            ErrorKind::NoViablePath => 0x10,
            ErrorKind::Crypto(a) => 0x0100 + *a as u64,
        }
    }

    pub open spec fn spec_code(&self) -> u64 {
        match self {
            ErrorKind::Internal => 0x01,
            ErrorKind::ConnectionRefused => 0x02,
            ErrorKind::FlowControl => 0x03,
            ErrorKind::StreamLimit => 0x04,
            ErrorKind::StreamState => 0x05,
            ErrorKind::FinalSize => 0x06,
            ErrorKind::FrameEncoding => 0x07,
            ErrorKind::TransportParameter => 0x08,
            ErrorKind::ConnectionIdLimit => 0x09,
            ErrorKind::ProtocolViolation => 0x0a,
            ErrorKind::InvalidToken => 0x0b,
            ErrorKind::Application => 0x0c,
            ErrorKind::CryptoBufferExceeded => 0x0d,
            ErrorKind::KeyUpdate => 0x0e,
            ErrorKind::AeadLimitReached => 0x0f,
            ErrorKind::NoViablePath => 0x10,
            ErrorKind::Crypto(a) => (0x0100 + *a) as u64,
        }
    }
}

/// Frame types, by their wire type (the low bits that vary inside a family
/// are kept in the payload).
#[derive(Clone, Copy, Debug, PartialEq, Eq, Structural)]
pub enum FrameType {
    Padding,
    Ping,
    /// 0x02, or 0x03 with ECN counts.
    Ack(u8),
    ResetStream,
    StopSending,
    Crypto,
    NewToken,
    /// 0x08 to 0x0f; the three low bits are kept.
    Stream(u8),
    MaxData,
    MaxStreamData,
    /// 0 for bidirectional, 1 for unidirectional.
    MaxStreams(u8),
    DataBlocked,
    StreamDataBlocked,
    /// 0 for bidirectional, 1 for unidirectional.
    StreamsBlocked(u8),
    NewConnectionId,
    RetireConnectionId,
    PathChallenge,
    PathResponse,
    /// 0 for a transport close, 1 for an application close.
    ConnectionClose(u8),
    HandshakeDone,
    /// 0 without a length field, 1 with one.
    Datagram(u8),
}

/// A connection error.
#[derive(Clone, Copy, Debug)]
pub struct Error {
    pub kind: ErrorKind,
    pub frame_type: FrameType,
    pub reason: &'static str,
}

impl Error {
    pub fn new(kind: ErrorKind, frame_type: FrameType, reason: &'static str) -> (r: Error)
        ensures
            r.kind == kind,
            r.frame_type == frame_type,
            r.reason@ == reason@,
    {
        Error { kind, frame_type, reason }
    }
}

} // verus!
