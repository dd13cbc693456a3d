//! Protocol errors (RFC 9000, section 20.1).
use vstd::prelude::*;

use crate::frame_type::FrameType;

verus! {

/// The transport error codes this core raises.
#[derive(Debug, Clone, Copy, PartialEq, Eq, Structural)]
pub enum ErrorKind {
    /// The peer broke the protocol in a way no more specific code covers.
    ProtocolViolation,
    /// A frame was badly formatted.
    FrameEncodingError,
    /// The peer sent more data than flow control allowed.
    FlowControlError,
    /// A frame arrived for a stream in a state that does not accept it.
    StreamStateError,
    /// A transport parameter was badly formatted or invalid.
    TransportParameterError,
    /// The handshake failed with the given TLS alert.
    Crypto(u8),
}

/// A protocol error: its kind, the type of the frame it was seen in, and why.
#[derive(Debug, Clone, Copy, PartialEq, Eq)]
pub struct QuicError {
    kind: ErrorKind,
    frame_type: FrameType,
    reason: &'static str,
}

impl QuicError {
    /// The error's kind.
    pub closed spec fn spec_kind(&self) -> ErrorKind {
        self.kind
    }

    /// The type of the frame the error was seen in.
    pub closed spec fn spec_frame_type(&self) -> FrameType {
        self.frame_type
    }

    /// An error of `kind` seen in a frame of type `frame_type`.
    pub fn new(kind: ErrorKind, frame_type: FrameType, reason: &'static str) -> (r: QuicError)
        ensures
            r.spec_kind() == kind,
            r.spec_frame_type() == frame_type,
    {
        QuicError { kind, frame_type, reason }
    }

    /// The error's kind.
    pub fn kind(&self) -> (r: ErrorKind)
        ensures
            r == self.spec_kind(),
    {
        self.kind
    }

    /// The type of the frame the error was seen in.
    pub fn frame_type(&self) -> (r: FrameType)
        ensures
            r == self.spec_frame_type(),
    {
        self.frame_type
    }

    /// Why the error was raised.
    pub fn reason(&self) -> &'static str {
        self.reason
    }
}

/// A close the application asked for: its error code and reason.
#[derive(Debug, Clone, Copy, PartialEq, Eq)]
pub struct AppError {
    pub code: u64,
    pub reason: &'static str,
}

/// Why a connection ended: a protocol error, or the application closing it.
#[derive(Debug, Clone, Copy, PartialEq, Eq)]
pub enum Error {
    Quic(QuicError),
    App(AppError),
}

} // verus!
