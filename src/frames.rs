//! The frames of QUIC version 1 and their bodies (RFC 9000, section 19).
use bytes::Bytes;
use vstd::prelude::*;

use crate::frame_type::FrameType;
use crate::varint::VarInt;

verus! {

/// Gives the type of a frame.
pub trait GetFrameType {
    /// The type of the frame.
    spec fn spec_frame_type(&self) -> FrameType;

    /// The type of the frame.
    fn frame_type(&self) -> (r: FrameType)
        ensures
            r == self.spec_frame_type(),
    ;
}

/// Implemented by what sends frames of type `T` to the peer, directly or
/// through a buffer that is drained into packets later.
pub trait SendFrame<T> {
    /// Queues the frames to be sent to the peer.
    fn send_frame(&self, frames: Vec<T>);
}

/// Implemented by what receives frames of type `T` from the peer.
pub trait ReceiveFrame<T> {
    type Output;

    /// Takes in a frame from the peer.
    fn recv_frame(&self, frame: &T) -> Result<Self::Output, crate::error::QuicError>;
}

/// Sizes of a frame's encoding.
pub trait EncodeFrame {
    /// An upper bound of the encoding's size, to budget a packet with.
    fn max_encoding_size(&self) -> usize {
        1
    }

    /// The exact size of the encoding.
    fn encoding_size(&self) -> usize {
        1
    }
}

/// A PADDING frame.
#[derive(Debug, Clone, Copy, PartialEq, Eq, Structural)]
pub struct PaddingFrame;

/// A PING frame.
#[derive(Debug, Clone, Copy, PartialEq, Eq, Structural)]
pub struct PingFrame;

/// A HANDSHAKE_DONE frame.
#[derive(Debug, Clone, Copy, PartialEq, Eq, Structural)]
pub struct HandshakeDoneFrame;

impl EncodeFrame for PaddingFrame {}

impl EncodeFrame for PingFrame {}

impl EncodeFrame for HandshakeDoneFrame {}

/// The ECN counts an ACK frame may carry.
#[derive(Debug, Clone, Copy, PartialEq, Eq, Structural)]
pub struct EcnCounts {
    pub ect0: VarInt,
    pub ect1: VarInt,
    pub ce: VarInt,
}

/// An ACK frame: the largest packet number acknowledged, the delay, the
/// first range, further `(gap, length)` ranges, and maybe ECN counts.
#[derive(Debug, Clone, PartialEq, Eq)]
pub struct AckFrame {
    pub largest: VarInt,
    pub delay: VarInt,
    pub first_range: VarInt,
    pub ranges: Vec<(VarInt, VarInt)>,
    pub ecn: Option<EcnCounts>,
}

impl AckFrame {
    /// The largest packet number acknowledged.
    pub fn largest(&self) -> (r: u64)
        ensures
            r == self.largest.value(),
    {
        self.largest.into_inner()
    }
}

impl GetFrameType for AckFrame {
    open spec fn spec_frame_type(&self) -> FrameType {
        FrameType::Ack(if self.ecn is Some { 1 } else { 0 })
    }

    fn frame_type(&self) -> (r: FrameType) {
        match self.ecn {
            Some(_) => FrameType::Ack(1),
            None => FrameType::Ack(0),
        }
    }
}

/// A RESET_STREAM frame.
#[derive(Debug, Clone, Copy, PartialEq, Eq, Structural)]
pub struct ResetStreamFrame {
    pub stream_id: VarInt,
    pub app_error_code: VarInt,
    pub final_size: VarInt,
}

/// A STOP_SENDING frame.
#[derive(Debug, Clone, Copy, PartialEq, Eq, Structural)]
pub struct StopSendingFrame {
    pub stream_id: VarInt,
    pub app_error_code: VarInt,
}

/// A CRYPTO frame's header; its data travels beside it.
#[derive(Debug, Clone, Copy, PartialEq, Eq, Structural)]
pub struct CryptoFrame {
    pub offset: VarInt,
    pub length: VarInt,
}

/// A NEW_TOKEN frame.
#[derive(Debug, Clone, PartialEq, Eq)]
pub struct NewTokenFrame {
    pub token: Vec<u8>,
}

/// A STREAM frame's header; its data travels beside it. `flags` holds the
/// OFF, LEN and FIN bits of the tag.
#[derive(Debug, Clone, Copy, PartialEq, Eq, Structural)]
pub struct StreamFrame {
    pub stream_id: VarInt,
    pub offset: VarInt,
    pub length: usize,
    pub flags: u8,
}

/// A MAX_DATA frame.
#[derive(Debug, Clone, Copy, PartialEq, Eq, Structural)]
pub struct MaxDataFrame {
    pub max_data: VarInt,
}

/// A MAX_STREAM_DATA frame.
#[derive(Debug, Clone, Copy, PartialEq, Eq, Structural)]
pub struct MaxStreamDataFrame {
    pub stream_id: VarInt,
    pub max_stream_data: VarInt,
}

/// A MAX_STREAMS frame; `dir` is 0 for bidirectional, 1 for unidirectional streams.
#[derive(Debug, Clone, Copy, PartialEq, Eq, Structural)]
pub struct MaxStreamsFrame {
    pub dir: u8,
    pub max_streams: VarInt,
}

/// A DATA_BLOCKED frame.
#[derive(Debug, Clone, Copy, PartialEq, Eq, Structural)]
pub struct DataBlockedFrame {
    pub limit: VarInt,
}

/// A STREAM_DATA_BLOCKED frame.
#[derive(Debug, Clone, Copy, PartialEq, Eq, Structural)]
pub struct StreamDataBlockedFrame {
    pub stream_id: VarInt,
    pub limit: VarInt,
}

/// A STREAMS_BLOCKED frame; `dir` is 0 for bidirectional, 1 for unidirectional streams.
#[derive(Debug, Clone, Copy, PartialEq, Eq, Structural)]
pub struct StreamsBlockedFrame {
    pub dir: u8,
    pub limit: VarInt,
}

/// A NEW_CONNECTION_ID frame.
#[derive(Debug, Clone, PartialEq, Eq)]
pub struct NewConnectionIdFrame {
    pub sequence: VarInt,
    pub retire_prior_to: VarInt,
    pub id: Vec<u8>,
    pub reset_token: Vec<u8>,
}

/// A RETIRE_CONNECTION_ID frame.
#[derive(Debug, Clone, Copy, PartialEq, Eq, Structural)]
pub struct RetireConnectionIdFrame {
    pub sequence: VarInt,
}

/// A PATH_CHALLENGE frame with its eight bytes.
#[derive(Debug, Clone, PartialEq, Eq)]
pub struct PathChallengeFrame {
    pub data: Vec<u8>,
}

/// A PATH_RESPONSE frame with its eight bytes.
#[derive(Debug, Clone, PartialEq, Eq)]
pub struct PathResponseFrame {
    pub data: Vec<u8>,
}

/// A CONNECTION_CLOSE frame; `layer` is 0 for the transport variant, which
/// names the frame type that caused it, and 1 for the application variant.
#[derive(Debug, Clone, PartialEq, Eq)]
pub struct ConnectionCloseFrame {
    pub layer: u8,
    pub error_code: VarInt,
    pub frame_type: Option<VarInt>,
    pub reason: Vec<u8>,
}

/// A DATAGRAM frame's header; its data travels beside it.
#[derive(Debug, Clone, Copy, PartialEq, Eq, Structural)]
pub struct DatagramFrame {
    pub with_len: u8,
    pub length: usize,
}

/// The stream frames other than STREAM.
#[derive(Debug, Clone, Copy, PartialEq, Eq, Structural)]
pub enum StreamCtlFrame {
    ResetStream(ResetStreamFrame),
    StopSending(StopSendingFrame),
    MaxStreamData(MaxStreamDataFrame),
    MaxStreams(MaxStreamsFrame),
    StreamDataBlocked(StreamDataBlockedFrame),
    StreamsBlocked(StreamsBlockedFrame),
}

impl GetFrameType for StreamCtlFrame {
    open spec fn spec_frame_type(&self) -> FrameType {
        match *self {
            StreamCtlFrame::ResetStream(_) => FrameType::ResetStream,
            StreamCtlFrame::StopSending(_) => FrameType::StopSending,
            StreamCtlFrame::MaxStreamData(_) => FrameType::MaxStreamData,
            StreamCtlFrame::MaxStreams(f) => FrameType::MaxStreams(f.dir),
            StreamCtlFrame::StreamDataBlocked(_) => FrameType::StreamDataBlocked,
            StreamCtlFrame::StreamsBlocked(f) => FrameType::StreamsBlocked(f.dir),
        }
    }

    fn frame_type(&self) -> (r: FrameType) {
        match *self {
            StreamCtlFrame::ResetStream(_) => FrameType::ResetStream,
            StreamCtlFrame::StopSending(_) => FrameType::StopSending,
            StreamCtlFrame::MaxStreamData(_) => FrameType::MaxStreamData,
            StreamCtlFrame::MaxStreams(f) => FrameType::MaxStreams(f.dir),
            StreamCtlFrame::StreamDataBlocked(_) => FrameType::StreamDataBlocked,
            StreamCtlFrame::StreamsBlocked(f) => FrameType::StreamsBlocked(f.dir),
        }
    }
}

/// The frames that are retransmitted as they are when lost.
#[derive(Debug, Clone, PartialEq, Eq)]
pub enum ReliableFrame {
    NewToken(NewTokenFrame),
    MaxData(MaxDataFrame),
    DataBlocked(DataBlockedFrame),
    NewConnectionId(NewConnectionIdFrame),
    RetireConnectionId(RetireConnectionIdFrame),
    HandshakeDone(HandshakeDoneFrame),
    Stream(StreamCtlFrame),
}

impl GetFrameType for ReliableFrame {
    open spec fn spec_frame_type(&self) -> FrameType {
        match *self {
            ReliableFrame::NewToken(_) => FrameType::NewToken,
            ReliableFrame::MaxData(_) => FrameType::MaxData,
            ReliableFrame::DataBlocked(_) => FrameType::DataBlocked,
            ReliableFrame::NewConnectionId(_) => FrameType::NewConnectionId,
            ReliableFrame::RetireConnectionId(_) => FrameType::RetireConnectionId,
            ReliableFrame::HandshakeDone(_) => FrameType::HandshakeDone,
            ReliableFrame::Stream(f) => f.spec_frame_type(),
        }
    }

    fn frame_type(&self) -> (r: FrameType) {
        match self {
            ReliableFrame::NewToken(_) => FrameType::NewToken,
            ReliableFrame::MaxData(_) => FrameType::MaxData,
            ReliableFrame::DataBlocked(_) => FrameType::DataBlocked,
            ReliableFrame::NewConnectionId(_) => FrameType::NewConnectionId,
            ReliableFrame::RetireConnectionId(_) => FrameType::RetireConnectionId,
            ReliableFrame::HandshakeDone(_) => FrameType::HandshakeDone,
            ReliableFrame::Stream(f) => f.frame_type(),
        }
    }
}

/// All the frames; the data of STREAM, CRYPTO and DATAGRAM frames travels beside them.
#[derive(Debug, Clone)]
pub enum Frame {
    Padding(PaddingFrame),
    Ping(PingFrame),
    Ack(AckFrame),
    Close(ConnectionCloseFrame),
    NewToken(NewTokenFrame),
    MaxData(MaxDataFrame),
    DataBlocked(DataBlockedFrame),
    NewConnectionId(NewConnectionIdFrame),
    RetireConnectionId(RetireConnectionIdFrame),
    HandshakeDone(HandshakeDoneFrame),
    Challenge(PathChallengeFrame),
    Response(PathResponseFrame),
    StreamCtl(StreamCtlFrame),
    Stream(StreamFrame, Bytes),
    Crypto(CryptoFrame, Bytes),
    Datagram(DatagramFrame, Bytes),
}

impl GetFrameType for Frame {
    open spec fn spec_frame_type(&self) -> FrameType {
        match *self {
            Frame::Padding(_) => FrameType::Padding,
            Frame::Ping(_) => FrameType::Ping,
            Frame::Ack(f) => f.spec_frame_type(),
            Frame::Close(f) => FrameType::ConnectionClose(f.layer),
            Frame::NewToken(_) => FrameType::NewToken,
            Frame::MaxData(_) => FrameType::MaxData,
            Frame::DataBlocked(_) => FrameType::DataBlocked,
            Frame::NewConnectionId(_) => FrameType::NewConnectionId,
            Frame::RetireConnectionId(_) => FrameType::RetireConnectionId,
            Frame::HandshakeDone(_) => FrameType::HandshakeDone,
            Frame::Challenge(_) => FrameType::PathChallenge,
            Frame::Response(_) => FrameType::PathResponse,
            Frame::StreamCtl(f) => f.spec_frame_type(),
            Frame::Stream(f, _) => FrameType::Stream(f.flags),
            Frame::Crypto(..) => FrameType::Crypto,
            Frame::Datagram(f, _) => FrameType::Datagram(f.with_len),
        }
    }

    fn frame_type(&self) -> (r: FrameType) {
        match self {
            Frame::Padding(_) => FrameType::Padding,
            Frame::Ping(_) => FrameType::Ping,
            Frame::Ack(f) => f.frame_type(),
            Frame::Close(f) => FrameType::ConnectionClose(f.layer),
            Frame::NewToken(_) => FrameType::NewToken,
            Frame::MaxData(_) => FrameType::MaxData,
            Frame::DataBlocked(_) => FrameType::DataBlocked,
            Frame::NewConnectionId(_) => FrameType::NewConnectionId,
            Frame::RetireConnectionId(_) => FrameType::RetireConnectionId,
            Frame::HandshakeDone(_) => FrameType::HandshakeDone,
            Frame::Challenge(_) => FrameType::PathChallenge,
            Frame::Response(_) => FrameType::PathResponse,
            Frame::StreamCtl(f) => f.frame_type(),
            Frame::Stream(f, _) => FrameType::Stream(f.flags),
            Frame::Crypto(..) => FrameType::Crypto,
            Frame::Datagram(f, _) => FrameType::Datagram(f.with_len),
        }
    }
}

impl From<ReliableFrame> for Frame {
    fn from(frame: ReliableFrame) -> (r: Frame) {
        match frame {
            ReliableFrame::NewToken(f) => Frame::NewToken(f),
            ReliableFrame::MaxData(f) => Frame::MaxData(f),
            ReliableFrame::DataBlocked(f) => Frame::DataBlocked(f),
            ReliableFrame::NewConnectionId(f) => Frame::NewConnectionId(f),
            ReliableFrame::RetireConnectionId(f) => Frame::RetireConnectionId(f),
            ReliableFrame::HandshakeDone(f) => Frame::HandshakeDone(f),
            ReliableFrame::Stream(f) => Frame::StreamCtl(f),
        }
    }
}

impl vstd::std_specs::convert::FromSpecImpl<ReliableFrame> for Frame {
    open spec fn obeys_from_spec() -> bool {
        true
    }

    open spec fn from_spec(frame: ReliableFrame) -> Frame {
        match frame {
            ReliableFrame::NewToken(f) => Frame::NewToken(f),
            ReliableFrame::MaxData(f) => Frame::MaxData(f),
            ReliableFrame::DataBlocked(f) => Frame::DataBlocked(f),
            ReliableFrame::NewConnectionId(f) => Frame::NewConnectionId(f),
            ReliableFrame::RetireConnectionId(f) => Frame::RetireConnectionId(f),
            ReliableFrame::HandshakeDone(f) => Frame::HandshakeDone(f),
            ReliableFrame::Stream(f) => Frame::StreamCtl(f),
        }
    }
}

} // verus!
