//! Decisions of the data space: what a received packet holds, where each of
//! its frames goes, and whether a packet may be assembled.
use vstd::prelude::*;

use crate::error::{ErrorKind, QuicError};
use crate::frame_type::{specs_of, FrameFeture, FrameType, PacketType, Spec};
use crate::frames::{CryptoFrame, ReliableFrame, StreamFrame};
use crate::tx::Signals;

verus! {

/// What the frames of a received packet add up to.
#[derive(Debug, Clone, Copy, PartialEq, Eq, Structural)]
pub struct PacketContains {
    /// Some frame calls for an acknowledgment.
    pub ack_eliciting: bool,
    /// Some frame counts toward bytes in flight.
    pub in_flight: bool,
    /// Some frame may not probe a new path.
    pub non_probing: bool,
    /// Some frame's contents are flow controlled.
    pub flow_controlled: bool,
}

/// The summary after one more frame of type `t`.
pub open spec fn with_frame_spec(c: PacketContains, t: FrameType) -> PacketContains {
    let s = specs_of(t);
    PacketContains {
        ack_eliciting: c.ack_eliciting || s & 1 == 0,
        in_flight: c.in_flight || s & 2 == 0,
        non_probing: c.non_probing || s & 4 == 0,
        flow_controlled: c.flow_controlled || s & 8 != 0,
    }
}

impl PacketContains {
    /// The summary of a packet with no frames.
    pub fn new() -> (r: Self)
        ensures
            r == (PacketContains {
                ack_eliciting: false,
                in_flight: false,
                non_probing: false,
                flow_controlled: false,
            }),
    {
        PacketContains {
            ack_eliciting: false,
            in_flight: false,
            non_probing: false,
            flow_controlled: false,
        }
    }

    /// Adds a frame of type `frame_type` to the summary.
    pub fn with_frame(self, frame_type: FrameType) -> (r: Self)
        ensures
            r == with_frame_spec(self, frame_type),
    {
        let s = frame_type.specs();
        PacketContains {
            ack_eliciting: self.ack_eliciting || s & Spec::NonAckEliciting.bit() == 0,
            in_flight: self.in_flight || s & Spec::CongestionControlFree.bit() == 0,
            non_probing: self.non_probing || s & Spec::ProbeNewPath.bit() == 0,
            flow_controlled: self.flow_controlled || s & Spec::FlowControlled.bit() != 0,
        }
    }

    /// Whether the packet calls for an acknowledgment.
    pub fn ack_eliciting(&self) -> (r: bool)
        ensures
            r == self.ack_eliciting,
    {
        self.ack_eliciting
    }

    /// Whether every frame of the packet may probe a new path.
    pub fn is_probing(&self) -> (r: bool)
        ensures
            r == !self.non_probing,
    {
        !self.non_probing
    }
}

/// The subsystem a received frame is handed to.
#[derive(Debug, Clone, Copy, PartialEq, Eq, Structural)]
pub enum Route {
    /// ACK: congestion control, the sent journal and the received journal.
    Ack,
    /// NEW_TOKEN: the token registry.
    TokenRegistry,
    /// MAX_DATA: the connection's send flow control.
    FlowControlSender,
    /// DATA_BLOCKED: the connection's receive flow control.
    FlowControlReceiver,
    /// NEW_CONNECTION_ID: the registry of the peer's connection IDs.
    RemoteCids,
    /// RETIRE_CONNECTION_ID: the registry of local connection IDs.
    LocalCids,
    /// HANDSHAKE_DONE: the handshake, on a client.
    Handshake,
    /// PATH_CHALLENGE and PATH_RESPONSE: the path the packet came on.
    Path,
    /// STREAM and the stream control frames: the stream manager.
    Streams,
    /// CRYPTO: the crypto stream of the epoch.
    CryptoStream,
    /// DATAGRAM: the datagram flow.
    Datagrams,
    /// CONNECTION_CLOSE in a 1-RTT packet: the connection is closed.
    Closed,
    /// Nothing to do: PADDING, PING, or a CONNECTION_CLOSE in a 0-RTT packet.
    Drop,
}

/// Where the data space sends a frame of type `t` from a packet of type `p`.
pub open spec fn route_spec(t: FrameType, p: PacketType, is_server: bool) -> Result<Route, ErrorKind> {
    match t {
        FrameType::Ack(_) => Ok(Route::Ack),
        FrameType::NewToken => Ok(Route::TokenRegistry),
        FrameType::MaxData => Ok(Route::FlowControlSender),
        FrameType::DataBlocked => Ok(Route::FlowControlReceiver),
        FrameType::NewConnectionId => Ok(Route::RemoteCids),
        FrameType::RetireConnectionId => Ok(Route::LocalCids),
        FrameType::HandshakeDone => if is_server {
            Err(ErrorKind::ProtocolViolation)
        } else {
            Ok(Route::Handshake)
        },
        FrameType::PathChallenge | FrameType::PathResponse => Ok(Route::Path),
        FrameType::Stream(_) | FrameType::ResetStream | FrameType::StopSending
        | FrameType::MaxStreamData | FrameType::MaxStreams(_) | FrameType::StreamDataBlocked
        | FrameType::StreamsBlocked(_) => Ok(Route::Streams),
        FrameType::Crypto => Ok(Route::CryptoStream),
        FrameType::Datagram(_) => Ok(Route::Datagrams),
        FrameType::ConnectionClose(_) => if p == PacketType::OneRtt {
            Ok(Route::Closed)
        } else {
            Ok(Route::Drop)
        },
        FrameType::Padding | FrameType::Ping => Ok(Route::Drop),
    }
}

/// Routes a frame of type `frame_type` received in a packet of type
/// `packet_type`; a server that receives HANDSHAKE_DONE has a
/// `ProtocolViolation` on its hands.
pub fn route(frame_type: FrameType, packet_type: PacketType, is_server: bool) -> (r: Result<Route, QuicError>)
    ensures
        match route_spec(frame_type, packet_type, is_server) {
            Ok(x) => r == Ok::<Route, QuicError>(x),
            Err(k) => r matches Err(e) && e.spec_kind() == k && e.spec_frame_type() == frame_type,
        },
{
    match frame_type {
        FrameType::Ack(_) => Ok(Route::Ack),
        FrameType::NewToken => Ok(Route::TokenRegistry),
        FrameType::MaxData => Ok(Route::FlowControlSender),
        FrameType::DataBlocked => Ok(Route::FlowControlReceiver),
        FrameType::NewConnectionId => Ok(Route::RemoteCids),
        FrameType::RetireConnectionId => Ok(Route::LocalCids),
        FrameType::HandshakeDone => {
            if is_server {
                Err(
                    QuicError::new(
                        ErrorKind::ProtocolViolation,
                        frame_type,
                        "a server received a HANDSHAKE_DONE frame",
                    ),
                )
            } else {
                Ok(Route::Handshake)
            }
        },
        FrameType::PathChallenge | FrameType::PathResponse => Ok(Route::Path),
        FrameType::Stream(_) | FrameType::ResetStream | FrameType::StopSending
        | FrameType::MaxStreamData | FrameType::MaxStreams(_) | FrameType::StreamDataBlocked
        | FrameType::StreamsBlocked(_) => Ok(Route::Streams),
        FrameType::Crypto => Ok(Route::CryptoStream),
        FrameType::Datagram(_) => Ok(Route::Datagrams),
        FrameType::ConnectionClose(_) => {
            if packet_type == PacketType::OneRtt {
                Ok(Route::Closed)
            } else {
                Ok(Route::Drop)
            }
        },
        FrameType::Padding | FrameType::Ping => Ok(Route::Drop),
    }
}

/// Whether a 0-RTT packet may be assembled: not once 1-RTT keys are there
/// (skipped without a signal), not without 0-RTT keys (`KEYS`).
pub fn zero_rtt_gate(has_one_rtt_keys: bool, has_zero_rtt_keys: bool) -> (r: Result<(), Signals>)
    ensures
        has_one_rtt_keys ==> (r matches Err(s) && s.spec_bits() == 0),
        !has_one_rtt_keys && !has_zero_rtt_keys ==> (r matches Err(s) && s.spec_bits() == 8),
        !has_one_rtt_keys && has_zero_rtt_keys ==> r is Ok,
{
    if has_one_rtt_keys {
        Err(Signals::empty())
    } else if !has_zero_rtt_keys {
        Err(Signals::keys())
    } else {
        Ok(())
    }
}

/// Whether a 1-RTT, probe or ping packet may be assembled: not without 1-RTT
/// keys (`KEYS`).
pub fn one_rtt_gate(has_one_rtt_keys: bool) -> (r: Result<(), Signals>)
    ensures
        has_one_rtt_keys ==> r is Ok,
        !has_one_rtt_keys ==> (r matches Err(s) && s.spec_bits() == 8),
{
    if has_one_rtt_keys {
        Ok(())
    } else {
        Err(Signals::keys())
    }
}

/// The outcome of an assembly attempt: the packet if any frame was written,
/// else the signals the sources gave.
pub fn assembly_outcome(wrote_frames: bool, signals: Signals) -> (r: Result<(), Signals>)
    ensures
        wrote_frames ==> r is Ok,
        !wrote_frames ==> r == Err::<(), Signals>(signals),
{
    if wrote_frames {
        Ok(())
    } else {
        Err(signals)
    }
}

/// The acknowledgment a 1-RTT packet carries, as (largest, time received):
/// the one congestion control asks for, else the one the received journal
/// has due; `TRANSPORT` when there is neither.
pub fn ack_to_send(need_ack: Option<(u64, u64)>, due_ack: Option<(u64, u64)>) -> (r: Result<(u64, u64), Signals>)
    ensures
        need_ack matches Some(a) ==> r == Ok::<(u64, u64), Signals>(a),
        need_ack is None ==> (due_ack matches Some(a) ==> r == Ok::<(u64, u64), Signals>(a)),
        need_ack is None && due_ack is None ==> (r matches Err(s) && s.spec_bits() == 16),
{
    match need_ack {
        Some(a) => Ok(a),
        None => match due_ack {
            Some(a) => Ok(a),
            None => Err(Signals::transport()),
        },
    }
}

/// Where the frames of a packet that may be lost go back to.
#[derive(Debug, Clone, Copy, PartialEq, Eq, Structural)]
pub enum LossTarget {
    /// CRYPTO data: the crypto stream's outgoing side.
    CryptoStream,
    /// STREAM data: the stream manager.
    Streams,
    /// Other reliable frames: the reliable-frame outbox, to be sent again as they are.
    ReliableFrames,
}

/// The frames a data space records in its sent journal.
#[derive(Debug, Clone, PartialEq, Eq)]
pub enum GuaranteedFrame {
    Crypto(CryptoFrame),
    Stream(StreamFrame),
    Reliable(ReliableFrame),
}

/// Where a frame of a packet that may be lost is handed back to.
pub fn loss_target(frame: &GuaranteedFrame) -> (r: LossTarget)
    ensures
        r == match *frame {
            GuaranteedFrame::Crypto(_) => LossTarget::CryptoStream,
            GuaranteedFrame::Stream(_) => LossTarget::Streams,
            GuaranteedFrame::Reliable(_) => LossTarget::ReliableFrames,
        },
{
    match frame {
        GuaranteedFrame::Crypto(_) => LossTarget::CryptoStream,
        GuaranteedFrame::Stream(_) => LossTarget::Streams,
        GuaranteedFrame::Reliable(_) => LossTarget::ReliableFrames,
    }
}

} // verus!
