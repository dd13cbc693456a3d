//! Frame types, the packet types that may carry them, and their spec marks
//! (RFC 9000, table 3).
use vstd::prelude::*;

use crate::varint::{decode, decodable, decode_value, len_of_first, VarInt};

verus! {

/// The packet types that carry frames.
#[derive(Debug, Clone, Copy, PartialEq, Eq, Structural)]
pub enum PacketType {
    /// A long-header Initial packet.
    Initial,
    /// A long-header 0-RTT packet.
    ZeroRtt,
    /// A long-header Handshake packet.
    Handshake,
    /// A long-header Retry packet, which carries no frames.
    Retry,
    /// A short-header 1-RTT packet.
    OneRtt,
}

/// The special rules of a frame type.
#[derive(Debug, Clone, Copy, PartialEq, Eq, Structural)]
pub enum Spec {
    /// Packets holding only such frames are not ack-eliciting.
    NonAckEliciting,
    /// Packets holding only such frames do not count toward bytes in flight.
    CongestionControlFree,
    /// Packets holding only such frames may probe a new path.
    ProbeNewPath,
    /// The contents of such frames are flow controlled.
    FlowControlled,
}

/// The bit that stands for a spec in a spec set.
pub open spec fn spec_bit(s: Spec) -> u8 {
    match s {
        Spec::NonAckEliciting => 1,
        Spec::CongestionControlFree => 2,
        Spec::ProbeNewPath => 4,
        Spec::FlowControlled => 8,
    }
}

impl Spec {
    /// The bit that stands for this spec in a spec set.
    pub fn bit(self) -> (r: u8)
        ensures
            r == spec_bit(self),
    {
        match self {
            Spec::NonAckEliciting => 1,
            Spec::CongestionControlFree => 2,
            Spec::ProbeNewPath => 4,
            Spec::FlowControlled => 8,
        }
    }
}

/// A set of specs, read as a bit set.
pub trait ContainSpec {
    /// Whether the set holds `spec`.
    spec fn spec_contain(&self, spec: Spec) -> bool;

    /// Whether the set holds `spec`.
    fn contain(&self, spec: Spec) -> (r: bool)
        ensures
            r == self.spec_contain(spec),
    ;
}

impl ContainSpec for u8 {
    open spec fn spec_contain(&self, spec: Spec) -> bool {
        *self & spec_bit(spec) != 0
    }

    fn contain(&self, spec: Spec) -> (r: bool) {
        *self & spec.bit() != 0
    }
}

/// The frame types of QUIC version 1; the `u8` holds the flag bits of the tag.
#[derive(Debug, Clone, Copy, PartialEq, Eq, Structural)]
pub enum FrameType {
    Padding,
    Ping,
    /// The bit says whether ECN counts are present.
    Ack(u8),
    ResetStream,
    StopSending,
    Crypto,
    NewToken,
    /// The three bits are OFF, LEN and FIN.
    Stream(u8),
    MaxData,
    MaxStreamData,
    /// The bit gives the stream direction: 0 bidirectional, 1 unidirectional.
    MaxStreams(u8),
    DataBlocked,
    StreamDataBlocked,
    /// The bit gives the stream direction: 0 bidirectional, 1 unidirectional.
    StreamsBlocked(u8),
    NewConnectionId,
    RetireConnectionId,
    PathChallenge,
    PathResponse,
    /// The bit gives the layer: 0 the transport (tag 0x1c), 1 the application (tag 0x1d).
    ConnectionClose(u8),
    HandshakeDone,
    /// The bit says whether a length field is present.
    Datagram(u8),
}

/// The frame type that a tag stands for, if any.
pub open spec fn type_of_tag(v: u64) -> Option<FrameType> {
    if v == 0x00 {
        Some(FrameType::Padding)
    } else if v == 0x01 {
        Some(FrameType::Ping)
    } else if v == 0x02 || v == 0x03 {
        Some(FrameType::Ack((v - 0x02) as u8))
    } else if v == 0x04 {
        Some(FrameType::ResetStream)
    } else if v == 0x05 {
        Some(FrameType::StopSending)
    } else if v == 0x06 {
        Some(FrameType::Crypto)
    } else if v == 0x07 {
        Some(FrameType::NewToken)
    } else if 0x08 <= v <= 0x0f {
        Some(FrameType::Stream((v - 0x08) as u8))
    } else if v == 0x10 {
        Some(FrameType::MaxData)
    } else if v == 0x11 {
        Some(FrameType::MaxStreamData)
    } else if v == 0x12 || v == 0x13 {
        Some(FrameType::MaxStreams((v - 0x12) as u8))
    } else if v == 0x14 {
        Some(FrameType::DataBlocked)
    } else if v == 0x15 {
        Some(FrameType::StreamDataBlocked)
    } else if v == 0x16 || v == 0x17 {
        Some(FrameType::StreamsBlocked((v - 0x16) as u8))
    } else if v == 0x18 {
        Some(FrameType::NewConnectionId)
    } else if v == 0x19 {
        Some(FrameType::RetireConnectionId)
    } else if v == 0x1a {
        Some(FrameType::PathChallenge)
    } else if v == 0x1b {
        Some(FrameType::PathResponse)
    } else if v == 0x1c || v == 0x1d {
        Some(FrameType::ConnectionClose((v - 0x1c) as u8))
    } else if v == 0x1e {
        Some(FrameType::HandshakeDone)
    } else if v == 0x30 || v == 0x31 {
        Some(FrameType::Datagram((v - 0x30) as u8))
    } else {
        None
    }
}

/// The tag of a frame type: the base tag with the flag bits or-ed in.
pub open spec fn tag_of_type(t: FrameType) -> u64 {
    match t {
        FrameType::Padding => 0x00,
        FrameType::Ping => 0x01,
        FrameType::Ack(ecn) => (0x02u8 | ecn) as u64,
        FrameType::ResetStream => 0x04,
        FrameType::StopSending => 0x05,
        FrameType::Crypto => 0x06,
        FrameType::NewToken => 0x07,
        FrameType::Stream(flag) => (0x08u8 | flag) as u64,
        FrameType::MaxData => 0x10,
        FrameType::MaxStreamData => 0x11,
        FrameType::MaxStreams(dir) => (0x12u8 | dir) as u64,
        FrameType::DataBlocked => 0x14,
        FrameType::StreamDataBlocked => 0x15,
        FrameType::StreamsBlocked(dir) => (0x16u8 | dir) as u64,
        FrameType::NewConnectionId => 0x18,
        FrameType::RetireConnectionId => 0x19,
        FrameType::PathChallenge => 0x1a,
        FrameType::PathResponse => 0x1b,
        FrameType::ConnectionClose(layer) => (0x1cu8 | layer) as u64,
        FrameType::HandshakeDone => 0x1e,
        FrameType::Datagram(with_len) => (0x30u8 | with_len) as u64,
    }
}

/// Whether the flag bits of a frame type are within its tag's range.
pub open spec fn well_formed(t: FrameType) -> bool {
    match t {
        FrameType::Ack(b) => b <= 1,
        FrameType::Stream(b) => b <= 7,
        FrameType::MaxStreams(b) => b <= 1,
        FrameType::StreamsBlocked(b) => b <= 1,
        FrameType::ConnectionClose(b) => b <= 1,
        FrameType::Datagram(b) => b <= 1,
        _ => true,
    }
}

/// Whether RFC 9000 permits frames of type `t` in packets of type `p`.
pub open spec fn admissible(t: FrameType, p: PacketType) -> bool {
    let i = p == PacketType::Initial;
    let h = p == PacketType::Handshake;
    let o = p == PacketType::ZeroRtt;
    let l = p == PacketType::OneRtt;
    match t {
        FrameType::Padding | FrameType::Ping => i || h || o || l,
        FrameType::Ack(_) | FrameType::Crypto => i || h || l,
        FrameType::NewToken | FrameType::PathResponse | FrameType::HandshakeDone => l,
        FrameType::ConnectionClose(layer) => if layer == 0 {
            i || h || o || l
        } else {
            o || l
        },
        _ => o || l,
    }
}

/// The spec set of a frame type.
pub open spec fn specs_of(t: FrameType) -> u8 {
    match t {
        FrameType::Padding => 1u8 | 4u8,
        FrameType::Ack(_) => 1u8 | 2u8,
        FrameType::Stream(_) => 8,
        FrameType::NewConnectionId => 4,
        FrameType::PathChallenge => 4,
        FrameType::PathResponse => 4,
        FrameType::ConnectionClose(_) => 1u8 | 2u8,
        _ => 0,
    }
}

/// What a frame type says of itself: where it may travel and its spec set.
pub trait FrameFeture {
    /// Whether the frame may be carried in a packet of type `packet_type`.
    spec fn spec_belongs_to(&self, packet_type: PacketType) -> bool;

    /// The frame's spec set.
    spec fn spec_specs(&self) -> u8;

    /// Whether the frame may be carried in a packet of type `packet_type`.
    fn belongs_to(&self, packet_type: PacketType) -> (r: bool)
        ensures
            r == self.spec_belongs_to(packet_type),
    ;

    /// The frame's spec set.
    fn specs(&self) -> (r: u8)
        ensures
            r == self.spec_specs(),
    ;
}

impl FrameFeture for FrameType {
    open spec fn spec_belongs_to(&self, packet_type: PacketType) -> bool {
        admissible(*self, packet_type)
    }

    open spec fn spec_specs(&self) -> u8 {
        specs_of(*self)
    }

    fn belongs_to(&self, packet_type: PacketType) -> (r: bool) {
        let i = packet_type == PacketType::Initial;
        let h = packet_type == PacketType::Handshake;
        let o = packet_type == PacketType::ZeroRtt;
        let l = packet_type == PacketType::OneRtt;
        match self {
            FrameType::Padding => i || h || o || l,
            FrameType::Ping => i || h || o || l,
            FrameType::Ack(_) => i || h || l,
            FrameType::ResetStream => o || l,
            FrameType::StopSending => o || l,
            FrameType::Crypto => i || h || l,
            FrameType::NewToken => l,
            FrameType::Stream(_) => o || l,
            FrameType::MaxData => o || l,
            FrameType::MaxStreamData => o || l,
            FrameType::MaxStreams(_) => o || l,
            FrameType::DataBlocked => o || l,
            FrameType::StreamDataBlocked => o || l,
            FrameType::StreamsBlocked(_) => o || l,
            FrameType::NewConnectionId => o || l,
            FrameType::RetireConnectionId => o || l,
            FrameType::PathChallenge => o || l,
            FrameType::PathResponse => l,
            // The transport variant (0x1c) may travel in any packet; the
            // application variant (0x1d) only in 0-RTT and 1-RTT packets,
            // see RFC 9000 section 12.5.
            FrameType::ConnectionClose(layer) => {
                if *layer == 0 {
                    i || h || o || l
                } else {
                    o || l
                }
            },
            FrameType::HandshakeDone => l,
            FrameType::Datagram(_) => o || l,
        }
    }

    fn specs(&self) -> (r: u8) {
        let n = Spec::NonAckEliciting.bit();
        let c = Spec::CongestionControlFree.bit();
        let p = Spec::ProbeNewPath.bit();
        let f = Spec::FlowControlled.bit();
        match self {
            FrameType::Padding => n | p,
            FrameType::Ack(_) => n | c,
            FrameType::Stream(_) => f,
            FrameType::NewConnectionId => p,
            FrameType::PathChallenge => p,
            FrameType::PathResponse => p,
            FrameType::ConnectionClose(_) => n | c,
            _ => 0,
        }
    }
}

/// Why a frame could not be read.
#[derive(Debug, Clone, Copy, PartialEq, Eq, Structural)]
pub enum FrameError {
    /// The input ends inside the frame type's encoding.
    IncompleteType,
    /// The tag names no frame type of QUIC version 1; it may be an extension frame.
    InvalidType(VarInt),
    /// The frame type may not travel in the packet type.
    WrongType(FrameType, PacketType),
    /// The frame's body is cut short or malformed.
    IncompleteFrame(FrameType),
}

/// The frame type of a tag, or `InvalidType` with the tag.
pub open spec fn parse_type_spec(v: VarInt) -> Result<FrameType, FrameError> {
    match type_of_tag(v.value()) {
        Some(t) => Ok(t),
        None => Err(FrameError::InvalidType(v)),
    }
}

impl TryFrom<VarInt> for FrameType {
    type Error = FrameError;

    fn try_from(frame_type: VarInt) -> (r: Result<FrameType, FrameError>) {
        let v = frame_type.into_inner();
        if v == 0x00 {
            Ok(FrameType::Padding)
        } else if v == 0x01 {
            Ok(FrameType::Ping)
        } else if v == 0x02 || v == 0x03 {
            Ok(FrameType::Ack((v - 0x02) as u8))
        } else if v == 0x04 {
            Ok(FrameType::ResetStream)
        } else if v == 0x05 {
            Ok(FrameType::StopSending)
        } else if v == 0x06 {
            Ok(FrameType::Crypto)
        } else if v == 0x07 {
            Ok(FrameType::NewToken)
        } else if 0x08 <= v && v <= 0x0f {
            Ok(FrameType::Stream((v - 0x08) as u8))
        } else if v == 0x10 {
            Ok(FrameType::MaxData)
        } else if v == 0x11 {
            Ok(FrameType::MaxStreamData)
        } else if v == 0x12 || v == 0x13 {
            Ok(FrameType::MaxStreams((v - 0x12) as u8))
        } else if v == 0x14 {
            Ok(FrameType::DataBlocked)
        } else if v == 0x15 {
            Ok(FrameType::StreamDataBlocked)
        } else if v == 0x16 || v == 0x17 {
            Ok(FrameType::StreamsBlocked((v - 0x16) as u8))
        } else if v == 0x18 {
            Ok(FrameType::NewConnectionId)
        } else if v == 0x19 {
            Ok(FrameType::RetireConnectionId)
        } else if v == 0x1a {
            Ok(FrameType::PathChallenge)
        } else if v == 0x1b {
            Ok(FrameType::PathResponse)
        } else if v == 0x1c || v == 0x1d {
            Ok(FrameType::ConnectionClose((v - 0x1c) as u8))
        } else if v == 0x1e {
            Ok(FrameType::HandshakeDone)
        } else if v == 0x30 || v == 0x31 {
            Ok(FrameType::Datagram((v - 0x30) as u8))
        } else {
            Err(FrameError::InvalidType(frame_type))
        }
    }
}

impl vstd::std_specs::convert::TryFromSpecImpl<VarInt> for FrameType {
    open spec fn obeys_try_from_spec() -> bool {
        true
    }

    open spec fn try_from_spec(v: VarInt) -> Result<FrameType, FrameError> {
        parse_type_spec(v)
    }
}

impl FrameType {
    /// The tag of this frame type, as a variable-length integer.
    pub fn to_varint(&self) -> (r: VarInt)
        ensures
            r.value() == tag_of_type(*self),
    {
        match *self {
            FrameType::Padding => VarInt::from_u32(0x00),
            FrameType::Ping => VarInt::from_u32(0x01),
            FrameType::Ack(ecn) => VarInt::from_u32((0x02u8 | ecn) as u32),
            FrameType::ResetStream => VarInt::from_u32(0x04),
            FrameType::StopSending => VarInt::from_u32(0x05),
            FrameType::Crypto => VarInt::from_u32(0x06),
            FrameType::NewToken => VarInt::from_u32(0x07),
            FrameType::Stream(flag) => VarInt::from_u32((0x08u8 | flag) as u32),
            FrameType::MaxData => VarInt::from_u32(0x10),
            FrameType::MaxStreamData => VarInt::from_u32(0x11),
            FrameType::MaxStreams(dir) => VarInt::from_u32((0x12u8 | dir) as u32),
            FrameType::DataBlocked => VarInt::from_u32(0x14),
            FrameType::StreamDataBlocked => VarInt::from_u32(0x15),
            FrameType::StreamsBlocked(dir) => VarInt::from_u32((0x16u8 | dir) as u32),
            FrameType::NewConnectionId => VarInt::from_u32(0x18),
            FrameType::RetireConnectionId => VarInt::from_u32(0x19),
            FrameType::PathChallenge => VarInt::from_u32(0x1a),
            FrameType::PathResponse => VarInt::from_u32(0x1b),
            FrameType::ConnectionClose(layer) => VarInt::from_u32((0x1cu8 | layer) as u32),
            FrameType::HandshakeDone => VarInt::from_u32(0x1e),
            FrameType::Datagram(with_len) => VarInt::from_u32((0x30u8 | with_len) as u32),
        }
    }
}

impl From<FrameType> for VarInt {
    fn from(frame_type: FrameType) -> (r: VarInt) {
        let r = frame_type.to_varint();
        proof {
            let c = choose|x: VarInt| x.value() == tag_of_type(frame_type);
            VarInt::lemma_value_eq(r, c);
        }
        r
    }
}

impl vstd::std_specs::convert::FromSpecImpl<FrameType> for VarInt {
    open spec fn obeys_from_spec() -> bool {
        true
    }

    open spec fn from_spec(frame_type: FrameType) -> VarInt {
        choose|x: VarInt| x.value() == tag_of_type(frame_type)
    }
}

/// Reads a frame type from the start of `input`: the bytes its tag took and
/// the type, `IncompleteType` when the tag is cut short, `InvalidType` when
/// the tag names no frame type.
pub fn be_frame_type(input: &[u8]) -> (r: Result<(usize, FrameType), FrameError>)
    ensures
        !decodable(input@) ==> r == Err::<(usize, FrameType), FrameError>(FrameError::IncompleteType),
        decodable(input@) ==> match type_of_tag(decode_value(input@) as u64) {
            Some(t) => r == Ok::<(usize, FrameType), FrameError>((len_of_first(input@[0]) as usize, t)),
            None => r matches Err(FrameError::InvalidType(v)) && v.value() == decode_value(input@),
        },
{
    match decode(input) {
        None => Err(FrameError::IncompleteType),
        Some((v, n)) => match FrameType::try_from(v) {
            Ok(t) => Ok((n, t)),
            Err(e) => Err(e),
        },
    }
}

/// Every tag that names a frame type is that type's tag, and the flag bits
/// of the type read from it are in range.
pub proof fn tag_round_trip(v: u64)
    ensures
        type_of_tag(v) matches Some(t) ==> tag_of_type(t) == v && well_formed(t),
{
    if let Some(t) = type_of_tag(v) {
        lemma_flag_or(v);
    }
}

proof fn lemma_flag_or(v: u64)
    ensures
        0x02 <= v <= 0x03 ==> (0x02u8 | (v - 0x02) as u8) as u64 == v,
        0x08 <= v <= 0x0f ==> (0x08u8 | (v - 0x08) as u8) as u64 == v,
        0x12 <= v <= 0x13 ==> (0x12u8 | (v - 0x12) as u8) as u64 == v,
        0x16 <= v <= 0x17 ==> (0x16u8 | (v - 0x16) as u8) as u64 == v,
        0x1c <= v <= 0x1d ==> (0x1cu8 | (v - 0x1c) as u8) as u64 == v,
        0x30 <= v <= 0x31 ==> (0x30u8 | (v - 0x30) as u8) as u64 == v,
{
    assert(forall|b: u8| b <= 1 ==> (0x02u8 | b) == 0x02u8 + b) by (bit_vector);
    assert(forall|b: u8| b <= 7 ==> (0x08u8 | b) == 0x08u8 + b) by (bit_vector);
    assert(forall|b: u8| b <= 1 ==> (0x12u8 | b) == 0x12u8 + b) by (bit_vector);
    assert(forall|b: u8| b <= 1 ==> (0x16u8 | b) == 0x16u8 + b) by (bit_vector);
    assert(forall|b: u8| b <= 1 ==> (0x1cu8 | b) == 0x1cu8 + b) by (bit_vector);
    assert(forall|b: u8| b <= 1 ==> (0x30u8 | b) == 0x30u8 + b) by (bit_vector);
}

/// A well-formed frame type read back from its tag is itself.
pub proof fn type_round_trip(t: FrameType)
    requires
        well_formed(t),
    ensures
        type_of_tag(tag_of_type(t)) == Some(t),
{
    assert(forall|b: u8| b <= 1 ==> (0x02u8 | b) == 0x02u8 + b) by (bit_vector);
    assert(forall|b: u8| b <= 7 ==> (0x08u8 | b) == 0x08u8 + b) by (bit_vector);
    assert(forall|b: u8| b <= 1 ==> (0x12u8 | b) == 0x12u8 + b) by (bit_vector);
    assert(forall|b: u8| b <= 1 ==> (0x16u8 | b) == 0x16u8 + b) by (bit_vector);
    assert(forall|b: u8| b <= 1 ==> (0x1cu8 | b) == 0x1cu8 + b) by (bit_vector);
    assert(forall|b: u8| b <= 1 ==> (0x30u8 | b) == 0x30u8 + b) by (bit_vector);
}

/// Where the main frame types may travel: ACK and CRYPTO in Initial,
/// Handshake and 1-RTT packets; STREAM, MAX_DATA and DATAGRAM only in 0-RTT
/// and 1-RTT packets; HANDSHAKE_DONE, NEW_TOKEN and PATH_RESPONSE only in
/// 1-RTT packets.
pub proof fn admissibility_table(p: PacketType, b: u8)
    ensures
        admissible(FrameType::Ack(b), p) <==> (p == PacketType::Initial || p == PacketType::Handshake
            || p == PacketType::OneRtt),
        admissible(FrameType::Crypto, p) <==> (p == PacketType::Initial || p == PacketType::Handshake
            || p == PacketType::OneRtt),
        admissible(FrameType::Stream(b), p) <==> (p == PacketType::ZeroRtt || p == PacketType::OneRtt),
        admissible(FrameType::MaxData, p) <==> (p == PacketType::ZeroRtt || p == PacketType::OneRtt),
        admissible(FrameType::Datagram(b), p) <==> (p == PacketType::ZeroRtt || p
            == PacketType::OneRtt),
        admissible(FrameType::HandshakeDone, p) <==> p == PacketType::OneRtt,
        admissible(FrameType::NewToken, p) <==> p == PacketType::OneRtt,
        admissible(FrameType::PathResponse, p) <==> p == PacketType::OneRtt,
        admissible(FrameType::ConnectionClose(0), p) <==> p != PacketType::Retry,
        admissible(FrameType::ConnectionClose(1), p) <==> (p == PacketType::ZeroRtt || p
            == PacketType::OneRtt),
{
}

} // verus!
