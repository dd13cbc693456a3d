//! The data space's handling of a decrypted payload: read every frame, route
//! each to its subsystem, and sum up what the packet held.
use bytes::Bytes;
use vstd::prelude::*;

use crate::buf::bytes_view;
use crate::error::{ErrorKind, QuicError};
use crate::frame_io::FrameReader;
use crate::frame_type::{admissible, FrameError, FrameType, PacketType};
use crate::frame_spec::{frame_model, lemma_read_all_step, read_all, read_frame, FrameModel};
use crate::frames::{Frame, GetFrameType};
use crate::space::{route, route_spec, with_frame_spec, PacketContains, Route};

verus! {

/// The protocol error a frame that cannot be read amounts to: a frame type
/// that may not travel in its packet is a `ProtocolViolation`, anything else
/// a `FrameEncodingError`.
pub open spec fn frame_error_kind(e: FrameError) -> ErrorKind {
    match e {
        FrameError::WrongType(..) => ErrorKind::ProtocolViolation,
        _ => ErrorKind::FrameEncodingError,
    }
}

/// The frame type a frame error is reported on; PADDING when no type was read.
pub open spec fn frame_error_type(e: FrameError) -> FrameType {
    match e {
        FrameError::WrongType(t, _) => t,
        FrameError::IncompleteFrame(t) => t,
        _ => FrameType::Padding,
    }
}

/// Turns a frame error into the protocol error that closes the connection.
pub fn to_quic_error(e: FrameError) -> (r: QuicError)
    ensures
        r.spec_kind() == frame_error_kind(e),
        r.spec_frame_type() == frame_error_type(e),
{
    match e {
        FrameError::WrongType(t, _) => QuicError::new(
            ErrorKind::ProtocolViolation,
            t,
            "frame type not allowed in this packet type",
        ),
        FrameError::IncompleteFrame(t) => QuicError::new(
            ErrorKind::FrameEncodingError,
            t,
            "malformed frame",
        ),
        FrameError::InvalidType(_) => QuicError::new(
            ErrorKind::FrameEncodingError,
            FrameType::Padding,
            "unknown frame type",
        ),
        FrameError::IncompleteType => QuicError::new(
            ErrorKind::FrameEncodingError,
            FrameType::Padding,
            "incomplete frame type",
        ),
    }
}

/// The summary of a packet whose frames have the types `types`, in order.
pub open spec fn contains_of(types: Seq<FrameType>) -> PacketContains
    decreases types.len(),
{
    if types.len() == 0 {
        PacketContains {
            ack_eliciting: false,
            in_flight: false,
            non_probing: false,
            flow_controlled: false,
        }
    } else {
        with_frame_spec(contains_of(types.drop_last()), types.last())
    }
}

/// The frames of a packet with where each goes, what they add up to, and the
/// error that ended the packet early, if one did.
#[derive(Debug)]
pub struct ParsedPacket {
    pub frames: Vec<(Frame, Route)>,
    pub contains: PacketContains,
    pub error: Option<QuicError>,
}

/// The types of parsed frames, in order.
pub open spec fn types_of(frames: Seq<(Frame, Route)>) -> Seq<FrameType> {
    frames.map_values(|f: (Frame, Route)| f.0.spec_frame_type())
}

/// Whether parsed frames are, one for one and in order, the frames read.
pub open spec fn frames_are(frames: Seq<(Frame, Route)>, read: Seq<(FrameModel, FrameType, Route)>) -> bool {
    &&& frames.len() == read.len()
    &&& forall|i: int|
        0 <= i < frames.len() ==> {
            &&& frame_model(#[trigger] frames[i].0) == read[i].0
            &&& frames[i].0.spec_frame_type() == read[i].1
            &&& frames[i].1 == read[i].2
        }
}

/// Reads the frames of a decrypted payload from a packet of type
/// `packet_type` in wire order, and routes each. Reading stops at the first
/// frame that cannot be read, or that a server may not receive: the frames
/// before it are returned for dispatch, with the protocol error it amounts
/// to, on which the connection closes.
#[verifier::rlimit(50)]
pub fn parse_payload(payload: Bytes, packet_type: PacketType, is_server: bool) -> (r: ParsedPacket)
    ensures
        frames_are(r.frames@, read_all(bytes_view(payload), packet_type, is_server).0),
        r.error is None <==> read_all(bytes_view(payload), packet_type, is_server).1 is None,
        r.error matches Some(e) ==> read_all(bytes_view(payload), packet_type, is_server).1 == Some(
            (e.spec_kind(), e.spec_frame_type()),
        ),
        r.contains == contains_of(types_of(r.frames@)),
        forall|i: int| 0 <= i < r.frames@.len() ==> admissible(#[trigger] r.frames@[i].0.spec_frame_type(), packet_type),
{
    let ghost all = read_all(bytes_view(payload), packet_type, is_server);
    let mut reader = FrameReader::new(payload, packet_type);
    let mut frames: Vec<(Frame, Route)> = Vec::new();
    let mut contains = PacketContains::new();
    let ghost mut done: Seq<(FrameModel, FrameType, Route)> = Seq::empty();
    assert(types_of(frames@) =~= Seq::<FrameType>::empty());
    assert(done + all.0 =~= all.0);
    loop
        invariant
            reader.spec_packet_type() == packet_type,
            contains == contains_of(types_of(frames@)),
            frames_are(frames@, done),
            all == read_all(bytes_view(payload), packet_type, is_server),
            all.0 == done + read_all(reader.spec_payload(), packet_type, is_server).0,
            all.1 == read_all(reader.spec_payload(), packet_type, is_server).1,
            forall|i: int| 0 <= i < frames@.len() ==> admissible(#[trigger] frames@[i].0.spec_frame_type(), packet_type),
        decreases reader.spec_payload().len(),
    {
        let ghost rem = reader.spec_payload();
        proof {
            if rem.len() > 0 {
                lemma_read_all_step(rem, packet_type, is_server);
            }
        }
        match reader.next() {
            None => {
                assert(read_all(rem, packet_type, is_server).0 =~= Seq::<(FrameModel, FrameType, Route)>::empty());
                assert(done + read_all(rem, packet_type, is_server).0 =~= done);
                return ParsedPacket { frames, contains, error: None };
            },
            Some(Err(e)) => {
                assert(done + read_all(rem, packet_type, is_server).0 =~= done);
                return ParsedPacket { frames, contains, error: Some(to_quic_error(e)) };
            },
            Some(Ok((frame, frame_type))) => {
                let to = match route(frame_type, packet_type, is_server) {
                    Ok(to) => to,
                    Err(e) => {
                        assert(done + read_all(rem, packet_type, is_server).0 =~= done);
                        return ParsedPacket { frames, contains, error: Some(e) };
                    },
                };
                let ghost old_frames = frames@;
                let ghost m = frame_model(frame);
                contains = contains.with_frame(frame_type);
                frames.push((frame, to));
                proof {
                    let next = reader.spec_payload();
                    assert(done.push((m, frame_type, to)) + read_all(next, packet_type, is_server).0
                        =~= done + read_all(rem, packet_type, is_server).0);
                    done = done.push((m, frame_type, to));
                    assert(frames@[frames@.len() - 1] == (frame, to));
                    assert(forall|i: int| 0 <= i < old_frames.len() ==> frames@[i] == old_frames[i]);
                }
                assert(types_of(frames@).drop_last() =~= types_of(old_frames));
                assert(types_of(frames@).last() == frame_type);
            },
        }
    }
}

} // verus!
