//! What reading a frame yields, as values: the model of each frame, the
//! parse of each frame body, and the reading of a whole payload.
use vstd::prelude::*;

use crate::buf::bytes_view;
use crate::error::ErrorKind;
use crate::frame_type::{admissible, type_of_tag, FrameType, PacketType};
use crate::frames::{Frame, StreamCtlFrame};
use crate::space::{route_spec, Route};
use crate::varint::{decodable, decode_value, len_of_first, VarInt};

verus! {

/// A frame as plain values: integers for its fields, byte sequences for its data.
pub enum FrameModel {
    Padding,
    Ping,
    HandshakeDone,
    /// Largest, delay, first range, `(gap, length)` ranges, ECN counts.
    Ack(nat, nat, nat, Seq<(nat, nat)>, Option<(nat, nat, nat)>),
    ResetStream(nat, nat, nat),
    StopSending(nat, nat),
    /// Offset, length, data.
    Crypto(nat, nat, Seq<u8>),
    NewToken(Seq<u8>),
    /// Stream ID, offset, length, flags, data.
    Stream(nat, nat, nat, u8, Seq<u8>),
    MaxData(nat),
    MaxStreamData(nat, nat),
    MaxStreams(u8, nat),
    DataBlocked(nat),
    StreamDataBlocked(nat, nat),
    StreamsBlocked(u8, nat),
    /// Sequence, retire prior to, connection ID, reset token.
    NewConnectionId(nat, nat, Seq<u8>, Seq<u8>),
    RetireConnectionId(nat),
    PathChallenge(Seq<u8>),
    PathResponse(Seq<u8>),
    /// Layer, error code, frame type, reason.
    Close(u8, nat, Option<nat>, Seq<u8>),
    /// Length flag, length, data.
    Datagram(u8, nat, Seq<u8>),
}

/// The value of a variable-length integer.
pub open spec fn vn(v: VarInt) -> nat {
    v.value() as nat
}

/// The model of a frame.
pub open spec fn frame_model(f: Frame) -> FrameModel {
    match f {
        Frame::Padding(_) => FrameModel::Padding,
        Frame::Ping(_) => FrameModel::Ping,
        Frame::HandshakeDone(_) => FrameModel::HandshakeDone,
        Frame::Ack(a) => FrameModel::Ack(
            vn(a.largest),
            vn(a.delay),
            vn(a.first_range),
            a.ranges@.map_values(|r: (VarInt, VarInt)| (vn(r.0), vn(r.1))),
            match a.ecn {
                Some(e) => Some((vn(e.ect0), vn(e.ect1), vn(e.ce))),
                None => None,
            },
        ),
        Frame::Close(c) => FrameModel::Close(
            c.layer,
            vn(c.error_code),
            match c.frame_type {
                Some(t) => Some(vn(t)),
                None => None,
            },
            c.reason@,
        ),
        Frame::NewToken(x) => FrameModel::NewToken(x.token@),
        Frame::MaxData(x) => FrameModel::MaxData(vn(x.max_data)),
        Frame::DataBlocked(x) => FrameModel::DataBlocked(vn(x.limit)),
        Frame::NewConnectionId(x) => FrameModel::NewConnectionId(
            vn(x.sequence),
            vn(x.retire_prior_to),
            x.id@,
            x.reset_token@,
        ),
        Frame::RetireConnectionId(x) => FrameModel::RetireConnectionId(vn(x.sequence)),
        Frame::Challenge(x) => FrameModel::PathChallenge(x.data@),
        Frame::Response(x) => FrameModel::PathResponse(x.data@),
        Frame::StreamCtl(c) => match c {
            StreamCtlFrame::ResetStream(x) => FrameModel::ResetStream(
                vn(x.stream_id),
                vn(x.app_error_code),
                vn(x.final_size),
            ),
            StreamCtlFrame::StopSending(x) => FrameModel::StopSending(vn(x.stream_id), vn(x.app_error_code)),
            StreamCtlFrame::MaxStreamData(x) => FrameModel::MaxStreamData(vn(x.stream_id), vn(x.max_stream_data)),
            StreamCtlFrame::MaxStreams(x) => FrameModel::MaxStreams(x.dir, vn(x.max_streams)),
            StreamCtlFrame::StreamDataBlocked(x) => FrameModel::StreamDataBlocked(vn(x.stream_id), vn(x.limit)),
            StreamCtlFrame::StreamsBlocked(x) => FrameModel::StreamsBlocked(x.dir, vn(x.limit)),
        },
        Frame::Stream(x, d) => FrameModel::Stream(vn(x.stream_id), vn(x.offset), x.length as nat, x.flags, bytes_view(d)),
        Frame::Crypto(x, d) => FrameModel::Crypto(vn(x.offset), vn(x.length), bytes_view(d)),
        Frame::Datagram(x, d) => FrameModel::Datagram(x.with_len, x.length as nat, bytes_view(d)),
    }
}

/// The variable-length integer at `p` and the position after it.
pub open spec fn vint(s: Seq<u8>, p: int) -> Option<(nat, int)> {
    if 0 <= p <= s.len() && decodable(s.subrange(p, s.len() as int)) {
        Some((decode_value(s.subrange(p, s.len() as int)), p + len_of_first(s[p])))
    } else {
        None
    }
}

/// The `len` bytes at `p` and the position after them.
pub open spec fn span(s: Seq<u8>, p: int, len: nat) -> Option<(Seq<u8>, int)> {
    if 0 <= p && p + len <= s.len() {
        Some((s.subrange(p, p + len), p + len))
    } else {
        None
    }
}

/// The first `k` additional ranges of an ACK frame from `p` on, and the
/// position after them.
pub open spec fn ack_ranges(s: Seq<u8>, p: int, k: nat) -> Option<(Seq<(nat, nat)>, int)>
    decreases k,
{
    if k == 0 {
        Some((Seq::empty(), p))
    } else {
        match ack_ranges(s, p, (k - 1) as nat) {
            None => None,
            Some((rs, q)) => match vint(s, q) {
                None => None,
                Some((g, q1)) => match vint(s, q1) {
                    None => None,
                    Some((l, q2)) => Some((rs.push((g, l)), q2)),
                },
            },
        }
    }
}

/// The body of an ACK frame.
pub open spec fn ack_spec(s: Seq<u8>, pos: int, ecn: bool) -> Option<(FrameModel, int)> {
    match vint(s, pos) {
        None => None,
        Some((largest, p1)) => match vint(s, p1) {
            None => None,
            Some((delay, p2)) => match vint(s, p2) {
                None => None,
                Some((count, p3)) => match vint(s, p3) {
                    None => None,
                    Some((first, p4)) => match ack_ranges(s, p4, count) {
                        None => None,
                        Some((rs, q)) => if ecn {
                            match vint(s, q) {
                                None => None,
                                Some((a, q1)) => match vint(s, q1) {
                                    None => None,
                                    Some((b, q2)) => match vint(s, q2) {
                                        None => None,
                                        Some((c, q3)) => Some(
                                            (FrameModel::Ack(largest, delay, first, rs, Some((a, b, c))), q3),
                                        ),
                                    },
                                },
                            }
                        } else {
                            Some((FrameModel::Ack(largest, delay, first, rs, None), q))
                        },
                    },
                },
            },
        },
    }
}

/// The body of a CONNECTION_CLOSE frame.
pub open spec fn close_spec(s: Seq<u8>, pos: int, layer: u8) -> Option<(FrameModel, int)> {
    match vint(s, pos) {
        None => None,
        Some((code, p1)) => {
            let ft = if layer == 0 {
                match vint(s, p1) {
                    None => None,
                    Some((t, p2)) => Some((Some(t), p2)),
                }
            } else {
                Some((None, p1))
            };
            match ft {
                None => None,
                Some((t, p2)) => match vint(s, p2) {
                    None => None,
                    Some((len, p3)) => match span(s, p3, len) {
                        None => None,
                        Some((reason, e)) => Some((FrameModel::Close(layer, code, t, reason), e)),
                    },
                },
            }
        },
    }
}

/// The body of a NEW_CONNECTION_ID frame; the ID takes 1 to 20 bytes.
pub open spec fn ncid_spec(s: Seq<u8>, pos: int) -> Option<(FrameModel, int)> {
    match vint(s, pos) {
        None => None,
        Some((sequence, p1)) => match vint(s, p1) {
            None => None,
            Some((retire, p2)) => if p2 >= s.len() || s[p2] < 1 || s[p2] > 20 {
                None
            } else {
                match span(s, p2 + 1, s[p2] as nat) {
                    None => None,
                    Some((id, p3)) => match span(s, p3, 16) {
                        None => None,
                        Some((token, e)) => Some((FrameModel::NewConnectionId(sequence, retire, id, token), e)),
                    },
                }
            },
        },
    }
}

/// The body of a STREAM frame: the ID, the offset if the OFF bit is set, the
/// length if the LEN bit is set, and the data, else up to the end.
pub open spec fn stream_spec(s: Seq<u8>, pos: int, flags: u8) -> Option<(FrameModel, int)> {
    match vint(s, pos) {
        None => None,
        Some((sid, p1)) => {
            let off = if flags & 0x04 != 0 {
                vint(s, p1)
            } else {
                Some((0nat, p1))
            };
            match off {
                None => None,
                Some((o, p2)) => if flags & 0x02 != 0 {
                    match vint(s, p2) {
                        None => None,
                        Some((l, p3)) => match span(s, p3, l) {
                            None => None,
                            Some((d, e)) => Some((FrameModel::Stream(sid, o, l, flags, d), e)),
                        },
                    }
                } else {
                    Some((FrameModel::Stream(sid, o, (s.len() - p2) as nat, flags, s.subrange(p2, s.len() as int)), s.len() as int))
                },
            }
        },
    }
}

/// One integer body, made into a frame by `mk`.
pub open spec fn one(s: Seq<u8>, pos: int, mk: spec_fn(nat) -> FrameModel) -> Option<(FrameModel, int)> {
    match vint(s, pos) {
        None => None,
        Some((a, p1)) => Some((mk(a), p1)),
    }
}

/// Two integers body, made into a frame by `mk`.
pub open spec fn two(s: Seq<u8>, pos: int, mk: spec_fn(nat, nat) -> FrameModel) -> Option<(FrameModel, int)> {
    match vint(s, pos) {
        None => None,
        Some((a, p1)) => match vint(s, p1) {
            None => None,
            Some((b, p2)) => Some((mk(a, b), p2)),
        },
    }
}

/// The body of a frame of type `t` starting at `pos`, and the position after it.
pub open spec fn body_spec(s: Seq<u8>, pos: int, t: FrameType) -> Option<(FrameModel, int)> {
    match t {
        FrameType::Padding => Some((FrameModel::Padding, pos)),
        FrameType::Ping => Some((FrameModel::Ping, pos)),
        FrameType::HandshakeDone => Some((FrameModel::HandshakeDone, pos)),
        FrameType::Ack(ecn) => if ecn > 1 {
            None
        } else {
            ack_spec(s, pos, ecn == 1)
        },
        FrameType::ResetStream => match vint(s, pos) {
            None => None,
            Some((a, p1)) => match vint(s, p1) {
                None => None,
                Some((b, p2)) => match vint(s, p2) {
                    None => None,
                    Some((c, p3)) => Some((FrameModel::ResetStream(a, b, c), p3)),
                },
            },
        },
        FrameType::StopSending => two(s, pos, |a: nat, b: nat| FrameModel::StopSending(a, b)),
        FrameType::Crypto => match vint(s, pos) {
            None => None,
            Some((o, p1)) => match vint(s, p1) {
                None => None,
                Some((l, p2)) => match span(s, p2, l) {
                    None => None,
                    Some((d, e)) => Some((FrameModel::Crypto(o, l, d), e)),
                },
            },
        },
        FrameType::NewToken => match vint(s, pos) {
            None => None,
            Some((l, p1)) => match span(s, p1, l) {
                None => None,
                Some((d, e)) => Some((FrameModel::NewToken(d), e)),
            },
        },
        FrameType::Stream(flags) => stream_spec(s, pos, flags),
        FrameType::MaxData => one(s, pos, |a: nat| FrameModel::MaxData(a)),
        FrameType::MaxStreamData => two(s, pos, |a: nat, b: nat| FrameModel::MaxStreamData(a, b)),
        FrameType::MaxStreams(dir) => one(s, pos, |a: nat| FrameModel::MaxStreams(dir, a)),
        FrameType::DataBlocked => one(s, pos, |a: nat| FrameModel::DataBlocked(a)),
        FrameType::StreamDataBlocked => two(s, pos, |a: nat, b: nat| FrameModel::StreamDataBlocked(a, b)),
        FrameType::StreamsBlocked(dir) => one(s, pos, |a: nat| FrameModel::StreamsBlocked(dir, a)),
        FrameType::NewConnectionId => ncid_spec(s, pos),
        FrameType::RetireConnectionId => one(s, pos, |a: nat| FrameModel::RetireConnectionId(a)),
        FrameType::PathChallenge => match span(s, pos, 8) {
            None => None,
            Some((d, e)) => Some((FrameModel::PathChallenge(d), e)),
        },
        FrameType::PathResponse => match span(s, pos, 8) {
            None => None,
            Some((d, e)) => Some((FrameModel::PathResponse(d), e)),
        },
        FrameType::ConnectionClose(layer) => close_spec(s, pos, layer),
        FrameType::Datagram(w) => if w != 0 {
            match vint(s, pos) {
                None => None,
                Some((l, p1)) => match span(s, p1, l) {
                    None => None,
                    Some((d, e)) => Some((FrameModel::Datagram(w, l, d), e)),
                },
            }
        } else {
            Some((FrameModel::Datagram(w, (s.len() - pos) as nat, s.subrange(pos, s.len() as int)), s.len() as int))
        },
    }
}

/// Reading one frame from the start of `s` in a packet of type `p`: the
/// bytes it took, its model and type; or the protocol error it amounts to,
/// as a kind and the frame type reported (PADDING when no type was read).
pub open spec fn read_frame(s: Seq<u8>, p: PacketType) -> Result<(int, FrameModel, FrameType), (ErrorKind, FrameType)> {
    if !decodable(s) {
        Err((ErrorKind::FrameEncodingError, FrameType::Padding))
    } else {
        match type_of_tag(decode_value(s) as u64) {
            None => Err((ErrorKind::FrameEncodingError, FrameType::Padding)),
            Some(t) => if !admissible(t, p) {
                Err((ErrorKind::ProtocolViolation, t))
            } else {
                match body_spec(s, len_of_first(s[0]) as int, t) {
                    None => Err((ErrorKind::FrameEncodingError, t)),
                    Some((f, e)) => Ok((e, f, t)),
                }
            },
        }
    }
}

/// Reading a whole payload in wire order and routing each frame: the frames
/// read, with type and route, up to the first that cannot be read or routed,
/// and the error it amounts to, if any.
pub open spec fn read_all(s: Seq<u8>, p: PacketType, is_server: bool) -> (Seq<(FrameModel, FrameType, Route)>, Option<(ErrorKind, FrameType)>)
    decreases s.len(),
{
    if s.len() == 0 {
        (Seq::empty(), None)
    } else {
        match read_frame(s, p) {
            Err(e) => (Seq::empty(), Some(e)),
            Ok((n, f, t)) => match route_spec(t, p, is_server) {
                Err(k) => (Seq::empty(), Some((k, t))),
                Ok(rt) => if 0 < n <= s.len() {
                    let rest = read_all(s.subrange(n, s.len() as int), p, is_server);
                    (seq![(f, t, rt)] + rest.0, rest.1)
                } else {
                    (Seq::empty(), None)
                },
            },
        }
    }
}

/// One step of reading a payload: a frame read and routed comes first.
pub proof fn lemma_read_all_step(s: Seq<u8>, p: PacketType, is_server: bool)
    requires
        s.len() > 0,
    ensures
        read_frame(s, p) matches Err(e) ==> read_all(s, p, is_server) == (Seq::<(FrameModel, FrameType, Route)>::empty(), Some(e)),
        read_frame(s, p) matches Ok((n, f, t)) ==> match route_spec(t, p, is_server) {
            Err(k) => read_all(s, p, is_server) == (Seq::<(FrameModel, FrameType, Route)>::empty(), Some((k, t))),
            Ok(rt) => 0 < n <= s.len() ==> {
                &&& read_all(s, p, is_server).0 == seq![(f, t, rt)] + read_all(s.subrange(n, s.len() as int), p, is_server).0
                &&& read_all(s, p, is_server).1 == read_all(s.subrange(n, s.len() as int), p, is_server).1
            },
        },
{
}

/// The first CONNECTION_CLOSE frame of a 1-RTT payload read in wire order,
/// before the first frame that cannot be read.
pub open spec fn first_close(s: Seq<u8>) -> Option<FrameModel>
    decreases s.len(),
{
    if s.len() == 0 {
        None
    } else {
        match read_frame(s, PacketType::OneRtt) {
            Err(_) => None,
            Ok((n, f, t)) => if f is Close {
                Some(f)
            } else if 0 < n <= s.len() {
                first_close(s.subrange(n, s.len() as int))
            } else {
                None
            },
        }
    }
}

/// One step of looking for the peer's CONNECTION_CLOSE frame.
pub proof fn lemma_first_close_step(s: Seq<u8>)
    requires
        s.len() > 0,
    ensures
        read_frame(s, PacketType::OneRtt) is Err ==> first_close(s) is None,
        read_frame(s, PacketType::OneRtt) matches Ok((n, f, t)) ==> (f is Close ==> first_close(s) == Some(f)),
        read_frame(s, PacketType::OneRtt) matches Ok((n, f, t)) ==> (!(f is Close) && 0 < n <= s.len() ==> first_close(s)
            == first_close(s.subrange(n, s.len() as int))),
{
}

} // verus!
